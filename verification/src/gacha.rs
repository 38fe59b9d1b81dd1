//! The gacha engine: listing active banners with their weighted pools, and
//! drawing — a cumulative-weight roulette over the pool in insertion-id
//! order, with deterministic tie resolution, paid in coins and delivered
//! through the present box.
use vstd::prelude::*;

use crate::Error;
use crate::external::generate_uuid;
use crate::external::random_below;
use crate::external::ts_ok;
use crate::model::GachaItemMaster;
use crate::model::GachaMaster;
use crate::model::UserOneTimeToken;
use crate::model::UserPresent;
use crate::state::GameState;
use crate::state::find_active_gacha;
use crate::state::find_user;
use crate::state::first_idx;
use crate::state::generate_id;
use crate::state::masters_unchanged;
use crate::state::p_gacha;
use crate::state::p_user;
use crate::state::token_tombstoned;
use crate::state::tombstone_live_tokens_of_user;
use crate::admission::check_one_time_token;
use crate::admission::check_viewer_id;
use crate::admission::device_bound;
use crate::admission::token_check_rel;

verus! {

/// A gacha banner whose active window contains `now`.
pub open spec fn p_active_gacha(now: i64) -> spec_fn(GachaMaster) -> bool {
    |x: GachaMaster| x.start_at <= now && x.end_at >= now
}

/// A pool entry of this banner.
pub open spec fn p_pool(gacha_id: i64) -> spec_fn(GachaItemMaster) -> bool {
    |x: GachaItemMaster| x.gacha_id == gacha_id
}

/// The summed weight of a pool.
pub open spec fn sum_weights(pool: Seq<GachaItemMaster>) -> int
    decreases pool.len(),
{
    if pool.len() == 0 {
        0
    } else {
        sum_weights(pool.drop_last()) + pool.last().weight
    }
}

/// The cumulative weight of the first `k` pool entries.
pub open spec fn cum_weight(pool: Seq<GachaItemMaster>, k: int) -> int {
    sum_weights(pool.take(k))
}

/// With non-negative weights, every prefix sum sits between zero and the
/// total.
pub proof fn lemma_sum_weights_prefix(pool: Seq<GachaItemMaster>, k: int)
    requires
        0 <= k <= pool.len(),
        forall|j: int| 0 <= j < pool.len() ==> (#[trigger] pool[j]).weight >= 0,
    ensures
        0 <= cum_weight(pool, k) <= sum_weights(pool),
{
    lemma_cum_weight_monotonic(pool, 0, k);
    lemma_cum_weight_monotonic(pool, k, pool.len() as int);
    assert(pool.take(0) =~= Seq::<GachaItemMaster>::empty());
    assert(cum_weight(pool, 0) == 0);
    assert(pool.take(pool.len() as int) =~= pool);
}

/// The total weight of a pool, summed entry by entry.
#[verifier::loop_isolation(false)]
pub fn total_weight(pool: &Vec<GachaItemMaster>) -> (r: i64)
    requires
        forall|j: int| 0 <= j < pool@.len() ==> (#[trigger] pool@[j]).weight >= 0,
        sum_weights(pool@) <= i64::MAX,
    ensures
        r as int == sum_weights(pool@),
{
    let n = pool.len();
    let mut acc: i64 = 0;
    let mut i: usize = 0;
    while i < n
        invariant
            0 <= i <= n,
            acc as int == cum_weight(pool@, i as int),
        decreases n - i,
    {
        proof {
            lemma_sum_weights_prefix(pool@, i as int + 1);
            lemma_sum_weights_prefix(pool@, i as int);
            assert(pool@.take(i as int + 1).drop_last() =~= pool@.take(i as int));
            assert(pool@.take(i as int + 1).last() == pool@[i as int]);
        }
        acc = acc + pool[i].weight;
        i = i + 1;
    }
    proof {
        assert(pool@.take(n as int) =~= pool@);
    }
    acc
}

/// Select the drawn pool entry for a sample: the first entry whose cumulative
/// weight (summed in pool order) exceeds the sample. Boundaries are
/// inclusive-low, exclusive-high per entry, so ties resolve to the earlier
/// entry in pool order.
#[verifier::loop_isolation(false)]
pub fn pick_gacha_item(pool: &Vec<GachaItemMaster>, sample: i64) -> (r: usize)
    requires
        forall|j: int| 0 <= j < pool@.len() ==> (#[trigger] pool@[j]).weight >= 0,
        sum_weights(pool@) <= i64::MAX,
        0 <= sample < sum_weights(pool@),
    ensures
        r < pool@.len(),
        cum_weight(pool@, r as int) <= sample < cum_weight(pool@, r as int + 1),
{
    let n = pool.len();
    let mut boundary: i64 = 0;
    let mut i: usize = 0;
    while i < n
        invariant
            0 <= i <= n,
            boundary as int == cum_weight(pool@, i as int),
            sample >= boundary,
        decreases n - i,
    {
        proof {
            lemma_sum_weights_prefix(pool@, i as int + 1);
            lemma_sum_weights_prefix(pool@, i as int);
            assert(pool@.take(i as int + 1).drop_last() =~= pool@.take(i as int));
            assert(pool@.take(i as int + 1).last() == pool@[i as int]);
        }
        let next = boundary + pool[i].weight;
        if sample < next {
            return i;
        }
        boundary = next;
        i = i + 1;
    }
    proof {
        assert(pool@.take(n as int) =~= pool@);
        assert(false);
    }
    0
}

/// Gacha weight conservation: the selection boundaries partition the sample
/// space `[0, total)` — for every sample there is exactly one entry whose
/// half-open cumulative interval contains it, the one `pick_gacha_item`
/// returns.
pub proof fn lemma_pick_unique(pool: Seq<GachaItemMaster>, sample: int, i: int, j: int)
    requires
        forall|k: int| 0 <= k < pool.len() ==> (#[trigger] pool[k]).weight >= 0,
        0 <= i < pool.len(),
        0 <= j < pool.len(),
        cum_weight(pool, i) <= sample < cum_weight(pool, i + 1),
        cum_weight(pool, j) <= sample < cum_weight(pool, j + 1),
    ensures
        i == j,
{
    if i < j {
        lemma_cum_weight_monotonic(pool, i + 1, j);
    } else if j < i {
        lemma_cum_weight_monotonic(pool, j + 1, i);
    }
}

/// Cumulative weight is monotone in the prefix length.
pub proof fn lemma_cum_weight_monotonic(pool: Seq<GachaItemMaster>, a: int, b: int)
    requires
        forall|k: int| 0 <= k < pool.len() ==> (#[trigger] pool[k]).weight >= 0,
        0 <= a <= b <= pool.len(),
    ensures
        cum_weight(pool, a) <= cum_weight(pool, b),
    decreases b - a,
{
    if a < b {
        lemma_cum_weight_monotonic(pool, a + 1, b);
        assert(pool.take(a + 1).drop_last() =~= pool.take(a));
    }
}

/// Result sequences are sorted by banner display order.
pub open spec fn sorted_by_display_order(s: Seq<GachaMaster>) -> bool {
    forall|p: int, q: int| 0 <= p < q < s.len() ==> s[p].display_order <= s[q].display_order
}

/// Pool sequences are sorted by insertion id.
pub open spec fn sorted_by_id(s: Seq<GachaItemMaster>) -> bool {
    forall|p: int, q: int| 0 <= p < q < s.len() ==> s[p].id <= s[q].id
}

/// Inserting anywhere adds exactly one copy to a sequence's multiset.
pub proof fn lemma_insert_to_multiset<T>(s: Seq<T>, i: int, a: T)
    requires
        0 <= i <= s.len(),
    ensures
        s.insert(i, a).to_multiset() =~= s.to_multiset().insert(a),
{
    broadcast use vstd::seq_lib::group_to_multiset_ensures;

    let t = s.insert(i, a);
    assert(t.remove(i) =~= s);
    assert(t[i] == a);
    assert(t.remove(i).to_multiset() =~= t.to_multiset().remove(a));
    assert(t.to_multiset().contains(a)) by {
        assert(t[i] == a && t.contains(a));
    }
    assert forall|x: T| s.to_multiset().insert(a).count(x) == t.to_multiset().count(x) by {
        if x == a {
            assert(t.to_multiset().remove(a).count(a) == s.to_multiset().count(a));
        } else {
            assert(t.to_multiset().remove(a).count(x) == t.to_multiset().count(x));
        }
    }
}

/// All active banners, ordered by display order (ties in either order, as the
/// store may return them).
#[verifier::loop_isolation(false)]
pub fn collect_active_gachas(rows: &Vec<GachaMaster>, now: i64) -> (r: Vec<GachaMaster>)
    ensures
        sorted_by_display_order(r@),
        r@.to_multiset() == rows@.filter(p_active_gacha(now)).to_multiset(),
        r@.len() == rows@.filter(p_active_gacha(now)).len(),
{
    broadcast use vstd::seq_lib::group_to_multiset_ensures;

    proof {
        reveal(Seq::filter);
    }
    let n = rows.len();
    let mut r: Vec<GachaMaster> = Vec::new();
    proof {
        assert(rows@.take(0) =~= Seq::<GachaMaster>::empty());
        assert(rows@.take(0).filter(p_active_gacha(now)) =~= Seq::<GachaMaster>::empty());
    }
    let mut i: usize = 0;
    while i < n
        invariant
            0 <= i <= n,
            sorted_by_display_order(r@),
            r@.to_multiset() == rows@.take(i as int).filter(p_active_gacha(now)).to_multiset(),
            r@.len() == rows@.take(i as int).filter(p_active_gacha(now)).len(),
        decreases n - i,
    {
        proof {
            assert(rows@.take(i as int + 1).drop_last() =~= rows@.take(i as int));
            assert(rows@.take(i as int + 1).last() == rows@[i as int]);
        }
        if rows[i].start_at <= now && rows[i].end_at >= now {
            let x = rows[i].clone_row();
            // insertion position: after every entry ordered at or before x
            let m = r.len();
            let mut p: usize = 0;
            while p < m
                invariant
                    0 <= p <= m,
                    m == r@.len(),
                    forall|q: int| 0 <= q < p ==> r@[q].display_order <= x.display_order,
                decreases m - p,
            {
                if r[p].display_order > x.display_order {
                    break ;
                }
                p = p + 1;
            }
            proof {
                lemma_insert_to_multiset(r@, p as int, x);
            }
            r.insert(p, x);
            proof {
                reveal(Seq::filter);
                assert(rows@.take(i as int + 1).filter(p_active_gacha(now)) == rows@.take(
                    i as int,
                ).filter(p_active_gacha(now)).push(x));
            }
        } else {
            proof {
                reveal(Seq::filter);
                assert(rows@.take(i as int + 1).filter(p_active_gacha(now)) == rows@.take(
                    i as int,
                ).filter(p_active_gacha(now)));
            }
        }
        i = i + 1;
    }
    proof {
        assert(rows@.take(n as int) =~= rows@);
    }
    r
}

/// The pool of one banner, ordered by insertion id.
#[verifier::loop_isolation(false)]
pub fn collect_pool(rows: &Vec<GachaItemMaster>, gacha_id: i64) -> (r: Vec<GachaItemMaster>)
    ensures
        sorted_by_id(r@),
        r@.to_multiset() == rows@.filter(p_pool(gacha_id)).to_multiset(),
        r@.len() == rows@.filter(p_pool(gacha_id)).len(),
        forall|j: int| 0 <= j < r@.len() ==> (#[trigger] r@[j]).gacha_id == gacha_id,
{
    broadcast use vstd::seq_lib::group_to_multiset_ensures;

    proof {
        reveal(Seq::filter);
    }
    let n = rows.len();
    let mut r: Vec<GachaItemMaster> = Vec::new();
    proof {
        assert(rows@.take(0) =~= Seq::<GachaItemMaster>::empty());
        assert(rows@.take(0).filter(p_pool(gacha_id)) =~= Seq::<GachaItemMaster>::empty());
    }
    let mut i: usize = 0;
    while i < n
        invariant
            0 <= i <= n,
            sorted_by_id(r@),
            r@.to_multiset() == rows@.take(i as int).filter(p_pool(gacha_id)).to_multiset(),
            r@.len() == rows@.take(i as int).filter(p_pool(gacha_id)).len(),
            forall|j: int| 0 <= j < r@.len() ==> (#[trigger] r@[j]).gacha_id == gacha_id,
        decreases n - i,
    {
        proof {
            assert(rows@.take(i as int + 1).drop_last() =~= rows@.take(i as int));
            assert(rows@.take(i as int + 1).last() == rows@[i as int]);
        }
        if rows[i].gacha_id == gacha_id {
            let x = rows[i];
            let m = r.len();
            let mut p: usize = 0;
            while p < m
                invariant
                    0 <= p <= m,
                    m == r@.len(),
                    forall|q: int| 0 <= q < p ==> r@[q].id <= x.id,
                decreases m - p,
            {
                if r[p].id > x.id {
                    break ;
                }
                p = p + 1;
            }
            proof {
                lemma_insert_to_multiset(r@, p as int, x);
            }
            r.insert(p, x);
            proof {
                reveal(Seq::filter);
                assert(rows@.take(i as int + 1).filter(p_pool(gacha_id)) == rows@.take(
                    i as int,
                ).filter(p_pool(gacha_id)).push(x));
            }
        } else {
            proof {
                reveal(Seq::filter);
                assert(rows@.take(i as int + 1).filter(p_pool(gacha_id)) == rows@.take(
                    i as int,
                ).filter(p_pool(gacha_id)));
            }
        }
        i = i + 1;
    }
    proof {
        assert(rows@.take(n as int) =~= rows@);
    }
    r
}

/// One listed banner with its full draw pool.
pub struct GachaData {
    pub gacha: GachaMaster,
    pub gacha_item: Vec<GachaItemMaster>,
}

/// List the active gacha banners in display order, each with its non-empty
/// pool in insertion-id order, and issue a fresh draw token (invalidating the
/// user's previous live tokens). With no active banner the response is empty
/// and no token is issued.
#[verifier::loop_isolation(false)]
pub fn list_gacha(s: &mut GameState, user_id: i64, now: i64) -> (r: Result<
    (String, Vec<GachaData>),
    Error,
>)
    requires
        old(s).next_entity_id < i64::MAX,
        ts_ok(now as int),
    ensures
        ({
            let active = old(s).gacha_masters@.filter(p_active_gacha(now));
            &&& active.len() == 0 ==> (r matches Ok(v) && v.0@.len() == 0 && v.1@.len() == 0
                && *final(s) == *old(s))
            &&& r matches Err(e) ==> e == Error::GachaItemNotFound && *final(s) == *old(s)
            // success is owed whenever every active banner has a pool
            &&& (forall|k: int|
                0 <= k < active.len() ==> old(s).gacha_item_masters@.filter(
                    p_pool((#[trigger] active[k]).id),
                ).len() > 0) ==> r is Ok
            &&& (active.len() > 0 && r is Ok) ==> {
                let v = r->Ok_0;
                // the listing: active banners by display order, their pools by id
                &&& sorted_by_display_order(gachas_of(v.1@))
                &&& gachas_of(v.1@).to_multiset() == active.to_multiset()
                &&& forall|k: int|
                    0 <= k < v.1@.len() ==> {
                        &&& (#[trigger] v.1@[k].gacha_item)@.len() > 0
                        &&& sorted_by_id(v.1@[k].gacha_item@)
                        &&& v.1@[k].gacha_item@.to_multiset()
                            == old(s).gacha_item_masters@.filter(
                            p_pool(v.1@[k].gacha.id),
                        ).to_multiset()
                    }
                // the fresh one-time token, replacing all live tokens of the user
                &&& v.0@.len() == 36
                &&& final(s).tokens@.len() == old(s).tokens@.len() + 1
                &&& final(s).tokens@.last() == (UserOneTimeToken {
                    id: (old(s).next_entity_id + 1) as i64,
                    user_id: user_id,
                    token: final(s).tokens@.last().token,
                    token_type: crate::model::TOKEN_TYPE_GACHA,
                    expired_at: (now + 600) as i64,
                    created_at: now,
                    updated_at: now,
                    deleted_at: None,
                })
                &&& final(s).tokens@.last().token@ == v.0@
                &&& forall|j: int|
                    0 <= j < old(s).tokens@.len() ==> final(s).tokens@[j] == (
                    if old(s).tokens@[j].user_id == user_id && old(s).tokens@[j].deleted_at
                        is None {
                        token_tombstoned(old(s).tokens@[j], now)
                    } else {
                        old(s).tokens@[j]
                    })
                &&& final(s).next_entity_id == old(s).next_entity_id + 1
                &&& final(s).users@ == old(s).users@
                &&& final(s).user_presents@ == old(s).user_presents@
                &&& final(s).sessions@ == old(s).sessions@
                &&& final(s).user_cards@ == old(s).user_cards@
                &&& final(s).user_items@ == old(s).user_items@
                &&& final(s).user_login_bonuses@ == old(s).user_login_bonuses@
                &&& final(s).present_history@ == old(s).present_history@
                &&& masters_unchanged(*old(s), *final(s))
            }
        }),
{
    let gacha_master_list = collect_active_gachas(&s.gacha_masters, now);
    if gacha_master_list.is_empty() {
        return Ok((String::new(), Vec::new()));
    }

    let mut gacha_data_list: Vec<GachaData> = Vec::new();
    let n = gacha_master_list.len();
    let mut i: usize = 0;
    while i < n
        invariant
            0 <= i <= n,
            gacha_data_list@.len() == i,
            forall|k: int|
                0 <= k < i ==> (#[trigger] gacha_data_list@[k]).gacha
                    == gacha_master_list@[k],
            forall|k: int|
                0 <= k < i ==> {
                    &&& (#[trigger] gacha_data_list@[k].gacha_item)@.len() > 0
                    &&& sorted_by_id(gacha_data_list@[k].gacha_item@)
                    &&& gacha_data_list@[k].gacha_item@.to_multiset()
                        == s.gacha_item_masters@.filter(
                        p_pool(gacha_data_list@[k].gacha.id),
                    ).to_multiset()
                },
        decreases n - i,
    {
        let gacha = gacha_master_list[i].clone_row();
        let gacha_item = collect_pool(&s.gacha_item_masters, gacha.id);
        if gacha_item.is_empty() {
            // the failing banner witnesses an active banner without a pool
            proof {
                broadcast use vstd::seq_lib::group_to_multiset_ensures;

                let active = s.gacha_masters@.filter(p_active_gacha(now));
                let g = gacha_master_list@[i as int];
                assert(gacha_master_list@.contains(g));
                assert(gacha_master_list@.to_multiset().contains(g));
                assert(active.to_multiset().contains(g));
                assert(active.contains(g));
                let k = choose|k: int| 0 <= k < active.len() && active[k] == g;
                assert(s.gacha_item_masters@.filter(p_pool(active[k].id)).len() == 0);
            }
            return Err(Error::GachaItemNotFound);
        }
        gacha_data_list.push(GachaData { gacha, gacha_item });
        i = i + 1;
    }

    // invalidate any live token of the user and issue a fresh draw token
    tombstone_live_tokens_of_user(&mut s.tokens, user_id, now);
    let t_id = generate_id(s);
    let tk = generate_uuid();
    let token = UserOneTimeToken {
        id: t_id,
        user_id: user_id,
        token: tk,
        token_type: 1,
        created_at: now,
        updated_at: now,
        expired_at: now + 600,
        deleted_at: None,
    };
    let token_string = token.token.clone();
    s.tokens.push(token);

    proof {
        assert(gachas_of(gacha_data_list@) =~= gacha_master_list@);
    }
    Ok((token_string, gacha_data_list))
}

/// The banner rows of a listing.
pub open spec fn gachas_of(l: Seq<GachaData>) -> Seq<GachaMaster> {
    l.map(|k: int, d: GachaData| d.gacha)
}

/// A present row freshly minted from some entry of this banner's pool, under
/// this id, carrying a message that names the banner.
pub open spec fn drawn_from(
    p: UserPresent,
    rows: Seq<GachaItemMaster>,
    gacha_id: i64,
    user_id: i64,
    now: i64,
    id: i64,
    gacha_name: Seq<char>,
) -> bool {
    &&& exists|j: int|
        0 <= j < rows.len() && (#[trigger] rows[j]).gacha_id == gacha_id && p.item_type
            == rows[j].item_type && p.item_id == rows[j].item_id && p.amount == rows[j].amount
    &&& p.id == id
    &&& p.user_id == user_id
    &&& p.sent_at == now
    &&& p.created_at == now
    &&& p.updated_at == now
    &&& p.deleted_at is None
    &&& p.present_message@ == gacha_name + " gacha prize"@
}

/// Draw the gacha `gacha_count` times (one or ten): consume the draw token,
/// verify the device binding, charge a thousand coins per draw, and sample
/// the pool by cumulative weight once per draw. Every drawn item lands in the
/// present box; the draws and the balance update commit atomically.
#[verifier::loop_isolation(false)]
#[verifier::rlimit(60)]
pub fn draw_gacha(
    s: &mut GameState,
    user_id: i64,
    gacha_id: i64,
    gacha_count: i64,
    one_time_token: &String,
    viewer_id: &String,
    now: i64,
) -> (r: Result<Vec<UserPresent>, Error>)
    requires
        crate::state::masters_wf(*old(s)),
        old(s).next_entity_id + 10 <= i64::MAX,
        sum_weights(old(s).gacha_item_masters@.filter(p_pool(gacha_id))) <= i64::MAX,
    ensures
        // the draw-count gate comes before everything, the token stage next
        (gacha_count != 1 && gacha_count != 10) ==> r == Result::<Vec<UserPresent>, Error>::Err(
            Error::InvalidDrawCount,
        ) && *final(s) == *old(s),
        (gacha_count == 1 || gacha_count == 10) ==> exists|mid: GameState, tr: Result<(), Error>|
            {
                &&& #[trigger] token_check_rel(
                    *old(s),
                    mid,
                    one_time_token@,
                    crate::model::TOKEN_TYPE_GACHA,
                    now,
                    tr,
                )
                &&& final(s).tokens@ == mid.tokens@
                &&& tr matches Err(e) ==> r == Result::<Vec<UserPresent>, Error>::Err(e)
                    && draw_frame_unchanged(*old(s), *final(s))
                &&& tr is Ok ==> draw_checked_post(
                    *old(s),
                    *final(s),
                    user_id,
                    gacha_id,
                    gacha_count,
                    viewer_id@,
                    now,
                    r,
                )
            },
{
    if gacha_count != 1 && gacha_count != 10 {
        return Err(Error::InvalidDrawCount);
    }

    let token_result = check_one_time_token(s, one_time_token, 1, now);
    let ghost mid = *s;
    if let Err(e) = token_result {
        return Err(e);
    }

    if let Err(e) = check_viewer_id(s, user_id, viewer_id) {
        return Err(e);
    }

    let consumed_coin = gacha_count * 1000;

    // the user must exist and the balance must cover the draws
    let u = match find_user(&s.users, user_id) {
        Some(u) => u,
        None => {
            return Err(Error::UserNotFound);
        },
    };
    let user_coin = s.users[u].isu_coin;
    if user_coin < consumed_coin {
        return Err(Error::InsufficientCoin);
    }

    // the banner must be active now
    let g = match find_active_gacha(&s.gacha_masters, gacha_id, now) {
        Some(g) => g,
        None => {
            return Err(Error::GachaNotFound);
        },
    };
    let gacha_name = s.gacha_masters[g].name.clone();

    // the pool, in insertion-id order, must be non-empty
    let pool = collect_pool(&s.gacha_item_masters, gacha_id);
    if pool.is_empty() {
        return Err(Error::GachaItemNotFound);
    }
    proof {
        lemma_sorted_multiset_weights(pool@, s.gacha_item_masters@.filter(p_pool(gacha_id)));
        assert forall|j: int| 0 <= j < pool@.len() implies (#[trigger] pool@[j]).weight >= 1 by {
            lemma_pool_entry_in_table(
                pool@,
                s.gacha_item_masters@.filter(p_pool(gacha_id)),
                s.gacha_item_masters@,
                j,
                gacha_id,
            );
        }
    }
    let sum = total_weight(&pool);
    proof {
        assert(sum_weights(pool@) >= pool@[0].weight >= 1) by {
            lemma_cum_weight_monotonic(pool@, 1, pool@.len() as int);
            assert(pool@.take(1).drop_last() =~= Seq::<GachaItemMaster>::empty());
            assert(sum_weights(Seq::<GachaItemMaster>::empty()) == 0);
            assert(pool@.take(1).last() == pool@[0]);
            assert(cum_weight(pool@, 1) == pool@[0].weight);
            assert(pool@.take(pool@.len() as int) =~= pool@);
        }
    }

    // sample the roulette once per draw; each hit becomes a boxed present
    let ghost base_id = s.next_entity_id;
    let mut presents: Vec<UserPresent> = Vec::new();
    let count = gacha_count as usize;
    let mut d: usize = 0;
    while d < count
        invariant
            0 <= d <= count,
            presents@.len() == d,
            s.next_entity_id == base_id + d,
            base_id + count <= i64::MAX,
            forall|k: int|
                0 <= k < d ==> drawn_from(
                    #[trigger] presents@[k],
                    old(s).gacha_item_masters@,
                    gacha_id,
                    user_id,
                    now,
                    (base_id + k + 1) as i64,
                    gacha_name@,
                ),
            s.user_presents@ == mid.user_presents@ + presents@,
            s.users@ == mid.users@,
            s.tokens@ == mid.tokens@,
            s.sessions@ == mid.sessions@,
            s.admin_sessions@ == mid.admin_sessions@,
            s.user_devices@ == mid.user_devices@,
            s.user_bans@ == mid.user_bans@,
            s.user_cards@ == mid.user_cards@,
            s.user_decks@ == mid.user_decks@,
            s.user_items@ == mid.user_items@,
            s.user_login_bonuses@ == mid.user_login_bonuses@,
            s.present_history@ == mid.present_history@,
            s.admin_users@ == mid.admin_users@,
            masters_unchanged(mid, *s),
        decreases count - d,
    {
        let random = random_below(sum);
        let hit = pick_gacha_item(&pool, random);
        let p_id = generate_id(s);
        let mut message = gacha_name.clone();
        vstd::string::StringExecFns::append(&mut message, " gacha prize");
        let present = UserPresent {
            id: p_id,
            user_id: user_id,
            sent_at: now,
            item_type: pool[hit].item_type,
            item_id: pool[hit].item_id,
            amount: pool[hit].amount,
            present_message: message,
            created_at: now,
            updated_at: now,
            deleted_at: None,
        };
        proof {
            lemma_pool_entry_in_table(
                pool@,
                s.gacha_item_masters@.filter(p_pool(gacha_id)),
                s.gacha_item_masters@,
                hit as int,
                gacha_id,
            );
        }
        s.user_presents.push(present.clone_row());
        presents.push(present);
        d = d + 1;
    }

    // charge the balance read before the transaction
    let total_coin = user_coin - consumed_coin;
    s.users[u].isu_coin = total_coin;

    Ok(presents)
}

/// Everything except the token table is unchanged (an early failure after the
/// token stage).
pub open spec fn draw_frame_unchanged(pre: GameState, post: GameState) -> bool {
    &&& post.next_entity_id == pre.next_entity_id
    &&& post.users@ == pre.users@
    &&& post.user_devices@ == pre.user_devices@
    &&& post.user_bans@ == pre.user_bans@
    &&& post.sessions@ == pre.sessions@
    &&& post.admin_sessions@ == pre.admin_sessions@
    &&& post.user_cards@ == pre.user_cards@
    &&& post.user_decks@ == pre.user_decks@
    &&& post.user_items@ == pre.user_items@
    &&& post.user_login_bonuses@ == pre.user_login_bonuses@
    &&& post.user_presents@ == pre.user_presents@
    &&& post.present_history@ == pre.present_history@
    &&& post.admin_users@ == pre.admin_users@
    &&& masters_unchanged(pre, post)
}

/// What holds after the token stage passed: each later gate reports its exact
/// error with nothing further changed, and a full success appends one present
/// per draw under sequential ids and deducts the cost from the balance read
/// at admission.
pub open spec fn draw_checked_post(
    pre: GameState,
    post: GameState,
    user_id: i64,
    gacha_id: i64,
    gacha_count: i64,
    viewer_id: Seq<char>,
    now: i64,
    r: Result<Vec<UserPresent>, Error>,
) -> bool {
    let pool = pre.gacha_item_masters@.filter(p_pool(gacha_id));
    if !device_bound(pre.user_devices@, user_id, viewer_id) {
        r == Result::<Vec<UserPresent>, Error>::Err(Error::UserDeviceNotFound)
            && draw_frame_unchanged(pre, post)
    } else if first_idx(pre.users@, p_user(user_id)) is None {
        r == Result::<Vec<UserPresent>, Error>::Err(Error::UserNotFound) && draw_frame_unchanged(
            pre,
            post,
        )
    } else {
        let u = first_idx(pre.users@, p_user(user_id))->0;
        let balance = pre.users@[u].isu_coin;
        if balance < gacha_count * 1000 {
            r == Result::<Vec<UserPresent>, Error>::Err(Error::InsufficientCoin)
                && draw_frame_unchanged(pre, post)
        } else if first_idx(pre.gacha_masters@, p_gacha(gacha_id, now)) is None {
            r == Result::<Vec<UserPresent>, Error>::Err(Error::GachaNotFound)
                && draw_frame_unchanged(pre, post)
        } else if pool.len() == 0 {
            r == Result::<Vec<UserPresent>, Error>::Err(Error::GachaItemNotFound)
                && draw_frame_unchanged(pre, post)
        } else {
            let g = first_idx(pre.gacha_masters@, p_gacha(gacha_id, now))->0;
            let name = pre.gacha_masters@[g].name@;
            &&& (r matches Ok(v) && {
                &&& v@.len() == gacha_count
                &&& forall|k: int|
                    0 <= k < v@.len() ==> drawn_from(
                        #[trigger] v@[k],
                        pre.gacha_item_masters@,
                        gacha_id,
                        user_id,
                        now,
                        (pre.next_entity_id + k + 1) as i64,
                        name,
                    )
                &&& post.user_presents@ == pre.user_presents@ + v@
            })
            &&& post.users@ == pre.users@.update(
                u,
                crate::model::User { isu_coin: (balance - gacha_count * 1000) as i64, ..pre.users@[u] },
            )
            &&& post.next_entity_id == pre.next_entity_id + gacha_count
            &&& post.user_cards@ == pre.user_cards@
            &&& post.user_items@ == pre.user_items@
            &&& post.user_decks@ == pre.user_decks@
            &&& post.user_login_bonuses@ == pre.user_login_bonuses@
            &&& post.present_history@ == pre.present_history@
            &&& post.sessions@ == pre.sessions@
            &&& post.user_devices@ == pre.user_devices@
            &&& post.user_bans@ == pre.user_bans@
            &&& post.admin_users@ == pre.admin_users@
            &&& masters_unchanged(pre, post)
        }
    }
}

/// Two sequences with the same multiset have the same summed weight.
proof fn lemma_sorted_multiset_weights(a: Seq<GachaItemMaster>, b: Seq<GachaItemMaster>)
    requires
        a.to_multiset() == b.to_multiset(),
    ensures
        sum_weights(a) == sum_weights(b),
    decreases a.len(),
{
    broadcast use vstd::seq_lib::group_to_multiset_ensures;

    if a.len() == 0 {
        assert(b.to_multiset().len() == 0);
        assert(b.len() == 0);
    } else {
        let x = a.last();
        assert(a.to_multiset().contains(x)) by {
            assert(a.contains(x));
        }
        assert(b.to_multiset().contains(x));
        assert(b.contains(x));
        let j = choose|j: int| 0 <= j < b.len() && b[j] == x;
        let b2 = b.remove(j);
        assert(a.drop_last().to_multiset() =~= b2.to_multiset()) by {
            assert(a.drop_last().push(x) =~= a);
            assert(a.drop_last().push(x).to_multiset() =~= a.drop_last().to_multiset().insert(x));
            assert(b.remove(j).to_multiset() =~= b.to_multiset().remove(x));
            assert forall|y: GachaItemMaster|
                a.drop_last().to_multiset().count(y) == b2.to_multiset().count(y) by {
                if y == x {
                    assert(a.to_multiset().count(x) == a.drop_last().to_multiset().count(x) + 1);
                } else {
                    assert(a.to_multiset().count(y) == a.drop_last().to_multiset().count(y));
                }
            }
        }
        lemma_sorted_multiset_weights(a.drop_last(), b2);
        lemma_sum_weights_remove(b, j);
    }
}

/// Removing an entry removes exactly its weight from the sum.
proof fn lemma_sum_weights_remove(s: Seq<GachaItemMaster>, j: int)
    requires
        0 <= j < s.len(),
    ensures
        sum_weights(s.remove(j)) == sum_weights(s) - s[j].weight,
    decreases s.len(),
{
    if j == s.len() - 1 {
        assert(s.remove(j) =~= s.drop_last());
    } else {
        lemma_sum_weights_remove(s.drop_last(), j);
        assert(s.remove(j).drop_last() =~= s.drop_last().remove(j));
        assert(s.remove(j).last() == s.last());
    }
}

/// Every entry of the sorted pool stands somewhere in the master table with
/// this banner id.
proof fn lemma_pool_entry_in_table(
    pool: Seq<GachaItemMaster>,
    filtered: Seq<GachaItemMaster>,
    rows: Seq<GachaItemMaster>,
    k: int,
    gacha_id: i64,
)
    requires
        0 <= k < pool.len(),
        pool.to_multiset() == filtered.to_multiset(),
        filtered == rows.filter(p_pool(gacha_id)),
    ensures
        exists|j: int|
            0 <= j < rows.len() && (#[trigger] rows[j]).gacha_id == gacha_id && rows[j]
                == pool[k],
{
    broadcast use vstd::seq_lib::group_to_multiset_ensures;

    let x = pool[k];
    assert(pool.contains(x));
    assert(pool.to_multiset().contains(x));
    assert(filtered.to_multiset().contains(x));
    assert(filtered.contains(x));
    let fj = choose|fj: int| 0 <= fj < filtered.len() && filtered[fj] == x;
    rows.lemma_filter_pred(p_pool(gacha_id), fj);
    assert(p_pool(gacha_id)(x));
    rows.lemma_filter_contains_rev(p_pool(gacha_id), x);
    assert(rows.contains(x));
    let j = choose|j: int| 0 <= j < rows.len() && rows[j] == x;
    assert(rows[j].gacha_id == gacha_id);
}

} // verus!
