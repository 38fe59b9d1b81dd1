//! The present distribution engine: broadcast fan-out into the receive box,
//! guarded against double grants by the history table, and client-invoked
//! receipt that tombstones box rows and applies their payloads.
use vstd::prelude::*;

use crate::Error;
use crate::model::PresentAllMaster;
use crate::model::UserPresent;
use crate::model::UserPresentAllReceivedHistory;
use crate::state::GameState;
use crate::state::find_item_master;
use crate::state::find_user;
use crate::state::generate_id;
use crate::state::history_exists;
use crate::state::lemma_first_idx_pointwise;
use crate::state::masters_unchanged;
use crate::state::masters_wf;
use crate::state::p_live_history;
use crate::state::p_user;
use crate::grant::GrantView;
use crate::grant::grant_error;
use crate::grant::grant_valid;
use crate::grant::grant_view;
use crate::grant::obtain_item;
use crate::grant::sp_grant;
use crate::admission::check_viewer_id;
use crate::admission::device_bound;

verus! {

/// A broadcast present whose registration window contains `now`.
pub open spec fn present_master_active(m: PresentAllMaster, now: i64) -> bool {
    m.registered_start_at <= now && m.registered_end_at >= now
}

/// A live history row marks this broadcast present as already granted.
pub open spec fn has_live_history(
    history: Seq<UserPresentAllReceivedHistory>,
    user_id: i64,
    present_all_id: i64,
) -> bool {
    exists|j: int|
        0 <= j < history.len() && #[trigger] p_live_history(user_id, present_all_id)(history[j])
}

/// The box row minted from a broadcast present definition.
pub open spec fn present_from_master(id: i64, user_id: i64, m: PresentAllMaster, now: i64) -> UserPresent {
    UserPresent {
        id: id,
        user_id: user_id,
        sent_at: now,
        item_type: m.item_type,
        item_id: m.item_id,
        amount: m.amount,
        present_message: m.present_message,
        created_at: now,
        updated_at: now,
        deleted_at: None,
    }
}

/// The idempotency-guard row for one granted broadcast present.
pub open spec fn history_from_master(id: i64, user_id: i64, present_all_id: i64, now: i64) -> UserPresentAllReceivedHistory {
    UserPresentAllReceivedHistory {
        id: id,
        user_id: user_id,
        present_all_id: present_all_id,
        received_at: now,
        created_at: now,
        updated_at: now,
        deleted_at: None,
    }
}

/// The tables broadcast fan-out touches, as one ghost value.
pub ghost struct PresentFold {
    pub presents: Seq<UserPresent>,
    pub history: Seq<UserPresentAllReceivedHistory>,
    pub granted: Seq<UserPresent>,
    pub next_id: int,
}

/// Broadcast fan-out over the masters in table order: each active definition
/// without a live history row mints a box row and a history row under two
/// fresh ids; covered or inactive definitions change nothing.
pub open spec fn sp_obtain_present(
    masters: Seq<PresentAllMaster>,
    init: PresentFold,
    user_id: i64,
    now: i64,
) -> PresentFold
    decreases masters.len(),
{
    if masters.len() == 0 {
        init
    } else {
        let prev = sp_obtain_present(masters.drop_last(), init, user_id, now);
        let m = masters.last();
        if present_master_active(m, now) && !has_live_history(prev.history, user_id, m.id) {
            let up = present_from_master((prev.next_id + 1) as i64, user_id, m, now);
            let h = history_from_master((prev.next_id + 2) as i64, user_id, m.id, now);
            PresentFold {
                presents: prev.presents.push(up),
                history: prev.history.push(h),
                granted: prev.granted.push(up),
                next_id: prev.next_id + 2,
            }
        } else {
            prev
        }
    }
}

/// The fold state a store holds.
pub open spec fn present_fold_of(s: GameState) -> PresentFold {
    PresentFold {
        presents: s.user_presents@,
        history: s.present_history@,
        granted: Seq::empty(),
        next_id: s.next_entity_id as int,
    }
}

/// Broadcast fan-out: for every active broadcast definition not yet granted
/// to the user, put the present in the receive box and record the history
/// row, both under fresh ids, and return the newly boxed presents.
#[verifier::loop_isolation(false)]
pub fn obtain_present(s: &mut GameState, user_id: i64, now: i64) -> (r: Vec<UserPresent>)
    requires
        old(s).next_entity_id + 2 * old(s).present_all_masters@.len() <= i64::MAX,
    ensures
        ({
            let f = sp_obtain_present(
                old(s).present_all_masters@,
                present_fold_of(*old(s)),
                user_id,
                now,
            );
            &&& final(s).user_presents@ == f.presents
            &&& final(s).present_history@ == f.history
            &&& final(s).next_entity_id == f.next_id
            &&& r@ == f.granted
        }),
        old(s).next_entity_id <= final(s).next_entity_id <= old(s).next_entity_id + 2 * old(
            s,
        ).present_all_masters@.len(),
        final(s).users@ == old(s).users@,
        final(s).user_devices@ == old(s).user_devices@,
        final(s).user_bans@ == old(s).user_bans@,
        final(s).sessions@ == old(s).sessions@,
        final(s).admin_sessions@ == old(s).admin_sessions@,
        final(s).tokens@ == old(s).tokens@,
        final(s).user_cards@ == old(s).user_cards@,
        final(s).user_decks@ == old(s).user_decks@,
        final(s).user_items@ == old(s).user_items@,
        final(s).user_login_bonuses@ == old(s).user_login_bonuses@,
        final(s).admin_users@ == old(s).admin_users@,
        masters_unchanged(*old(s), *final(s)),
{
    let ghost masters = s.present_all_masters@;
    let ghost init = present_fold_of(*s);
    let mut obtain_presents: Vec<UserPresent> = Vec::new();
    let n = s.present_all_masters.len();
    let mut i: usize = 0;
    proof {
        assert(masters.take(0) =~= Seq::<PresentAllMaster>::empty());
    }
    while i < n
        invariant
            0 <= i <= n,
            ({
                let f = sp_obtain_present(masters.take(i as int), init, user_id, now);
                &&& s.user_presents@ == f.presents
                &&& s.present_history@ == f.history
                &&& s.next_entity_id == f.next_id
                &&& obtain_presents@ == f.granted
                &&& init.next_id <= f.next_id <= init.next_id + 2 * i
            }),
            s.users@ == old(s).users@,
            s.user_devices@ == old(s).user_devices@,
            s.user_bans@ == old(s).user_bans@,
            s.sessions@ == old(s).sessions@,
            s.admin_sessions@ == old(s).admin_sessions@,
            s.tokens@ == old(s).tokens@,
            s.user_cards@ == old(s).user_cards@,
            s.user_decks@ == old(s).user_decks@,
            s.user_items@ == old(s).user_items@,
            s.user_login_bonuses@ == old(s).user_login_bonuses@,
            s.admin_users@ == old(s).admin_users@,
            masters_unchanged(*old(s), *s),
        decreases n - i,
    {
        proof {
            assert(masters.take(i as int + 1).drop_last() =~= masters.take(i as int));
            assert(masters.take(i as int + 1).last() == masters[i as int]);
        }
        let np = &s.present_all_masters[i];
        let active = np.registered_start_at <= now && np.registered_end_at >= now;
        if active {
            let np_id = np.id;
            if !history_exists(&s.present_history, user_id, np_id) {
                let np_row = s.present_all_masters[i].clone_row();
                let p_id = generate_id(s);
                let up = UserPresent {
                    id: p_id,
                    user_id: user_id,
                    sent_at: now,
                    item_type: np_row.item_type,
                    item_id: np_row.item_id,
                    amount: np_row.amount,
                    present_message: np_row.present_message,
                    created_at: now,
                    updated_at: now,
                    deleted_at: None,
                };
                s.user_presents.push(up.clone_row());
                let ph_id = generate_id(s);
                let history = UserPresentAllReceivedHistory {
                    id: ph_id,
                    user_id: user_id,
                    present_all_id: np_id,
                    received_at: now,
                    created_at: now,
                    updated_at: now,
                    deleted_at: None,
                };
                s.present_history.push(history);
                obtain_presents.push(up);
            }
        }
        i = i + 1;
    }
    proof {
        assert(masters.take(n as int) =~= masters);
    }
    obtain_presents
}

/// An uncovered active broadcast definition is granted exactly once: at its
/// turn, the fold mints one box row and one history row from it, under the
/// next two fresh ids, and the box row joins the granted list.
pub proof fn lemma_fold_grants_uncovered(
    masters: Seq<PresentAllMaster>,
    init: PresentFold,
    user_id: i64,
    now: i64,
    k: int,
)
    requires
        0 <= k < masters.len(),
        present_master_active(masters[k], now),
        !has_live_history(
            sp_obtain_present(masters.take(k), init, user_id, now).history,
            user_id,
            masters[k].id,
        ),
    ensures
        ({
            let prev = sp_obtain_present(masters.take(k), init, user_id, now);
            let up = present_from_master((prev.next_id + 1) as i64, user_id, masters[k], now);
            let h = history_from_master((prev.next_id + 2) as i64, user_id, masters[k].id, now);
            sp_obtain_present(masters.take(k + 1), init, user_id, now) == (PresentFold {
                presents: prev.presents.push(up),
                history: prev.history.push(h),
                granted: prev.granted.push(up),
                next_id: prev.next_id + 2,
            })
        }),
{
    assert(masters.take(k + 1).drop_last() =~= masters.take(k));
    assert(masters.take(k + 1).last() == masters[k]);
}

/// After fan-out, every active broadcast definition is covered by a live
/// history row.
pub proof fn lemma_fold_covers(
    masters: Seq<PresentAllMaster>,
    init: PresentFold,
    user_id: i64,
    now: i64,
    k: int,
)
    requires
        0 <= k < masters.len(),
        present_master_active(masters[k], now),
    ensures
        has_live_history(sp_obtain_present(masters, init, user_id, now).history, user_id, masters[k].id),
    decreases masters.len(),
{
    let f = sp_obtain_present(masters, init, user_id, now);
    let prev = sp_obtain_present(masters.drop_last(), init, user_id, now);
    if k == masters.len() - 1 {
        if has_live_history(prev.history, user_id, masters[k].id) {
            let j = choose|j: int|
                0 <= j < prev.history.len() && #[trigger] p_live_history(user_id, masters[k].id)(
                    prev.history[j],
                );
            lemma_step_history_extends(masters, init, user_id, now);
            assert(p_live_history(user_id, masters[k].id)(f.history[j]));
        } else {
            let h = history_from_master((prev.next_id + 2) as i64, user_id, masters[k].id, now);
            assert(f.history.last() == h);
            assert(p_live_history(user_id, masters[k].id)(h));
        }
    } else {
        lemma_fold_covers(masters.drop_last(), init, user_id, now, k);
        let j = choose|j: int|
            0 <= j < prev.history.len() && #[trigger] p_live_history(user_id, masters[k].id)(
                prev.history[j],
            );
        lemma_step_history_extends(masters, init, user_id, now);
        assert(p_live_history(user_id, masters[k].id)(f.history[j]));
    }
}

/// One fold step keeps every earlier history row in place.
proof fn lemma_step_history_extends(
    masters: Seq<PresentAllMaster>,
    init: PresentFold,
    user_id: i64,
    now: i64,
)
    requires
        masters.len() > 0,
    ensures
        ({
            let prev = sp_obtain_present(masters.drop_last(), init, user_id, now);
            let f = sp_obtain_present(masters, init, user_id, now);
            &&& prev.history.len() <= f.history.len()
            &&& forall|j: int| 0 <= j < prev.history.len() ==> f.history[j] == prev.history[j]
        }),
{
}

/// Idempotent broadcast: once fan-out has run, running it again — at any
/// time at which no broadcast window is active that was not already active
/// the first time — grants nothing and leaves the box, the history and the
/// counter exactly as they were.
pub proof fn lemma_obtain_present_idempotent(
    masters: Seq<PresentAllMaster>,
    init: PresentFold,
    user_id: i64,
    now: i64,
    now2: i64,
)
    requires
        forall|k: int|
            0 <= k < masters.len() && present_master_active(#[trigger] masters[k], now2)
                ==> present_master_active(masters[k], now),
    ensures
        ({
            let f1 = sp_obtain_present(masters, init, user_id, now);
            let again = PresentFold {
                presents: f1.presents,
                history: f1.history,
                granted: Seq::empty(),
                next_id: f1.next_id,
            };
            let f2 = sp_obtain_present(masters, again, user_id, now2);
            &&& f2.granted.len() == 0
            &&& f2.presents == f1.presents
            &&& f2.history == f1.history
            &&& f2.next_id == f1.next_id
        }),
{
    let f1 = sp_obtain_present(masters, init, user_id, now);
    let again = PresentFold {
        presents: f1.presents,
        history: f1.history,
        granted: Seq::<UserPresent>::empty(),
        next_id: f1.next_id,
    };
    assert forall|k: int|
        0 <= k < masters.len() && present_master_active(#[trigger] masters[k], now2) implies has_live_history(
        again.history,
        user_id,
        masters[k].id,
    ) by {
        lemma_fold_covers(masters, init, user_id, now, k);
    }
    lemma_fold_noop(masters, again, user_id, now2);
}

/// Fan-out from a state whose history already covers every active definition
/// is a no-op.
proof fn lemma_fold_noop(
    masters: Seq<PresentAllMaster>,
    init: PresentFold,
    user_id: i64,
    now: i64,
)
    requires
        forall|k: int|
            0 <= k < masters.len() && present_master_active(#[trigger] masters[k], now)
                ==> has_live_history(init.history, user_id, masters[k].id),
    ensures
        sp_obtain_present(masters, init, user_id, now) == init,
    decreases masters.len(),
{
    if masters.len() > 0 {
        assert(forall|k: int|
            0 <= k < masters.drop_last().len() ==> masters.drop_last()[k] == masters[k]);
        lemma_fold_noop(masters.drop_last(), init, user_id, now);
    }
}

/// A box row this receipt request names and that is still live.
pub open spec fn p_receivable(ids: Seq<i64>) -> spec_fn(UserPresent) -> bool {
    |x: UserPresent| x.deleted_at is None && ids.contains(x.id)
}

/// Whether the request names this id.
fn contains_id(ids: &Vec<i64>, id: i64) -> (r: bool)
    ensures
        r == ids@.contains(id),
{
    let n = ids.len();
    let mut i: usize = 0;
    while i < n
        invariant
            0 <= i <= n,
            n == ids@.len(),
            forall|j: int| 0 <= j < i ==> ids@[j] != id,
        decreases n - i,
    {
        if ids[i] == id {
            return true;
        }
        i = i + 1;
    }
    false
}

/// The live box rows the request names, in table order.
#[verifier::loop_isolation(false)]
fn collect_receivable(rows: &Vec<UserPresent>, ids: &Vec<i64>) -> (r: Vec<UserPresent>)
    ensures
        r@ == rows@.filter(p_receivable(ids@)),
{
    proof {
        reveal(Seq::filter);
    }
    let n = rows.len();
    let mut r: Vec<UserPresent> = Vec::new();
    proof {
        assert(rows@.take(0) =~= Seq::<UserPresent>::empty());
        assert(rows@.take(0).filter(p_receivable(ids@)) =~= Seq::<UserPresent>::empty());
    }
    let mut i: usize = 0;
    while i < n
        invariant
            0 <= i <= n,
            r@ == rows@.take(i as int).filter(p_receivable(ids@)),
        decreases n - i,
    {
        proof {
            reveal(Seq::filter);
            assert(rows@.take(i as int + 1).drop_last() =~= rows@.take(i as int));
            assert(rows@.take(i as int + 1).last() == rows@[i as int]);
        }
        if rows[i].deleted_at.is_none() && contains_id(ids, rows[i].id) {
            r.push(rows[i].clone_row());
        }
        i = i + 1;
    }
    proof {
        assert(rows@.take(n as int) =~= rows@);
    }
    r
}

/// A box row after its receipt: tombstoned, with its update stamp.
pub open spec fn received_row(x: UserPresent, now: i64) -> UserPresent {
    UserPresent { deleted_at: Some(now), updated_at: now, ..x }
}

/// One receipt write: every box row with the received row's id is tombstoned.
pub open spec fn sp_present_write(table: Seq<UserPresent>, present_id: i64, now: i64) -> Seq<
    UserPresent,
> {
    table.map(|j: int, x: UserPresent| if x.id == present_id {
        received_row(x, now)
    } else {
        x
    })
}

/// Stamp the receipt on every box row with this id.
fn tombstone_present_rows(rows: &mut Vec<UserPresent>, present_id: i64, now: i64)
    ensures
        final(rows)@ == sp_present_write(old(rows)@, present_id, now),
{
    let n = rows.len();
    let mut i: usize = 0;
    while i < n
        invariant
            n == rows@.len(),
            0 <= i <= n,
            forall|j: int|
                0 <= j < i ==> rows@[j] == (if old(rows)@[j].id == present_id {
                    received_row(old(rows)@[j], now)
                } else {
                    old(rows)@[j]
                }),
            forall|j: int| i <= j < n ==> rows@[j] == old(rows)@[j],
        decreases n - i,
    {
        if rows[i].id == present_id {
            rows[i].deleted_at = Some(now);
            rows[i].updated_at = now;
        }
        i = i + 1;
    }
    proof {
        assert(rows@ =~= sp_present_write(old(rows)@, present_id, now));
    }
}

/// The tables one receipt pass threads: the box and the grant view.
pub ghost struct ReceiveFold {
    pub presents: Seq<UserPresent>,
    pub g: GrantView,
}

/// Receipt over the found rows in fetch order: each is tombstoned and its
/// payload granted.
pub open spec fn sp_receive(
    found: Seq<UserPresent>,
    init: ReceiveFold,
    masters: Seq<crate::model::ItemMaster>,
    now: i64,
) -> ReceiveFold
    decreases found.len(),
{
    if found.len() == 0 {
        init
    } else {
        let prev = sp_receive(found.drop_last(), init, masters, now);
        let v = found.last();
        ReceiveFold {
            presents: sp_present_write(prev.presents, v.id, now),
            g: sp_grant(prev.g, masters, v.user_id, v.item_type, v.item_id, v.amount, now),
        }
    }
}

/// One receipt entry is grantable on this state.
pub open spec fn receive_entry_valid(
    users: Seq<crate::model::User>,
    masters: Seq<crate::model::ItemMaster>,
    v: UserPresent,
) -> bool {
    grant_valid(users, masters, v.user_id, v.item_type, v.item_id)
}

/// Receive presents from the box: tombstone each named live row and apply
/// its payload through the grant engine, all in one transaction. Ids that
/// resolve to no live row are ignored; if none resolves, the call succeeds
/// and grants nothing.
#[verifier::loop_isolation(false)]
#[verifier::rlimit(60)]
pub fn receive_present(
    s: &mut GameState,
    user_id: i64,
    present_ids: &Vec<i64>,
    viewer_id: &String,
    now: i64,
) -> (r: Result<Vec<UserPresent>, Error>)
    requires
        masters_wf(*old(s)),
        old(s).next_entity_id + old(s).user_presents@.len() < i64::MAX,
    ensures
        present_ids@.len() == 0 ==> r == Result::<Vec<UserPresent>, Error>::Err(
            Error::EmptyPresentIds,
        ) && *final(s) == *old(s),
        present_ids@.len() > 0 && !device_bound(old(s).user_devices@, user_id, viewer_id@) ==> r
            == Result::<Vec<UserPresent>, Error>::Err(Error::UserDeviceNotFound) && *final(s)
            == *old(s),
        present_ids@.len() > 0 && device_bound(old(s).user_devices@, user_id, viewer_id@) ==> ({
            let found = old(s).user_presents@.filter(p_receivable(present_ids@));
            &&& found.len() == 0 ==> (r matches Ok(v) && v@.len() == 0 && *final(s) == *old(s))
            &&& (found.len() > 0 && (exists|k: int|
                0 <= k < found.len() && !receive_entry_valid(
                    old(s).users@,
                    old(s).item_masters@,
                    #[trigger] found[k],
                ))) ==> (exists|k: int|
                #![trigger found[k]]
                {
                    &&& 0 <= k < found.len()
                    &&& !receive_entry_valid(old(s).users@, old(s).item_masters@, found[k])
                    &&& (forall|j: int|
                        0 <= j < k ==> receive_entry_valid(
                            old(s).users@,
                            old(s).item_masters@,
                            found[j],
                        ))
                    &&& r == Result::<Vec<UserPresent>, Error>::Err(
                        grant_error(found[k].item_type),
                    )
                    &&& *final(s) == *old(s)
                })
            &&& (found.len() > 0 && (forall|k: int|
                0 <= k < found.len() ==> receive_entry_valid(
                    old(s).users@,
                    old(s).item_masters@,
                    #[trigger] found[k],
                ))) ==> ({
                let f = sp_receive(
                    found,
                    ReceiveFold { presents: old(s).user_presents@, g: grant_view(*old(s)) },
                    old(s).item_masters@,
                    now,
                );
                &&& r matches Ok(v) && v@ == Seq::new(
                    found.len(),
                    |k: int| received_row(found[k], now),
                )
                &&& final(s).user_presents@ == f.presents
                &&& grant_view(*final(s)) == f.g
                &&& final(s).user_devices@ == old(s).user_devices@
                &&& final(s).user_bans@ == old(s).user_bans@
                &&& final(s).sessions@ == old(s).sessions@
                &&& final(s).admin_sessions@ == old(s).admin_sessions@
                &&& final(s).tokens@ == old(s).tokens@
                &&& final(s).user_decks@ == old(s).user_decks@
                &&& final(s).user_login_bonuses@ == old(s).user_login_bonuses@
                &&& final(s).present_history@ == old(s).present_history@
                &&& final(s).admin_users@ == old(s).admin_users@
                &&& masters_unchanged(*old(s), *final(s))
            })
        }),
{
    broadcast use vstd::seq_lib::group_filter_ensures;

    if present_ids.is_empty() {
        return Err(Error::EmptyPresentIds);
    }

    if let Err(e) = check_viewer_id(s, user_id, viewer_id) {
        return Err(e);
    }

    // the live box rows the request names
    let found = collect_receivable(&s.user_presents, present_ids);
    if found.is_empty() {
        return Ok(Vec::new());
    }

    let ghost found_seq = found@;
    let ghost pre_users = s.users@;
    let ghost masters = s.item_masters@;

    // validate every payload before the first write: the transaction either
    // applies in full or not at all
    let nf = found.len();
    let mut k: usize = 0;
    while k < nf
        invariant
            0 <= k <= nf,
            forall|j: int|
                0 <= j < k ==> receive_entry_valid(pre_users, masters, #[trigger] found_seq[j]),
        decreases nf - k,
    {
        let v = &found[k];
        if v.item_type == 1 {
            if find_user(&s.users, v.user_id).is_none() {
                return Err(Error::UserNotFound);
            }
        } else if v.item_type == 2 || v.item_type == 3 || v.item_type == 4 {
            if find_item_master(&s.item_masters, v.item_id, v.item_type).is_none() {
                return Err(Error::ItemNotFound);
            }
        } else {
            return Err(Error::InvalidItemType);
        }
        proof {
            assert(receive_entry_valid(pre_users, masters, found_seq[k as int]));
        }
        k = k + 1;
    }

    // apply: tombstone each row and grant its payload, in fetch order
    let ghost init = ReceiveFold { presents: s.user_presents@, g: grant_view(*s) };
    let ghost base_next = s.next_entity_id;
    let mut received: Vec<UserPresent> = Vec::new();
    proof {
        assert(found_seq.take(0) =~= Seq::<UserPresent>::empty());
    }
    let mut k2: usize = 0;
    while k2 < nf
        invariant
            0 <= k2 <= nf,
            received@.len() == k2,
            forall|j: int| 0 <= j < k2 ==> received@[j] == received_row(found_seq[j], now),
            ({
                let f = sp_receive(found_seq.take(k2 as int), init, masters, now);
                &&& s.user_presents@ == f.presents
                &&& grant_view(*s) == f.g
                &&& f.g.next_id <= base_next + k2
            }),
            forall|j: int|
                0 <= j < found_seq.len() ==> receive_entry_valid(
                    s.users@,
                    masters,
                    #[trigger] found_seq[j],
                ),
            s.users@.len() == pre_users.len(),
            s.user_devices@ == old(s).user_devices@,
            s.user_bans@ == old(s).user_bans@,
            s.sessions@ == old(s).sessions@,
            s.admin_sessions@ == old(s).admin_sessions@,
            s.tokens@ == old(s).tokens@,
            s.user_decks@ == old(s).user_decks@,
            s.user_login_bonuses@ == old(s).user_login_bonuses@,
            s.present_history@ == old(s).present_history@,
            s.admin_users@ == old(s).admin_users@,
            masters_unchanged(*old(s), *s),
        decreases nf - k2,
    {
        proof {
            assert(found_seq.take(k2 as int + 1).drop_last() =~= found_seq.take(k2 as int));
            assert(found_seq.take(k2 as int + 1).last() == found_seq[k2 as int]);
        }
        let v = &found[k2];
        if v.deleted_at.is_some() {
            // the fetch returned live rows only; a tombstone here would be a
            // mid-transaction inconsistency
            proof {
                old(s).user_presents@.lemma_filter_pred(p_receivable(present_ids@), k2 as int);
                assert(false);
            }
            return Err(Error::PresentAlreadyReceived);
        }
        let v_id = v.id;
        let v_user = v.user_id;
        let v_item_type = v.item_type;
        let v_item_id = v.item_id;
        let v_amount = v.amount;
        tombstone_present_rows(&mut s.user_presents, v_id, now);
        let ghost users_before = s.users@;
        let grant_result = obtain_item(s, v_user, v_item_id, v_item_type, v_amount, now);
        proof {
            if grant_result is Err {
                assert(grant_valid(users_before, masters, v_user, v_item_type, v_item_id));
                assert(false);
            }
            // grants keep every user row's id, so validity of the remaining
            // entries carries over
            assert forall|j: int|
                0 <= j < found_seq.len() implies receive_entry_valid(
                s.users@,
                masters,
                #[trigger] found_seq[j],
            ) by {
                assert(s.users@.len() == users_before.len());
                if found_seq[j].item_type == 1 {
                    lemma_first_idx_pointwise(
                        users_before,
                        s.users@,
                        p_user(found_seq[j].user_id),
                    );
                }
            }
        }
        let mut row = found[k2].clone_row();
        row.updated_at = now;
        row.deleted_at = Some(now);
        received.push(row);
        k2 = k2 + 1;
    }
    proof {
        assert(found_seq.take(nf as int) =~= found_seq);
        assert(received@ =~= Seq::new(found_seq.len(), |k: int| received_row(found_seq[k], now)));
    }
    Ok(received)
}

/// Box listing page size.
pub const PRESENT_COUNT_PER_PAGE: i64 = 100;

/// A live box row of this user.
pub open spec fn p_live_present_of(user_id: i64) -> spec_fn(UserPresent) -> bool {
    |x: UserPresent| x.user_id == user_id && x.deleted_at is None
}

/// Listing order: newest first, ties by ascending id.
pub open spec fn present_order_le(a: UserPresent, b: UserPresent) -> bool {
    a.created_at > b.created_at || (a.created_at == b.created_at && a.id <= b.id)
}

pub open spec fn sorted_presents(s: Seq<UserPresent>) -> bool {
    forall|p: int, q: int| 0 <= p < q < s.len() ==> present_order_le(s[p], s[q])
}

/// All live box rows of the user, newest first.
#[verifier::loop_isolation(false)]
fn collect_presents_sorted(rows: &Vec<UserPresent>, user_id: i64) -> (r: Vec<UserPresent>)
    ensures
        sorted_presents(r@),
        r@.to_multiset() == rows@.filter(p_live_present_of(user_id)).to_multiset(),
        r@.len() == rows@.filter(p_live_present_of(user_id)).len(),
{
    broadcast use vstd::seq_lib::group_to_multiset_ensures;

    proof {
        reveal(Seq::filter);
    }
    let n = rows.len();
    let mut r: Vec<UserPresent> = Vec::new();
    proof {
        assert(rows@.take(0) =~= Seq::<UserPresent>::empty());
        assert(rows@.take(0).filter(p_live_present_of(user_id)) =~= Seq::<UserPresent>::empty());
    }
    let mut i: usize = 0;
    while i < n
        invariant
            0 <= i <= n,
            sorted_presents(r@),
            r@.to_multiset() == rows@.take(i as int).filter(p_live_present_of(user_id)).to_multiset(),
            r@.len() == rows@.take(i as int).filter(p_live_present_of(user_id)).len(),
        decreases n - i,
    {
        proof {
            assert(rows@.take(i as int + 1).drop_last() =~= rows@.take(i as int));
            assert(rows@.take(i as int + 1).last() == rows@[i as int]);
        }
        if rows[i].user_id == user_id && rows[i].deleted_at.is_none() {
            let x = rows[i].clone_row();
            let m = r.len();
            let mut p: usize = 0;
            while p < m
                invariant
                    0 <= p <= m,
                    m == r@.len(),
                    forall|q: int| 0 <= q < p ==> present_order_le(r@[q], x),
                decreases m - p,
            {
                if !(r[p].created_at > x.created_at || (r[p].created_at == x.created_at && r[p].id
                    <= x.id)) {
                    break ;
                }
                p = p + 1;
            }
            let ghost r0 = r@;
            proof {
                crate::gacha::lemma_insert_to_multiset(r@, p as int, x);
            }
            r.insert(p, x);
            proof {
                reveal(Seq::filter);
                assert(rows@.take(i as int + 1).filter(p_live_present_of(user_id)) == rows@.take(
                    i as int,
                ).filter(p_live_present_of(user_id)).push(x));
                assert forall|a: int, b: int|
                    0 <= a < b < r@.len() implies present_order_le(r@[a], r@[b]) by {
                    if a == p as int {
                        assert(present_order_le(x, r0[p as int]));
                        if b - 1 > p as int {
                            assert(present_order_le(r0[p as int], r0[b - 1]));
                        }
                        assert(present_order_le(x, r0[b - 1]));
                    } else if b == p as int {
                        assert(present_order_le(r0[a], x));
                    }
                }
            }
        } else {
            proof {
                reveal(Seq::filter);
                assert(rows@.take(i as int + 1).filter(p_live_present_of(user_id)) == rows@.take(
                    i as int,
                ).filter(p_live_present_of(user_id)));
            }
        }
        i = i + 1;
    }
    proof {
        assert(rows@.take(n as int) =~= rows@);
    }
    r
}

/// One page of the receive box, newest first, plus whether a further page
/// exists. Page numbers start at one; page zero is rejected.
#[verifier::loop_isolation(false)]
pub fn list_present(s: &GameState, user_id: i64, n: i64) -> (r: Result<
    (Vec<UserPresent>, bool),
    Error,
>)
    requires
        0 <= n,
        100 * (n as int) <= i64::MAX,
    ensures
        n == 0 ==> r == Result::<(Vec<UserPresent>, bool), Error>::Err(Error::InvalidPage),
        n >= 1 ==> ({
            let live = s.user_presents@.filter(p_live_present_of(user_id));
            let offset = 100 * (n - 1) as int;
            &&& r is Ok
            &&& exists|all: Seq<UserPresent>|
                {
                    &&& #[trigger] sorted_presents(all)
                    &&& all.to_multiset() == live.to_multiset()
                    &&& all.len() == live.len()
                    &&& r->Ok_0.0@ == (if offset >= all.len() {
                        Seq::<UserPresent>::empty()
                    } else if offset + 100 <= all.len() {
                        all.subrange(offset, offset + 100)
                    } else {
                        all.subrange(offset, all.len() as int)
                    })
                }
            &&& r->Ok_0.1 == (live.len() > offset + 100)
        }),
{
    if n == 0 {
        return Err(Error::InvalidPage);
    }

    let all = collect_presents_sorted(&s.user_presents, user_id);
    let total = all.len();
    let offset_i = 100 * (n - 1);
    let ghost off = offset_i as int;
    proof {
        assert(off >= 0 && off + 100 <= i64::MAX) by (nonlinear_arith)
            requires
                off == 100 * ((n - 1) as int) && n >= 1 && 100 * (n as int) <= i64::MAX;
    }

    // walk the sorted listing with a cursor, keeping the rows of the page
    let mut page: Vec<UserPresent> = Vec::new();
    let mut k: usize = 0;
    let mut pos: i64 = 0;
    while k < total && pos < offset_i + 100
        invariant
            0 <= k <= total,
            total == all@.len(),
            pos as int == k as int,
            pos as int <= off + 100,
            page@ == all@.subrange(
                if off <= k as int {
                    off
                } else {
                    k as int
                },
                if off + 100 <= k as int {
                    off + 100
                } else {
                    k as int
                },
            ),
        decreases total - k,
    {
        if pos >= offset_i {
            page.push(all[k].clone_row());
            proof {
                assert(all@.subrange(off, k as int).push(all@[k as int]) =~= all@.subrange(
                    off,
                    k as int + 1,
                ));
            }
        } else {
            proof {
                assert(all@.subrange(k as int, k as int) =~= all@.subrange(
                    k as int + 1,
                    k as int + 1,
                ));
            }
        }
        k = k + 1;
        pos = pos + 1;
    }
    let is_next = k < total;
    proof {
        if off >= total as int {
            assert(page@ =~= Seq::<UserPresent>::empty());
        }
    }
    Ok((page, is_next))
}

} // verus!
