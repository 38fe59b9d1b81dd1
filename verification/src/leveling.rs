//! Card leveling: consume enhancement materials for experience, then level
//! the card while its total experience clears each level's threshold. The
//! thresholds (one per level below the maximum) are data supplied by the
//! caller, who evaluates the master's exponential growth curve.
use vstd::prelude::*;

use crate::Error;
use crate::model::ItemMaster;
use crate::model::UserCard;
use crate::model::UserItem;
use crate::state::GameState;
use crate::state::find_item_master_by_id;
use crate::state::find_user_card;
use crate::state::first_at;
use crate::state::first_idx;
use crate::state::item_master_wf;
use crate::state::lemma_first_idx_none;
use crate::state::lemma_first_idx_of;
use crate::state::masters_unchanged;
use crate::state::masters_wf;
use crate::state::p_item_master_id;
use crate::state::p_user_card;
use crate::state::sat64;
use crate::state::sat_add;
use crate::state::sat_mul;
use crate::admission::check_one_time_token;
use crate::admission::check_viewer_id;
use crate::admission::device_bound;
use crate::admission::has_live_token;
use crate::admission::token_check_rel;

verus! {

/// One consume request: a stock row id and the amount to consume.
#[derive(Clone, Copy, Debug)]
pub struct ConsumeItem {
    pub id: i64,
    pub amount: i64,
}

/// A validated consumable: the stock row joined with its master's gained-exp
/// column, plus the amount this request consumes.
#[derive(Clone, Copy, Debug)]
pub struct ConsumeUserItemData {
    pub id: i64,
    pub user_id: i64,
    pub item_id: i64,
    pub item_type: i64,
    pub amount: i64,
    pub created_at: i64,
    pub updated_at: i64,
    pub gained_exp: i64,
    pub consume_amount: i64,
}

/// A material stock row eligible for consumption by this user.
pub open spec fn p_consume_item(row_id: i64, user_id: i64) -> spec_fn(UserItem) -> bool {
    |x: UserItem| x.item_type == 3 && x.id == row_id && x.user_id == user_id
}

/// The first material stock row with this row id owned by this user.
pub fn find_consume_item(rows: &Vec<UserItem>, row_id: i64, user_id: i64) -> (r: Option<usize>)
    ensures
        match r {
            Some(i) => first_at(rows@, p_consume_item(row_id, user_id), i as int) && first_idx(
                rows@,
                p_consume_item(row_id, user_id),
            ) == Some(i as int),
            None => first_idx(rows@, p_consume_item(row_id, user_id)) is None && (forall|j: int|
                0 <= j < rows@.len() ==> !(#[trigger] p_consume_item(row_id, user_id)(rows@[j]))),
        },
{
    let ghost p = p_consume_item(row_id, user_id);
    let n = rows.len();
    let mut i: usize = 0;
    while i < n
        invariant
            n == rows@.len(),
            0 <= i <= n,
            p == p_consume_item(row_id, user_id),
            forall|j: int| 0 <= j < i ==> !p(rows@[j]),
        decreases n - i,
    {
        if rows[i].item_type == 3 && rows[i].id == row_id && rows[i].user_id == user_id {
            proof {
                assert(p(rows@[i as int]));
                lemma_first_idx_of(rows@, p, i as int);
            }
            return Some(i);
        }
        proof {
            assert(!p(rows@[i as int]));
        }
        i = i + 1;
    }
    proof {
        lemma_first_idx_none(rows@, p);
    }
    None
}

/// What validating one consume entry yields: the matching error, or nothing
/// when the entry is valid.
pub open spec fn entry_error(
    table: Seq<UserItem>,
    masters: Seq<ItemMaster>,
    user_id: i64,
    v: ConsumeItem,
) -> Option<Error> {
    match first_idx(table, p_consume_item(v.id, user_id)) {
        None => Some(Error::ItemNotFound),
        Some(i) => match first_idx(masters, p_item_master_id(table[i].item_id)) {
            None => Some(Error::ItemNotFound),
            Some(m) => if v.amount > table[i].amount {
                Some(Error::InsufficientItem)
            } else if v.amount < 0 {
                Some(Error::InvalidRequestBody)
            } else {
                None
            },
        },
    }
}

/// The validated data of one valid consume entry.
pub open spec fn sp_consume_data(
    table: Seq<UserItem>,
    masters: Seq<ItemMaster>,
    user_id: i64,
    v: ConsumeItem,
) -> ConsumeUserItemData {
    let i = first_idx(table, p_consume_item(v.id, user_id))->0;
    let m = first_idx(masters, p_item_master_id(table[i].item_id))->0;
    ConsumeUserItemData {
        id: table[i].id,
        user_id: table[i].user_id,
        item_id: table[i].item_id,
        item_type: table[i].item_type,
        amount: table[i].amount,
        created_at: table[i].created_at,
        updated_at: table[i].updated_at,
        gained_exp: masters[m].gained_exp->0,
        consume_amount: v.amount,
    }
}

/// A validated consume entry carries a non-negative gained-exp value (the
/// master data's) and a non-negative consumed amount (the validation's).
proof fn lemma_consume_data_wf(
    table: Seq<UserItem>,
    masters: Seq<ItemMaster>,
    user_id: i64,
    v: ConsumeItem,
)
    requires
        entry_error(table, masters, user_id, v) is None,
        forall|j: int|
            0 <= j < table.len() && (#[trigger] table[j].item_type) == 3 ==> match first_idx(
                masters,
                p_item_master_id(table[j].item_id),
            ) {
                Some(m) => masters[m].gained_exp is Some,
                None => true,
            },
        forall|j: int| 0 <= j < masters.len() ==> #[trigger] item_master_wf(masters[j]),
    ensures
        sp_consume_data(table, masters, user_id, v).gained_exp >= 0,
        sp_consume_data(table, masters, user_id, v).consume_amount >= 0,
{
    let p = p_consume_item(v.id, user_id);
    let fi = first_idx(table, p);
    assert(fi is Some);
    let i = fi->0;
    assert(first_at(table, p, i));
    assert(p(table[i]));
    let mi = first_idx(masters, p_item_master_id(table[i].item_id));
    assert(mi is Some);
    let m = mi->0;
    assert(first_at(masters, p_item_master_id(table[i].item_id), m));
    assert(masters[m].gained_exp is Some);
    assert(item_master_wf(masters[m]));
}

/// Total experience after consuming the listed materials, each contributing
/// its gained-exp times the consumed amount, accumulated with 64-bit clamping.
pub open spec fn sp_exp_after(exp0: int, cons: Seq<ConsumeUserItemData>) -> int
    decreases cons.len(),
{
    if cons.len() == 0 {
        exp0
    } else {
        sat64(
            sp_exp_after(exp0, cons.drop_last()) + sat64(
                cons.last().gained_exp * cons.last().consume_amount,
            ),
        )
    }
}

/// Valid consumption never lowers the experience pool: with non-negative
/// gained-exp values and non-negative consumed amounts, the accumulated total
/// only grows (clamped at the 64-bit ceiling).
pub proof fn lemma_exp_gain_monotonic(exp0: int, cons: Seq<ConsumeUserItemData>)
    requires
        i64::MIN <= exp0 <= i64::MAX,
        forall|k: int|
            0 <= k < cons.len() ==> (#[trigger] cons[k]).gained_exp >= 0 && cons[k].consume_amount
                >= 0,
    ensures
        exp0 <= sp_exp_after(exp0, cons) <= i64::MAX,
    decreases cons.len(),
{
    if cons.len() > 0 {
        lemma_exp_gain_monotonic(exp0, cons.drop_last());
        assert(cons.last().gained_exp * cons.last().consume_amount >= 0) by (nonlinear_arith)
            requires
                cons.last().gained_exp >= 0 && cons.last().consume_amount >= 0;
    }
}

/// Level and production rate after repeated level-ups: while the level is
/// below the maximum and the total experience clears the current level's
/// threshold, the level rises by one and the rate by `gain`.
pub open spec fn sp_level_up(
    level: int,
    aps: int,
    total_exp: int,
    max_level: int,
    gain: int,
    thresholds: Seq<i64>,
) -> (int, int)
    decreases max_level - level,
{
    if 1 <= level < max_level && 0 <= level - 1 < thresholds.len() && thresholds[level - 1]
        <= total_exp {
        sp_level_up(level + 1, sat64(aps + gain), total_exp, max_level, gain, thresholds)
    } else {
        (level, aps)
    }
}

/// Leveling monotonicity: from any valid starting level, leveling never
/// lowers the level or the production rate, and never lifts the level above
/// the maximum.
pub proof fn lemma_level_up_monotonic(
    level: int,
    aps: int,
    total_exp: int,
    max_level: int,
    gain: int,
    thresholds: Seq<i64>,
)
    requires
        1 <= level <= max_level,
        gain >= 0,
        i64::MIN <= aps <= i64::MAX,
    ensures
        ({
            let (l2, a2) = sp_level_up(level, aps, total_exp, max_level, gain, thresholds);
            &&& level <= l2 <= max_level
            &&& aps <= a2
            &&& i64::MIN <= a2 <= i64::MAX
        }),
    decreases max_level - level,
{
    if 1 <= level < max_level && 0 <= level - 1 < thresholds.len() && thresholds[level - 1]
        <= total_exp {
        lemma_level_up_monotonic(
            level + 1,
            sat64(aps + gain),
            total_exp,
            max_level,
            gain,
            thresholds,
        );
    }
}

/// Per-level production gain: the rate span divided evenly over the levels
/// above the first (integer division).
pub open spec fn sp_gain(base_aps: int, max_aps: int, max_level: int) -> int {
    if max_level >= 2 {
        (max_aps - base_aps) / (max_level - 1)
    } else {
        0
    }
}

/// A stock row after a consumption write: the store sets the new amount from
/// the validated read, and stamps the update time.
pub open spec fn consumed_row(x: UserItem, c: ConsumeUserItemData, now: i64) -> UserItem {
    UserItem { amount: (c.amount - c.consume_amount) as i64, updated_at: now, ..x }
}

/// One consumption write: every row with the consumed row's id is set.
pub open spec fn sp_consume_write(table: Seq<UserItem>, c: ConsumeUserItemData, now: i64) -> Seq<
    UserItem,
> {
    table.map(|j: int, x: UserItem| if x.id == c.id {
        consumed_row(x, c, now)
    } else {
        x
    })
}

/// The stock table after all consumption writes, in request order.
pub open spec fn sp_apply_consumes(
    table: Seq<UserItem>,
    cons: Seq<ConsumeUserItemData>,
    now: i64,
) -> Seq<UserItem>
    decreases cons.len(),
{
    if cons.len() == 0 {
        table
    } else {
        sp_consume_write(sp_apply_consumes(table, cons.drop_last(), now), cons.last(), now)
    }
}

/// A card row after the leveling write.
pub open spec fn leveled_card_row(x: UserCard, aps: i64, level: i64, exp: i64, now: i64) -> UserCard {
    UserCard { amount_per_sec: aps, level: level, total_exp: exp, updated_at: now, ..x }
}

/// The card table after the leveling write: every row with the target id is
/// set.
pub open spec fn sp_card_write(
    table: Seq<UserCard>,
    card_id: i64,
    aps: i64,
    level: i64,
    exp: i64,
    now: i64,
) -> Seq<UserCard> {
    table.map(|j: int, x: UserCard| if x.id == card_id {
        leveled_card_row(x, aps, level, exp, now)
    } else {
        x
    })
}

/// Write one consumption to the stock table.
fn consume_write(rows: &mut Vec<UserItem>, c: &ConsumeUserItemData, now: i64)
    requires
        0 <= c.consume_amount <= c.amount,
    ensures
        final(rows)@ == sp_consume_write(old(rows)@, *c, now),
{
    let n = rows.len();
    let mut i: usize = 0;
    while i < n
        invariant
            n == rows@.len(),
            0 <= i <= n,
            0 <= c.consume_amount <= c.amount,
            forall|j: int|
                0 <= j < i ==> rows@[j] == (if old(rows)@[j].id == c.id {
                    consumed_row(old(rows)@[j], *c, now)
                } else {
                    old(rows)@[j]
                }),
            forall|j: int| i <= j < n ==> rows@[j] == old(rows)@[j],
        decreases n - i,
    {
        if rows[i].id == c.id {
            rows[i].amount = c.amount - c.consume_amount;
            rows[i].updated_at = now;
        }
        i = i + 1;
    }
    proof {
        assert(rows@ =~= sp_consume_write(old(rows)@, *c, now));
    }
}

/// Write the leveling result to the card table.
fn card_write(rows: &mut Vec<UserCard>, card_id: i64, aps: i64, level: i64, exp: i64, now: i64)
    ensures
        final(rows)@ == sp_card_write(old(rows)@, card_id, aps, level, exp, now),
{
    let n = rows.len();
    let mut i: usize = 0;
    while i < n
        invariant
            n == rows@.len(),
            0 <= i <= n,
            forall|j: int|
                0 <= j < i ==> rows@[j] == (if old(rows)@[j].id == card_id {
                    leveled_card_row(old(rows)@[j], aps, level, exp, now)
                } else {
                    old(rows)@[j]
                }),
            forall|j: int| i <= j < n ==> rows@[j] == old(rows)@[j],
        decreases n - i,
    {
        if rows[i].id == card_id {
            rows[i].amount_per_sec = aps;
            rows[i].level = level;
            rows[i].total_exp = exp;
            rows[i].updated_at = now;
        }
        i = i + 1;
    }
    proof {
        assert(rows@ =~= sp_card_write(old(rows)@, card_id, aps, level, exp, now));
    }
}

/// The target card's index, as the store's join would find it.
pub open spec fn target_card_idx(s: GameState, card_id: i64, user_id: i64) -> Option<int> {
    first_idx(s.user_cards@, p_user_card(card_id, user_id))
}

/// The index of the master row the target card joins with.
pub open spec fn target_master_idx(s: GameState, card_id: i64, user_id: i64) -> Option<int> {
    match target_card_idx(s, card_id, user_id) {
        Some(c) => first_idx(s.item_masters@, p_item_master_id(s.user_cards@[c].card_id)),
        None => None,
    }
}

/// The join succeeds: the card exists for the user and its master row exists.
pub open spec fn target_found(s: GameState, card_id: i64, user_id: i64) -> bool {
    target_master_idx(s, card_id, user_id) is Some
}

/// Referential well-formedness: a card's master row (the first item master
/// carrying the card's master id) is a card master, and a material stock
/// row's master carries its gained-exp column. Grants preserve this shape.
pub open spec fn refs_wf(s: GameState) -> bool {
    &&& forall|j: int|
        0 <= j < s.user_cards@.len() ==> match first_idx(
            s.item_masters@,
            p_item_master_id(#[trigger] s.user_cards@[j].card_id),
        ) {
            Some(m) => s.item_masters@[m].item_type == 2,
            None => true,
        }
    &&& forall|j: int|
        0 <= j < s.user_items@.len() && (#[trigger] s.user_items@[j].item_type) == 3 ==> match first_idx(
            s.item_masters@,
            p_item_master_id(s.user_items@[j].item_id),
        ) {
            Some(m) => s.item_masters@[m].gained_exp is Some,
            None => true,
        }
}

/// The final level and production rate the request computes, over the
/// validated consume data.
pub open spec fn sp_leveling_outcome(
    s: GameState,
    card_id: i64,
    user_id: i64,
    cons: Seq<ConsumeUserItemData>,
    thresholds: Seq<i64>,
) -> (int, int, int) {
    let c = target_card_idx(s, card_id, user_id)->0;
    let m = target_master_idx(s, card_id, user_id)->0;
    let card = s.user_cards@[c];
    let master = s.item_masters@[m];
    let exp2 = sp_exp_after(card.total_exp as int, cons);
    let gain = sp_gain(
        master.amount_per_sec->0 as int,
        master.max_amount_per_sec->0 as int,
        master.max_level->0 as int,
    );
    let (l2, a2) = sp_level_up(
        card.level as int,
        card.amount_per_sec as int,
        exp2,
        master.max_level->0 as int,
        gain,
        thresholds,
    );
    (l2, a2, exp2)
}

/// Consume materials into a card's experience pool and level it up.
///
/// The one-time token (leveling type) is consumed whatever the outcome; all
/// other effects happen only when every check passes: the card's row takes
/// the new level, rate and experience, and each consumed entry's stock row is
/// written down by the consumed amount. Returns the updated card row and the
/// updated stock rows, in request order.
#[verifier::loop_isolation(false)]
#[verifier::rlimit(100)]
pub fn add_exp_to_card(
    s: &mut GameState,
    user_id: i64,
    card_id: i64,
    one_time_token: &String,
    viewer_id: &String,
    items: &Vec<ConsumeItem>,
    thresholds: &Vec<i64>,
    now: i64,
) -> (r: Result<(UserCard, Vec<UserItem>), Error>)
    requires
        masters_wf(*old(s)),
        refs_wf(*old(s)),
        crate::state::cards_wf(old(s).user_cards@),
        ({
            let mi = target_master_idx(*old(s), card_id, user_id);
            mi matches Some(m) ==> thresholds@.len() + 1 == old(s).item_masters@[m].max_level->0
        }),
    ensures
        // the token stage's exact effect, shared with every token-gated route
        exists|mid: GameState, tr: Result<(), Error>|
            {
                &&& #[trigger] token_check_rel(
                    *old(s),
                    mid,
                    one_time_token@,
                    crate::model::TOKEN_TYPE_LEVELING,
                    now,
                    tr,
                )
                &&& final(s).tokens@ == mid.tokens@
            },
        !token_usable(*old(s), one_time_token@, now) ==> r == Result::<
            (UserCard, Vec<UserItem>),
            Error,
        >::Err(Error::InvalidToken) && leveling_frame_unchanged(*old(s), *final(s)),
        token_usable(*old(s), one_time_token@, now) ==> {
            &&& !device_bound(old(s).user_devices@, user_id, viewer_id@) ==> r == Result::<
                (UserCard, Vec<UserItem>),
                Error,
            >::Err(Error::UserDeviceNotFound) && leveling_frame_unchanged(*old(s), *final(s))
            &&& device_bound(old(s).user_devices@, user_id, viewer_id@) ==> {
                let found = target_found(*old(s), card_id, user_id);
                &&& !found ==> r == Result::<(UserCard, Vec<UserItem>), Error>::Err(
                    Error::CardNotFound,
                ) && leveling_frame_unchanged(*old(s), *final(s))
                &&& found ==> leveling_found_post(
                    *old(s),
                    *final(s),
                    card_id,
                    user_id,
                    items@,
                    thresholds@,
                    now,
                    r,
                )
            }
        },
{
    let token_result = check_one_time_token(s, one_time_token, 2, now);
    let ghost mid = *s;
    if let Err(e) = token_result {
        proof {
            lemma_token_rel_cases(*old(s), mid, one_time_token@, now, token_result);
        }
        return Err(e);
    }
    proof {
        lemma_token_rel_cases(*old(s), mid, one_time_token@, now, token_result);
    }

    if let Err(e) = check_viewer_id(s, user_id, viewer_id) {
        return Err(e);
    }

    // the target card joined with its master's leveling columns
    let c = match find_user_card(&s.user_cards, card_id, user_id) {
        Some(c) => c,
        None => {
            return Err(Error::CardNotFound);
        },
    };
    let m = match find_item_master_by_id(&s.item_masters, s.user_cards[c].card_id) {
        Some(m) => m,
        None => {
            return Err(Error::CardNotFound);
        },
    };
    proof {
        assert(s.user_cards@[c as int].card_id == old(s).user_cards@[c as int].card_id);
        assert(item_master_wf(s.item_masters@[m as int]));
        assert(s.item_masters@[m as int].item_type == 2);
    }
    let master = &s.item_masters[m];
    let base_aps = master.amount_per_sec.unwrap();
    let max_level = master.max_level.unwrap();
    let max_aps = master.max_amount_per_sec.unwrap();
    let card_level = s.user_cards[c].level;
    let card_aps = s.user_cards[c].amount_per_sec;
    let card_exp = s.user_cards[c].total_exp;

    if card_level == max_level {
        return Err(Error::CardMaxLevel);
    }

    // validate the consumables against the owned stock
    let mut consumed: Vec<ConsumeUserItemData> = Vec::new();
    let n = items.len();
    let mut k: usize = 0;
    while k < n
        invariant
            n == items@.len(),
            0 <= k <= n,
            consumed@.len() == k,
            masters_wf(*s),
            refs_wf(*s),
            forall|j: int|
                0 <= j < k ==> entry_error(s.user_items@, s.item_masters@, user_id, items@[j])
                    is None,
            forall|j: int|
                0 <= j < k ==> consumed@[j] == sp_consume_data(
                    s.user_items@,
                    s.item_masters@,
                    user_id,
                    items@[j],
                ),
            forall|j: int|
                0 <= j < k ==> 0 <= (#[trigger] consumed@[j]).consume_amount
                    <= consumed@[j].amount,
        decreases n - k,
    {
        let v = items[k];
        let i = match find_consume_item(&s.user_items, v.id, user_id) {
            Some(i) => i,
            None => {
                proof {
                    lemma_first_entry_error(
                        s.user_items@,
                        s.item_masters@,
                        user_id,
                        items@,
                        k as int,
                    );
                }
                return Err(Error::ItemNotFound);
            },
        };
        let m2 = match find_item_master_by_id(&s.item_masters, s.user_items[i].item_id) {
            Some(m2) => m2,
            None => {
                proof {
                    lemma_first_entry_error(
                        s.user_items@,
                        s.item_masters@,
                        user_id,
                        items@,
                        k as int,
                    );
                }
                return Err(Error::ItemNotFound);
            },
        };
        if v.amount > s.user_items[i].amount {
            proof {
                lemma_first_entry_error(s.user_items@, s.item_masters@, user_id, items@, k as int);
            }
            return Err(Error::InsufficientItem);
        }
        if v.amount < 0 {
            proof {
                lemma_first_entry_error(s.user_items@, s.item_masters@, user_id, items@, k as int);
            }
            return Err(Error::InvalidRequestBody);
        }
        proof {
            assert(s.user_items@[i as int].item_type == 3);
            assert(s.item_masters@[m2 as int].gained_exp is Some);
        }
        let data = ConsumeUserItemData {
            id: s.user_items[i].id,
            user_id: s.user_items[i].user_id,
            item_id: s.user_items[i].item_id,
            item_type: s.user_items[i].item_type,
            amount: s.user_items[i].amount,
            created_at: s.user_items[i].created_at,
            updated_at: s.user_items[i].updated_at,
            gained_exp: s.item_masters[m2].gained_exp.unwrap(),
            consume_amount: v.amount,
        };
        consumed.push(data);
        k = k + 1;
    }

    // accumulate experience
    let mut total_exp = card_exp;
    let mut k2: usize = 0;
    while k2 < consumed.len()
        invariant
            0 <= k2 <= consumed@.len(),
            total_exp as int == sp_exp_after(card_exp as int, consumed@.take(k2 as int)),
        decreases consumed@.len() - k2,
    {
        let gained = sat_mul(consumed[k2].gained_exp, consumed[k2].consume_amount);
        total_exp = sat_add(total_exp, gained);
        proof {
            assert(consumed@.take(k2 + 1).drop_last() =~= consumed@.take(k2 as int));
            assert(consumed@.take(k2 + 1).last() == consumed@[k2 as int]);
        }
        k2 = k2 + 1;
    }
    proof {
        assert(consumed@.take(consumed@.len() as int) =~= consumed@);
    }

    // level up while the threshold for the current level is cleared
    let gain: i64 = if max_level >= 2 {
        (((max_aps - base_aps) as u64) / ((max_level - 1) as u64)) as i64
    } else {
        0
    };
    proof {
        if max_level >= 2 {
            let a = (max_aps - base_aps) as int;
            let d = (max_level - 1) as int;
            assert(a / d <= a && a / d >= 0) by (nonlinear_arith)
                requires
                    d >= 1,
                    a >= 0;
        }
        assert(gain as int == sp_gain(base_aps as int, max_aps as int, max_level as int));
        assert(gain >= 0);
    }
    let mut level = card_level;
    let mut aps = card_aps;
    let ghost l0 = card_level as int;
    while level >= 1 && level < max_level && ((level - 1) as usize) < thresholds.len()
        && thresholds[(level - 1) as usize] <= total_exp
        invariant
            i64::MIN <= level <= i64::MAX,
            sp_level_up(
                level as int,
                aps as int,
                total_exp as int,
                max_level as int,
                gain as int,
                thresholds@,
            ) == sp_level_up(
                card_level as int,
                card_aps as int,
                total_exp as int,
                max_level as int,
                gain as int,
                thresholds@,
            ),
        decreases max_level - level,
    {
        let ghost pl = level as int;
        let ghost pa = aps as int;
        level = level + 1;
        aps = sat_add(aps, gain);
        proof {
            assert(sp_level_up(
                pl,
                pa,
                total_exp as int,
                max_level as int,
                gain as int,
                thresholds@,
            ) == sp_level_up(
                pl + 1,
                sat64(pa + gain as int),
                total_exp as int,
                max_level as int,
                gain as int,
                thresholds@,
            ));
            assert(aps as int == sat64(pa + gain as int));
        }
    }
    proof {
        assert(sp_level_up(
            level as int,
            aps as int,
            total_exp as int,
            max_level as int,
            gain as int,
            thresholds@,
        ) == (level as int, aps as int));
    }

    // persist: the card row, then each consumed stock row, in request order
    card_write(&mut s.user_cards, card_id, aps, level, total_exp, now);
    let ghost cards_after = s.user_cards@;
    let ghost items0 = s.user_items@;
    let mut k3: usize = 0;
    while k3 < consumed.len()
        invariant
            0 <= k3 <= consumed@.len(),
            s.user_items@ == sp_apply_consumes(items0, consumed@.take(k3 as int), now),
            s.user_cards@ == cards_after,
            forall|j: int|
                0 <= j < consumed@.len() ==> 0 <= (#[trigger] consumed@[j]).consume_amount
                    <= consumed@[j].amount,
            s.next_entity_id == old(s).next_entity_id,
            s.users@ == old(s).users@,
            s.user_devices@ == old(s).user_devices@,
            s.user_bans@ == old(s).user_bans@,
            s.sessions@ == old(s).sessions@,
            s.admin_sessions@ == old(s).admin_sessions@,
            s.tokens@ == mid.tokens@,
            s.user_decks@ == old(s).user_decks@,
            s.user_login_bonuses@ == old(s).user_login_bonuses@,
            s.user_presents@ == old(s).user_presents@,
            s.present_history@ == old(s).present_history@,
            s.admin_users@ == old(s).admin_users@,
            masters_unchanged(*old(s), *s),
        decreases consumed@.len() - k3,
    {
        let c3 = consumed[k3];
        consume_write(&mut s.user_items, &c3, now);
        proof {
            assert(consumed@.take(k3 + 1).drop_last() =~= consumed@.take(k3 as int));
            assert(consumed@.take(k3 + 1).last() == consumed@[k3 as int]);
        }
        k3 = k3 + 1;
    }
    proof {
        assert(consumed@.take(consumed@.len() as int) =~= consumed@);
    }

    // the response data: the updated card row and the updated stock rows
    let result_card = match find_card_row(&s.user_cards, card_id) {
        Some(rc) => rc,
        None => {
            // the target card's row survives the write under its id
            proof {
                assert(crate::state::p_card_id(card_id)(s.user_cards@[c as int]));
                assert(false);
            }
            return Err(Error::CardNotFound);
        },
    };
    let mut result_items: Vec<UserItem> = Vec::new();
    let mut k4: usize = 0;
    while k4 < consumed.len()
        invariant
            0 <= k4 <= consumed@.len(),
            result_items@.len() == k4,
            forall|j: int|
                0 <= j < k4 ==> result_items@[j] == response_item_row(consumed@[j], now),
        decreases consumed@.len() - k4,
    {
        let c4 = consumed[k4];
        result_items.push(UserItem {
            id: c4.id,
            user_id: c4.user_id,
            item_id: c4.item_id,
            item_type: c4.item_type,
            amount: c4.amount - c4.consume_amount,
            created_at: c4.created_at,
            updated_at: now,
            deleted_at: None,
        });
        k4 = k4 + 1;
    }
    proof {
        let pre = *old(s);
        let reqs = items@;
        let cons = Seq::new(
            reqs.len(),
            |kk: int| sp_consume_data(pre.user_items@, pre.item_masters@, user_id, reqs[kk]),
        );
        assert(target_card_idx(pre, card_id, user_id) == Some(c as int));
        assert(target_master_idx(pre, card_id, user_id) == Some(m as int));
        assert(forall|kk: int|
            0 <= kk < reqs.len() ==> entry_error(pre.user_items@, pre.item_masters@, user_id, reqs[kk])
                is None);
        assert(consumed@ =~= cons);
        let (l2, a2, e2) = sp_leveling_outcome(pre, card_id, user_id, cons, thresholds@);
        assert(e2 == total_exp as int);
        assert((l2, a2) == (level as int, aps as int));
        // the stored card's level is positive, so leveling is monotone and
        // respects the cap
        assert(pre.user_cards@[c as int].level >= 1);
        if card_level <= max_level {
            lemma_level_up_monotonic(
                card_level as int,
                card_aps as int,
                total_exp as int,
                max_level as int,
                gain as int,
                thresholds@,
            );
        } else {
            assert(sp_level_up(
                card_level as int,
                card_aps as int,
                total_exp as int,
                max_level as int,
                gain as int,
                thresholds@,
            ) == (card_level as int, card_aps as int));
        }
        // every validated consume entry gains non-negatively, so the
        // experience pool never shrinks
        assert forall|kk: int|
            0 <= kk < cons.len() implies (#[trigger] cons[kk]).gained_exp >= 0
                && cons[kk].consume_amount >= 0 by {
            lemma_consume_data_wf(pre.user_items@, pre.item_masters@, user_id, reqs[kk]);
        }
        lemma_exp_gain_monotonic(pre.user_cards@[c as int].total_exp as int, cons);
        assert(s.user_cards@ == sp_card_write(
            pre.user_cards@,
            card_id,
            a2 as i64,
            l2 as i64,
            e2 as i64,
            now,
        ));
        assert(s.user_items@ == sp_apply_consumes(pre.user_items@, cons, now));
        assert(result_items@ =~= Seq::new(cons.len(), |kk: int| response_item_row(cons[kk], now)));
    }
    Ok((result_card, result_items))
}

/// The response's echo of one consumed stock row.
pub open spec fn response_item_row(c: ConsumeUserItemData, now: i64) -> UserItem {
    UserItem {
        id: c.id,
        user_id: c.user_id,
        item_id: c.item_id,
        item_type: c.item_type,
        amount: (c.amount - c.consume_amount) as i64,
        created_at: c.created_at,
        updated_at: now,
        deleted_at: None,
    }
}

/// The first card row with this id (the response re-read).
fn find_card_row(rows: &Vec<UserCard>, card_id: i64) -> (r: Option<UserCard>)
    ensures
        match r {
            Some(c) => exists|i: int|
                first_at(rows@, crate::state::p_card_id(card_id), i) && c == rows@[i],
            None => first_idx(rows@, crate::state::p_card_id(card_id)) is None && (forall|j: int|
                0 <= j < rows@.len() ==> !(#[trigger] crate::state::p_card_id(card_id)(rows@[j]))),
        },
{
    match crate::state::find_card_by_id(rows, card_id) {
        Some(i) => Some(rows[i].clone_row()),
        None => None,
    }
}

/// A live token of the leveling type exists and is not expired at `now`.
pub open spec fn token_usable(s: GameState, token: Seq<char>, now: i64) -> bool {
    &&& has_live_token(s, token, crate::model::TOKEN_TYPE_LEVELING)
    &&& !token_expired(s, token, now)
}

/// The first live leveling token with this token string is already expired.
pub open spec fn token_expired(s: GameState, token: Seq<char>, now: i64) -> bool {
    exists|i: int|
        #![trigger s.tokens@[i]]
        {
            &&& 0 <= i < s.tokens@.len()
            &&& crate::state::sm_live_token(s.tokens@[i], token, crate::model::TOKEN_TYPE_LEVELING)
            &&& (forall|j: int|
                0 <= j < i ==> !crate::state::sm_live_token(
                    s.tokens@[j],
                    token,
                    crate::model::TOKEN_TYPE_LEVELING,
                ))
            &&& s.tokens@[i].expired_at < now
        }
}

/// Everything but the token table is unchanged (the shape of every early
/// failure after the token stage).
pub open spec fn leveling_frame_unchanged(pre: GameState, post: GameState) -> bool {
    &&& post.next_entity_id == pre.next_entity_id
    &&& post.users@ == pre.users@
    &&& post.user_devices@ == pre.user_devices@
    &&& post.user_bans@ == pre.user_bans@
    &&& post.sessions@ == pre.sessions@
    &&& post.admin_sessions@ == pre.admin_sessions@
    &&& post.user_cards@ == pre.user_cards@
    &&& post.user_decks@ == pre.user_decks@
    &&& post.user_items@ == pre.user_items@
    &&& post.user_login_bonuses@ == pre.user_login_bonuses@
    &&& post.user_presents@ == pre.user_presents@
    &&& post.present_history@ == pre.present_history@
    &&& post.admin_users@ == pre.admin_users@
    &&& masters_unchanged(pre, post)
}

/// What holds when the target card was found: either a consume entry fails —
/// the first failing entry's error is returned, nothing but the token table
/// changed — or all pass and the writes land.
pub open spec fn leveling_found_post(
    pre: GameState,
    post: GameState,
    card_id: i64,
    user_id: i64,
    reqs: Seq<ConsumeItem>,
    thresholds: Seq<i64>,
    now: i64,
    r: Result<(UserCard, Vec<UserItem>), Error>,
) -> bool {
    let c = target_card_idx(pre, card_id, user_id)->0;
    let m = target_master_idx(pre, card_id, user_id)->0;
    let card = pre.user_cards@[c];
    let master = pre.item_masters@[m];
    if card.level == master.max_level->0 {
        r == Result::<(UserCard, Vec<UserItem>), Error>::Err(Error::CardMaxLevel)
            && leveling_frame_unchanged(pre, post)
    } else if exists|k: int|
        0 <= k < reqs.len() && (#[trigger] entry_error(pre.user_items@, pre.item_masters@, user_id, reqs[k]))
            is Some {
        exists|k: int|
            #![trigger reqs[k]]
            {
                &&& 0 <= k < reqs.len()
                &&& (forall|j: int|
                    0 <= j < k ==> entry_error(pre.user_items@, pre.item_masters@, user_id, reqs[j])
                        is None)
                &&& entry_error(pre.user_items@, pre.item_masters@, user_id, reqs[k]) is Some
                &&& r == Result::<(UserCard, Vec<UserItem>), Error>::Err(
                    entry_error(pre.user_items@, pre.item_masters@, user_id, reqs[k])->0,
                )
                &&& leveling_frame_unchanged(pre, post)
            }
    } else {
        let cons = Seq::new(
            reqs.len(),
            |k: int| sp_consume_data(pre.user_items@, pre.item_masters@, user_id, reqs[k]),
        );
        let (l2, a2, e2) = sp_leveling_outcome(pre, card_id, user_id, cons, thresholds);
        &&& post.user_cards@ == sp_card_write(
            pre.user_cards@,
            card_id,
            a2 as i64,
            l2 as i64,
            e2 as i64,
            now,
        )
        &&& post.user_items@ == sp_apply_consumes(pre.user_items@, cons, now)
        &&& post.next_entity_id == pre.next_entity_id
        &&& post.users@ == pre.users@
        &&& post.user_decks@ == pre.user_decks@
        &&& post.user_presents@ == pre.user_presents@
        &&& post.present_history@ == pre.present_history@
        &&& post.user_login_bonuses@ == pre.user_login_bonuses@
        &&& post.sessions@ == pre.sessions@
        &&& masters_unchanged(pre, post)
        &&& r matches Ok(v) && v.1@ == Seq::new(cons.len(), |k: int| response_item_row(cons[k], now))
        &&& r matches Ok(v) && exists|i: int|
            first_at(post.user_cards@, crate::state::p_card_id(card_id), i) && v.0
                == post.user_cards@[i]
        // leveling monotonicity: level, production rate and experience never
        // go down, and the level never passes the master's cap
        &&& card.level as int <= l2
        &&& card.amount_per_sec as int <= a2
        &&& card.total_exp as int <= e2 <= i64::MAX
        &&& (card.level <= master.max_level->0 ==> l2 <= master.max_level->0 as int)
    }
}

/// A found token is consumed whatever the outcome; the relation cases used by
/// the routes that share the token stage.
proof fn lemma_token_rel_cases(
    pre: GameState,
    mid: GameState,
    token: Seq<char>,
    now: i64,
    r: Result<(), Error>,
)
    requires
        token_check_rel(pre, mid, token, crate::model::TOKEN_TYPE_LEVELING, now, r),
    ensures
        r is Ok <==> token_usable(pre, token, now),
        r matches Err(e) ==> e == Error::InvalidToken,
{
    if has_live_token(pre, token, crate::model::TOKEN_TYPE_LEVELING) {
        let i = choose|i: int|
            #![trigger pre.tokens@[i]]
            {
                &&& 0 <= i < pre.tokens@.len()
                &&& crate::state::sm_live_token(
                    pre.tokens@[i],
                    token,
                    crate::model::TOKEN_TYPE_LEVELING,
                )
                &&& (forall|j: int|
                    0 <= j < i ==> !crate::state::sm_live_token(
                        pre.tokens@[j],
                        token,
                        crate::model::TOKEN_TYPE_LEVELING,
                    ))
                &&& r == (if pre.tokens@[i].expired_at < now {
                    Result::<(), Error>::Err(Error::InvalidToken)
                } else {
                    Result::<(), Error>::Ok(())
                })
            };
        if pre.tokens@[i].expired_at < now {
            assert(token_expired(pre, token, now));
        } else {
            assert forall|k: int|
                #![trigger pre.tokens@[k]]
                0 <= k < pre.tokens@.len() && crate::state::sm_live_token(
                    pre.tokens@[k],
                    token,
                    crate::model::TOKEN_TYPE_LEVELING,
                ) && (forall|j: int|
                    0 <= j < k ==> !crate::state::sm_live_token(
                        pre.tokens@[j],
                        token,
                        crate::model::TOKEN_TYPE_LEVELING,
                    )) implies !(pre.tokens@[k].expired_at < now) by {
                if k < i {
                    assert(!crate::state::sm_live_token(
                        pre.tokens@[k],
                        token,
                        crate::model::TOKEN_TYPE_LEVELING,
                    ));
                } else if k > i {
                    assert(!crate::state::sm_live_token(
                        pre.tokens@[i],
                        token,
                        crate::model::TOKEN_TYPE_LEVELING,
                    ));
                }
            }
            assert(!token_expired(pre, token, now));
        }
    }
}

/// Error when some consume entry is invalid: the first invalid entry's error
/// is what the loop reports.
proof fn lemma_first_entry_error(
    table: Seq<UserItem>,
    masters: Seq<ItemMaster>,
    user_id: i64,
    reqs: Seq<ConsumeItem>,
    k: int,
)
    requires
        0 <= k < reqs.len(),
        forall|j: int| 0 <= j < k ==> entry_error(table, masters, user_id, reqs[j]) is None,
        entry_error(table, masters, user_id, reqs[k]) is Some,
    ensures
        exists|k2: int|
            #![trigger reqs[k2]]
            {
                &&& 0 <= k2 < reqs.len()
                &&& (forall|j: int|
                    0 <= j < k2 ==> entry_error(table, masters, user_id, reqs[j]) is None)
                &&& entry_error(table, masters, user_id, reqs[k2]) is Some
            },
{
    assert(0 <= k < reqs.len() && (forall|j: int|
        0 <= j < k ==> entry_error(table, masters, user_id, reqs[j]) is None) && entry_error(
        table,
        masters,
        user_id,
        reqs[k],
    ) is Some);
}

/// A stock row of this user (the item listing's fetch).
pub open spec fn p_item_of_user(user_id: i64) -> spec_fn(UserItem) -> bool {
    |x: UserItem| x.user_id == user_id
}

/// A card row of this user (the item listing's fetch).
pub open spec fn p_card_of_user(user_id: i64) -> spec_fn(UserCard) -> bool {
    |x: UserCard| x.user_id == user_id
}

/// List the user's materials and cards, and issue a fresh leveling token,
/// invalidating the user's previous live tokens.
#[verifier::loop_isolation(false)]
pub fn list_item(s: &mut GameState, user_id: i64, now: i64) -> (r: Result<
    (String, crate::model::User, Vec<UserItem>, Vec<UserCard>),
    Error,
>)
    requires
        old(s).next_entity_id < i64::MAX,
        crate::external::ts_ok(now as int),
    ensures
        crate::state::first_idx(old(s).users@, crate::state::p_user(user_id)) is None ==> r
            == Result::<(String, crate::model::User, Vec<UserItem>, Vec<UserCard>), Error>::Err(
            Error::UserNotFound,
        ) && *final(s) == *old(s),
        crate::state::first_idx(old(s).users@, crate::state::p_user(user_id)) matches Some(u) ==> ({
            &&& r matches Ok(v)
            &&& r->Ok_0.1 == old(s).users@[u]
            &&& r->Ok_0.2@ == old(s).user_items@.filter(p_item_of_user(user_id))
            &&& r->Ok_0.3@ == old(s).user_cards@.filter(p_card_of_user(user_id))
            &&& r->Ok_0.0@.len() == 36
            &&& final(s).tokens@.len() == old(s).tokens@.len() + 1
            &&& final(s).tokens@.last() == (crate::model::UserOneTimeToken {
                id: (old(s).next_entity_id + 1) as i64,
                user_id: user_id,
                token: final(s).tokens@.last().token,
                token_type: crate::model::TOKEN_TYPE_LEVELING,
                expired_at: (now + 600) as i64,
                created_at: now,
                updated_at: now,
                deleted_at: None,
            })
            &&& final(s).tokens@.last().token@ == r->Ok_0.0@
            &&& forall|j: int|
                0 <= j < old(s).tokens@.len() ==> final(s).tokens@[j] == (if old(
                    s,
                ).tokens@[j].user_id == user_id && old(s).tokens@[j].deleted_at is None {
                    crate::state::token_tombstoned(old(s).tokens@[j], now)
                } else {
                    old(s).tokens@[j]
                })
            &&& final(s).next_entity_id == old(s).next_entity_id + 1
            &&& final(s).users@ == old(s).users@
            &&& final(s).user_items@ == old(s).user_items@
            &&& final(s).user_cards@ == old(s).user_cards@
            &&& final(s).user_presents@ == old(s).user_presents@
            &&& final(s).present_history@ == old(s).present_history@
            &&& final(s).user_login_bonuses@ == old(s).user_login_bonuses@
            &&& final(s).user_decks@ == old(s).user_decks@
            &&& final(s).sessions@ == old(s).sessions@
            &&& final(s).admin_sessions@ == old(s).admin_sessions@
            &&& final(s).user_devices@ == old(s).user_devices@
            &&& final(s).user_bans@ == old(s).user_bans@
            &&& final(s).admin_users@ == old(s).admin_users@
            &&& masters_unchanged(*old(s), *final(s))
        }),
{
    proof {
        reveal(Seq::filter);
    }
    let u = match crate::state::find_user(&s.users, user_id) {
        Some(u) => u,
        None => {
            return Err(Error::UserNotFound);
        },
    };
    let user_row = s.users[u];

    // the owned stock rows
    let n1 = s.user_items.len();
    let mut item_list: Vec<UserItem> = Vec::new();
    proof {
        assert(s.user_items@.take(0) =~= Seq::<UserItem>::empty());
        assert(s.user_items@.take(0).filter(p_item_of_user(user_id)) =~= Seq::<UserItem>::empty());
    }
    let mut i: usize = 0;
    while i < n1
        invariant
            0 <= i <= n1,
            item_list@ == s.user_items@.take(i as int).filter(p_item_of_user(user_id)),
        decreases n1 - i,
    {
        proof {
            reveal(Seq::filter);
            assert(s.user_items@.take(i as int + 1).drop_last() =~= s.user_items@.take(i as int));
            assert(s.user_items@.take(i as int + 1).last() == s.user_items@[i as int]);
        }
        if s.user_items[i].user_id == user_id {
            item_list.push(s.user_items[i]);
        }
        i = i + 1;
    }
    proof {
        assert(s.user_items@.take(n1 as int) =~= s.user_items@);
    }

    // the owned card instances
    let n2 = s.user_cards.len();
    let mut card_list: Vec<UserCard> = Vec::new();
    proof {
        assert(s.user_cards@.take(0) =~= Seq::<UserCard>::empty());
        assert(s.user_cards@.take(0).filter(p_card_of_user(user_id)) =~= Seq::<UserCard>::empty());
    }
    let mut i2: usize = 0;
    while i2 < n2
        invariant
            0 <= i2 <= n2,
            card_list@ == s.user_cards@.take(i2 as int).filter(p_card_of_user(user_id)),
        decreases n2 - i2,
    {
        proof {
            reveal(Seq::filter);
            assert(s.user_cards@.take(i2 as int + 1).drop_last() =~= s.user_cards@.take(i2 as int));
            assert(s.user_cards@.take(i2 as int + 1).last() == s.user_cards@[i2 as int]);
        }
        if s.user_cards[i2].user_id == user_id {
            card_list.push(s.user_cards[i2]);
        }
        i2 = i2 + 1;
    }
    proof {
        assert(s.user_cards@.take(n2 as int) =~= s.user_cards@);
    }

    // rotate the user's live tokens and issue a fresh leveling token
    crate::state::tombstone_live_tokens_of_user(&mut s.tokens, user_id, now);
    let t_id = crate::state::generate_id(s);
    let tk = crate::external::generate_uuid();
    let token = crate::model::UserOneTimeToken {
        id: t_id,
        user_id: user_id,
        token: tk,
        token_type: 2,
        created_at: now,
        updated_at: now,
        expired_at: now + 600,
        deleted_at: None,
    };
    let token_string = token.token.clone();
    s.tokens.push(token);

    Ok((token_string, user_row, item_list, card_list))
}

} // verus!
