//! The login-bonus engine: for every bonus whose window is open, advance the
//! user's progress through the reward sequence — capped at the column count
//! unless the bonus loops — and grant the reward at the new position.
use vstd::prelude::*;

use crate::Error;
use crate::model::ItemMaster;
use crate::model::LoginBonusMaster;
use crate::model::LoginBonusRewardMaster;
use crate::model::UserLoginBonus;
use crate::state::GameState;
use crate::state::copy_item_masters;
use crate::state::copy_rows;
use crate::state::find_bonus_reward;
use crate::state::find_user_bonus;
use crate::state::first_idx;
use crate::state::generate_id;
use crate::state::masters_unchanged;
use crate::state::masters_wf;
use crate::state::p_bonus_reward;
use crate::state::p_user_bonus;
use crate::state::sat64;
use crate::state::sat_add;
use crate::grant::GrantView;
use crate::grant::grant_error;
use crate::grant::grant_valid;
use crate::grant::grant_view;
use crate::grant::obtain_item;
use crate::grant::sp_grant;

verus! {

/// A bonus definition whose active window contains `now`.
pub open spec fn p_active_bonus(now: i64) -> spec_fn(LoginBonusMaster) -> bool {
    |x: LoginBonusMaster| x.start_at <= now && x.end_at >= now
}

/// A fresh progress row: nothing rewarded yet, first pass through the
/// sequence.
pub open spec fn fresh_bonus_row(id: i64, user_id: i64, login_bonus_id: i64, now: i64) -> UserLoginBonus {
    UserLoginBonus {
        id: id,
        user_id: user_id,
        login_bonus_id: login_bonus_id,
        last_reward_sequence: 0,
        loop_count: 1,
        created_at: now,
        updated_at: now,
        deleted_at: None,
    }
}

/// Advance one progress row through its bonus: below the column count the
/// sequence steps forward; at the cap a looping bonus wraps to position one
/// and counts the loop; a non-looping bonus is exhausted and yields nothing.
pub open spec fn sp_advance_bonus(b: UserLoginBonus, m: LoginBonusMaster, now: i64) -> Option<
    UserLoginBonus,
> {
    if b.last_reward_sequence < m.column_count {
        Some(
            UserLoginBonus {
                last_reward_sequence: (b.last_reward_sequence + 1) as i64,
                updated_at: now,
                ..b
            },
        )
    } else if m.looped {
        Some(
            UserLoginBonus {
                last_reward_sequence: 1,
                loop_count: sat64(b.loop_count + 1) as i64,
                updated_at: now,
                ..b
            },
        )
    } else {
        None
    }
}

/// With at least one column, advancing keeps a progress row inside the
/// sequence bounds: the new position stays in `[1, column_count]`, and the
/// loop count never decreases — the reward sequence never runs past the cap,
/// and only a looping bonus wraps it back to one.
pub proof fn lemma_advance_keeps_sequence_bounds(b: UserLoginBonus, m: LoginBonusMaster, now: i64)
    requires
        1 <= m.column_count,
        0 <= b.last_reward_sequence,
        1 <= b.loop_count,
    ensures
        sp_advance_bonus(b, m, now) matches Some(b1) ==> (1 <= b1.last_reward_sequence
            <= m.column_count && b1.loop_count >= b.loop_count),
{
}

/// The progress table after saving an advanced row: every row with its id
/// takes the new sequence position, loop count and update stamp.
pub open spec fn sp_bonus_write(table: Seq<UserLoginBonus>, b1: UserLoginBonus) -> Seq<
    UserLoginBonus,
> {
    table.map(|j: int, x: UserLoginBonus| if x.id == b1.id {
        UserLoginBonus {
            last_reward_sequence: b1.last_reward_sequence,
            loop_count: b1.loop_count,
            updated_at: b1.updated_at,
            ..x
        }
    } else {
        x
    })
}

/// The tables one bonus pass threads.
pub ghost struct BonusFold {
    pub bonuses: Seq<UserLoginBonus>,
    pub g: GrantView,
    pub granted: Seq<UserLoginBonus>,
}

/// One bonus definition's step: load or initialize the progress row (a fresh
/// row draws an id even when the bonus turns out exhausted), advance it, look
/// up the reward at the new position, grant it, and save the row. A missing
/// reward row or an invalid grant aborts the whole pass.
pub open spec fn sp_bonus_step(
    f: BonusFold,
    m: LoginBonusMaster,
    rewards: Seq<LoginBonusRewardMaster>,
    im: Seq<ItemMaster>,
    user_id: i64,
    now: i64,
) -> Result<BonusFold, Error> {
    let found = first_idx(f.bonuses, p_user_bonus(user_id, m.id));
    let init_new = found is None;
    let b0 = if init_new {
        fresh_bonus_row((f.g.next_id + 1) as i64, user_id, m.id, now)
    } else {
        f.bonuses[found->0]
    };
    let g1 = if init_new {
        GrantView { next_id: f.g.next_id + 1, ..f.g }
    } else {
        f.g
    };
    match sp_advance_bonus(b0, m, now) {
        None => Ok(BonusFold { g: g1, ..f }),
        Some(b1) => {
            match first_idx(rewards, p_bonus_reward(m.id, b1.last_reward_sequence)) {
                None => Err(Error::LoginBonusRewardNotFound),
                Some(ri) => {
                    let rw = rewards[ri];
                    if grant_valid(g1.users, im, user_id, rw.item_type, rw.item_id) {
                        let g2 = sp_grant(g1, im, user_id, rw.item_type, rw.item_id, rw.amount, now);
                        let bonuses2 = if init_new {
                            f.bonuses.push(b1)
                        } else {
                            sp_bonus_write(f.bonuses, b1)
                        };
                        Ok(BonusFold { bonuses: bonuses2, g: g2, granted: f.granted.push(b1) })
                    } else {
                        Err(grant_error(rw.item_type))
                    }
                },
            }
        },
    }
}

/// The cap, at the pass itself: when the user's progress row for a
/// non-looping bonus already sits at the column count, that bonus's step of
/// the pass changes nothing at all and grants nothing.
pub proof fn lemma_bonus_step_exhausted(
    f: BonusFold,
    m: LoginBonusMaster,
    rewards: Seq<LoginBonusRewardMaster>,
    im: Seq<ItemMaster>,
    user_id: i64,
    now: i64,
)
    requires
        first_idx(f.bonuses, p_user_bonus(user_id, m.id)) is Some,
        ({
            let i = first_idx(f.bonuses, p_user_bonus(user_id, m.id))->0;
            f.bonuses[i].last_reward_sequence >= m.column_count
        }),
        !m.looped,
    ensures
        sp_bonus_step(f, m, rewards, im, user_id, now) == Result::<BonusFold, Error>::Ok(f),
{
}

/// The wrap, at the pass itself: when the user's progress row for a looping
/// bonus sits at the column count, that bonus's step resets the sequence to
/// one, counts the loop, grants the first reward again, and reports the row.
pub proof fn lemma_bonus_step_wraps(
    f: BonusFold,
    m: LoginBonusMaster,
    rewards: Seq<LoginBonusRewardMaster>,
    im: Seq<ItemMaster>,
    user_id: i64,
    now: i64,
)
    requires
        first_idx(f.bonuses, p_user_bonus(user_id, m.id)) is Some,
        ({
            let i = first_idx(f.bonuses, p_user_bonus(user_id, m.id))->0;
            f.bonuses[i].last_reward_sequence >= m.column_count
        }),
        m.looped,
        first_idx(rewards, p_bonus_reward(m.id, 1)) is Some,
        ({
            let ri = first_idx(rewards, p_bonus_reward(m.id, 1))->0;
            grant_valid(f.g.users, im, user_id, rewards[ri].item_type, rewards[ri].item_id)
        }),
    ensures
        ({
            let i = first_idx(f.bonuses, p_user_bonus(user_id, m.id))->0;
            let ri = first_idx(rewards, p_bonus_reward(m.id, 1))->0;
            let rw = rewards[ri];
            let b1 = UserLoginBonus {
                last_reward_sequence: 1,
                loop_count: sat64(f.bonuses[i].loop_count + 1) as i64,
                updated_at: now,
                ..f.bonuses[i]
            };
            sp_bonus_step(f, m, rewards, im, user_id, now) == Result::<BonusFold, Error>::Ok(
                BonusFold {
                    bonuses: sp_bonus_write(f.bonuses, b1),
                    g: sp_grant(f.g, im, user_id, rw.item_type, rw.item_id, rw.amount, now),
                    granted: f.granted.push(b1),
                },
            )
        }),
{
}

/// The whole pass over the active bonus definitions, in table order; the
/// first failing step aborts everything.
pub open spec fn sp_obtain_bonus(
    active: Seq<LoginBonusMaster>,
    init: BonusFold,
    rewards: Seq<LoginBonusRewardMaster>,
    im: Seq<ItemMaster>,
    user_id: i64,
    now: i64,
) -> Result<BonusFold, Error>
    decreases active.len(),
{
    if active.len() == 0 {
        Ok(init)
    } else {
        match sp_obtain_bonus(active.drop_last(), init, rewards, im, user_id, now) {
            Err(e) => Err(e),
            Ok(prev) => sp_bonus_step(prev, active.last(), rewards, im, user_id, now),
        }
    }
}

/// An error in a prefix of the pass is the error of the whole pass.
pub proof fn lemma_bonus_fold_err_persists(
    active: Seq<LoginBonusMaster>,
    init: BonusFold,
    rewards: Seq<LoginBonusRewardMaster>,
    im: Seq<ItemMaster>,
    user_id: i64,
    now: i64,
    k: int,
)
    requires
        0 <= k <= active.len(),
        sp_obtain_bonus(active.take(k), init, rewards, im, user_id, now) is Err,
    ensures
        sp_obtain_bonus(active, init, rewards, im, user_id, now) == sp_obtain_bonus(
            active.take(k),
            init,
            rewards,
            im,
            user_id,
            now,
        ),
    decreases active.len() - k,
{
    if k < active.len() {
        assert(active.take(k + 1).drop_last() =~= active.take(k));
        lemma_bonus_fold_err_persists(active, init, rewards, im, user_id, now, k + 1);
    } else {
        assert(active.take(k) =~= active);
    }
}

/// The bonus fold state a store holds.
pub open spec fn bonus_fold_of(s: GameState) -> BonusFold {
    BonusFold { bonuses: s.user_login_bonuses@, g: grant_view(s), granted: Seq::empty() }
}

/// The active bonus definitions, in table order.
#[verifier::loop_isolation(false)]
fn collect_active_bonuses(rows: &Vec<LoginBonusMaster>, now: i64) -> (r: Vec<LoginBonusMaster>)
    ensures
        r@ == rows@.filter(p_active_bonus(now)),
{
    proof {
        reveal(Seq::filter);
    }
    let n = rows.len();
    let mut r: Vec<LoginBonusMaster> = Vec::new();
    proof {
        assert(rows@.take(0) =~= Seq::<LoginBonusMaster>::empty());
        assert(rows@.take(0).filter(p_active_bonus(now)) =~= Seq::<LoginBonusMaster>::empty());
    }
    let mut i: usize = 0;
    while i < n
        invariant
            0 <= i <= n,
            r@ == rows@.take(i as int).filter(p_active_bonus(now)),
        decreases n - i,
    {
        proof {
            reveal(Seq::filter);
            assert(rows@.take(i as int + 1).drop_last() =~= rows@.take(i as int));
            assert(rows@.take(i as int + 1).last() == rows@[i as int]);
        }
        if rows[i].start_at <= now && rows[i].end_at >= now {
            r.push(rows[i]);
        }
        i = i + 1;
    }
    proof {
        assert(rows@.take(n as int) =~= rows@);
    }
    r
}

/// Save an advanced progress row over every row carrying its id.
fn bonus_write(rows: &mut Vec<UserLoginBonus>, b1: &UserLoginBonus)
    ensures
        final(rows)@ == sp_bonus_write(old(rows)@, *b1),
{
    let n = rows.len();
    let mut i: usize = 0;
    while i < n
        invariant
            n == rows@.len(),
            0 <= i <= n,
            forall|j: int|
                0 <= j < i ==> rows@[j] == (if old(rows)@[j].id == b1.id {
                    UserLoginBonus {
                        last_reward_sequence: b1.last_reward_sequence,
                        loop_count: b1.loop_count,
                        updated_at: b1.updated_at,
                        ..old(rows)@[j]
                    }
                } else {
                    old(rows)@[j]
                }),
            forall|j: int| i <= j < n ==> rows@[j] == old(rows)@[j],
        decreases n - i,
    {
        if rows[i].id == b1.id {
            rows[i].last_reward_sequence = b1.last_reward_sequence;
            rows[i].loop_count = b1.loop_count;
            rows[i].updated_at = b1.updated_at;
        }
        i = i + 1;
    }
    proof {
        assert(rows@ =~= sp_bonus_write(old(rows)@, *b1));
    }
}

/// Run the login-bonus pass for one qualifying login, inside the caller's
/// transaction: every active bonus advances (or initializes) the user's
/// progress row and grants the reward at the new position; an exhausted
/// non-looping bonus is skipped. On any failure nothing at all is changed.
/// Returns the progress rows that earned a reward.
#[verifier::loop_isolation(false)]
#[verifier::rlimit(100)]
pub fn obtain_login_bonus(s: &mut GameState, user_id: i64, now: i64) -> (r: Result<
    Vec<UserLoginBonus>,
    Error,
>)
    requires
        masters_wf(*old(s)),
        old(s).next_entity_id + 2 * old(s).login_bonus_masters@.len() <= i64::MAX,
    ensures
        ({
            let fold = sp_obtain_bonus(
                old(s).login_bonus_masters@.filter(p_active_bonus(now)),
                bonus_fold_of(*old(s)),
                old(s).login_bonus_reward_masters@,
                old(s).item_masters@,
                user_id,
                now,
            );
            &&& (r is Ok <==> fold is Ok)
            &&& (r matches Ok(v) ==> {
                let f = fold->Ok_0;
                &&& v@ == f.granted
                &&& final(s).user_login_bonuses@ == f.bonuses
                &&& grant_view(*final(s)) == f.g
                &&& final(s).user_presents@ == old(s).user_presents@
                &&& final(s).present_history@ == old(s).present_history@
                &&& final(s).sessions@ == old(s).sessions@
                &&& final(s).admin_sessions@ == old(s).admin_sessions@
                &&& final(s).tokens@ == old(s).tokens@
                &&& final(s).user_devices@ == old(s).user_devices@
                &&& final(s).user_bans@ == old(s).user_bans@
                &&& final(s).user_decks@ == old(s).user_decks@
                &&& final(s).admin_users@ == old(s).admin_users@
                &&& masters_unchanged(*old(s), *final(s))
            })
            &&& (r matches Err(e) ==> fold == Result::<BonusFold, Error>::Err(e) && *final(s)
                == *old(s))
        }),
        r is Ok ==> old(s).next_entity_id <= final(s).next_entity_id <= old(s).next_entity_id + 2
            * old(s).login_bonus_masters@.len(),
{
    let active = collect_active_bonuses(&s.login_bonus_masters, now);

    // work on a scratch copy of the touched tables: the transaction commits
    // in full or not at all
    let mut scratch = GameState {
        next_entity_id: s.next_entity_id,
        users: copy_rows(&s.users),
        user_devices: Vec::new(),
        user_bans: Vec::new(),
        sessions: Vec::new(),
        admin_sessions: Vec::new(),
        tokens: Vec::new(),
        user_cards: copy_rows(&s.user_cards),
        user_decks: Vec::new(),
        user_items: copy_rows(&s.user_items),
        user_login_bonuses: copy_rows(&s.user_login_bonuses),
        user_presents: Vec::new(),
        present_history: Vec::new(),
        admin_users: Vec::new(),
        version_masters: Vec::new(),
        item_masters: copy_item_masters(&s.item_masters),
        gacha_masters: Vec::new(),
        gacha_item_masters: Vec::new(),
        login_bonus_masters: Vec::new(),
        login_bonus_reward_masters: copy_rows(&s.login_bonus_reward_masters),
        present_all_masters: Vec::new(),
    };
    proof {
        assert(masters_wf(scratch)) by {
            assert(forall|j: int|
                0 <= j < scratch.item_masters@.len() ==> #[trigger] crate::state::item_master_wf(
                    scratch.item_masters@[j],
                ));
        }
        assert(bonus_fold_of(scratch) == bonus_fold_of(*old(s)));
    }

    let ghost active_seq = active@;
    let ghost init = bonus_fold_of(*s);
    let ghost rewards = s.login_bonus_reward_masters@;
    let ghost im = s.item_masters@;
    let mut send_login_bonuses: Vec<UserLoginBonus> = Vec::new();
    let n = active.len();
    proof {
        assert(active_seq.take(0) =~= Seq::<LoginBonusMaster>::empty());
    }
    let mut k: usize = 0;
    while k < n
        invariant
            0 <= k <= n,
            n == active_seq.len(),
            active_seq.len() <= old(s).login_bonus_masters@.len(),
            ({
                let fold = sp_obtain_bonus(active_seq.take(k as int), init, rewards, im, user_id, now);
                &&& fold is Ok
                &&& scratch.user_login_bonuses@ == fold->Ok_0.bonuses
                &&& grant_view(scratch) == fold->Ok_0.g
                &&& send_login_bonuses@ == fold->Ok_0.granted
                &&& init.g.next_id <= fold->Ok_0.g.next_id <= init.g.next_id + 2 * k
            }),
            scratch.item_masters@ == im,
            scratch.login_bonus_reward_masters@ == rewards,
            scratch.gacha_item_masters@.len() == 0,
            masters_wf(scratch),
        decreases n - k,
    {
        proof {
            assert(active_seq.take(k as int + 1).drop_last() =~= active_seq.take(k as int));
            assert(active_seq.take(k as int + 1).last() == active_seq[k as int]);
        }
        let m = active[k];
        let mut init_new = false;
        let b0 = match find_user_bonus(&scratch.user_login_bonuses, user_id, m.id) {
            Some(i) => scratch.user_login_bonuses[i],
            None => {
                init_new = true;
                let ub_id = generate_id(&mut scratch);
                UserLoginBonus {
                    id: ub_id,
                    user_id: user_id,
                    login_bonus_id: m.id,
                    last_reward_sequence: 0,
                    loop_count: 1,
                    created_at: now,
                    updated_at: now,
                    deleted_at: None,
                }
            },
        };

        let b1 = if b0.last_reward_sequence < m.column_count {
            UserLoginBonus {
                last_reward_sequence: b0.last_reward_sequence + 1,
                updated_at: now,
                ..b0
            }
        } else if m.looped {
            UserLoginBonus {
                last_reward_sequence: 1,
                loop_count: sat_add(b0.loop_count, 1),
                updated_at: now,
                ..b0
            }
        } else {
            // exhausted: nothing granted, no row saved
            k = k + 1;
            continue ;
        };

        let reward_item = match find_bonus_reward(
            &scratch.login_bonus_reward_masters,
            m.id,
            b1.last_reward_sequence,
        ) {
            Some(ri) => scratch.login_bonus_reward_masters[ri],
            None => {
                proof {
                    lemma_bonus_fold_err_persists(
                        active_seq,
                        init,
                        rewards,
                        im,
                        user_id,
                        now,
                        k as int + 1,
                    );
                }
                return Err(Error::LoginBonusRewardNotFound);
            },
        };

        let grant_result = obtain_item(
            &mut scratch,
            user_id,
            reward_item.item_id,
            reward_item.item_type,
            reward_item.amount,
            now,
        );
        if let Err(e) = grant_result {
            proof {
                lemma_bonus_fold_err_persists(
                    active_seq,
                    init,
                    rewards,
                    im,
                    user_id,
                    now,
                    k as int + 1,
                );
            }
            return Err(e);
        }

        if init_new {
            scratch.user_login_bonuses.push(b1);
        } else {
            bonus_write(&mut scratch.user_login_bonuses, &b1);
        }
        send_login_bonuses.push(b1);
        k = k + 1;
    }
    proof {
        assert(active_seq.take(n as int) =~= active_seq);
        old(s).login_bonus_masters@.lemma_filter_len(p_active_bonus(now));
    }

    // commit the transaction
    s.next_entity_id = scratch.next_entity_id;
    s.users = scratch.users;
    s.user_cards = scratch.user_cards;
    s.user_items = scratch.user_items;
    s.user_login_bonuses = scratch.user_login_bonuses;

    Ok(send_login_bonuses)
}

/// Progress after `k` qualifying logins from a fresh row.
pub open spec fn sp_advance_iter(b: UserLoginBonus, m: LoginBonusMaster, now: i64, k: nat) -> Option<
    UserLoginBonus,
>
    decreases k,
{
    if k == 0 {
        Some(b)
    } else {
        match sp_advance_iter(b, m, now, (k - 1) as nat) {
            Some(bp) => sp_advance_bonus(bp, m, now),
            None => None,
        }
    }
}

/// Login bonus cap: starting fresh, each of the first `column_count`
/// qualifying logins advances the sequence by one; after that, a non-looping
/// bonus yields nothing on every further login, while a looping bonus wraps
/// to position one and counts the next loop.
pub proof fn lemma_login_bonus_cap_and_loop(
    b0: UserLoginBonus,
    m: LoginBonusMaster,
    now: i64,
    k: nat,
)
    requires
        b0.last_reward_sequence == 0,
        b0.loop_count == 1,
        1 <= m.column_count,
        k <= m.column_count,
    ensures
        ({
            let bk = sp_advance_iter(b0, m, now, k);
            &&& bk is Some
            &&& bk->0.last_reward_sequence == k
            &&& bk->0.loop_count == 1
        }),
        k == m.column_count && !m.looped ==> sp_advance_iter(b0, m, now, (k + 1) as nat) is None,
        k == m.column_count && m.looped ==> ({
            let bn = sp_advance_iter(b0, m, now, (k + 1) as nat);
            &&& bn is Some
            &&& bn->0.last_reward_sequence == 1
            &&& bn->0.loop_count == 2
        }),
    decreases k,
{
    if k > 0 {
        lemma_login_bonus_cap_and_loop(b0, m, now, (k - 1) as nat);
    }
}

/// Once exhausted, a non-looping bonus stays exhausted: no later login can
/// advance it again.
pub proof fn lemma_login_bonus_exhausted_stays(
    b: UserLoginBonus,
    m: LoginBonusMaster,
    now: i64,
    k: nat,
)
    requires
        !m.looped,
        b.last_reward_sequence >= m.column_count,
        k >= 1,
    ensures
        sp_advance_iter(b, m, now, k) is None,
    decreases k,
{
    if k > 1 {
        lemma_login_bonus_exhausted_stays(b, m, now, (k - 1) as nat);
    } else {
        assert(sp_advance_iter(b, m, now, 0) == Some(b));
        assert(sp_advance_bonus(b, m, now) is None);
    }
}

} // verus!
