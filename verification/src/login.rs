//! Login processing: registration, session rotation, the daily-login gate on
//! the fixed UTC+9 civil calendar, and the per-login bonus and broadcast
//! present passes, all inside one transaction.
use vstd::prelude::*;

use crate::Error;
use crate::external::generate_uuid;
use crate::external::jst_day;
use crate::external::same_civil_day_jst;
use crate::external::ts_ok;
use crate::model::Session;
use crate::model::User;
use crate::model::UserCard;
use crate::model::UserDeck;
use crate::model::UserDevice;
use crate::model::UserLoginBonus;
use crate::model::UserPresent;
use crate::state::GameState;
use crate::state::find_item_master_by_id;
use crate::state::find_user;
use crate::state::first_idx;
use crate::state::generate_id;
use crate::state::lemma_first_idx_pointwise;
use crate::state::masters_unchanged;
use crate::state::masters_wf;
use crate::state::p_item_master_id;
use crate::state::p_user;
use crate::state::session_tombstoned;
use crate::state::snapshot_state;
use crate::state::tables_unchanged;
use crate::state::tombstone_live_sessions_of_user;
use crate::admission::check_ban;
use crate::admission::check_viewer_id;
use crate::admission::device_bound;
use crate::loginbonus::BonusFold;
use crate::loginbonus::bonus_fold_of;
use crate::loginbonus::obtain_login_bonus;
use crate::loginbonus::p_active_bonus;
use crate::loginbonus::sp_obtain_bonus;
use crate::present::PresentFold;
use crate::present::obtain_present;
use crate::present::sp_obtain_present;

verus! {

/// Nothing in the store changed.
pub open spec fn state_unchanged(pre: GameState, post: GameState) -> bool {
    &&& post.next_entity_id == pre.next_entity_id
    &&& tables_unchanged(pre, post)
}

/// A user row with its activity stamps set to the request time.
pub open spec fn stamped_user(x: User, now: i64) -> User {
    User { updated_at: now, last_activated_at: now, ..x }
}

/// The user table after the login stamp: every row with the user's id takes
/// the request time.
pub open spec fn sp_user_stamp(users: Seq<User>, user_id: i64, now: i64) -> Seq<User> {
    users.map(|j: int, x: User| if x.id == user_id {
        stamped_user(x, now)
    } else {
        x
    })
}

/// Stamp the login on every user row with this id.
fn user_stamp_write(rows: &mut Vec<User>, user_id: i64, now: i64)
    ensures
        final(rows)@ == sp_user_stamp(old(rows)@, user_id, now),
{
    let n = rows.len();
    let mut i: usize = 0;
    while i < n
        invariant
            n == rows@.len(),
            0 <= i <= n,
            forall|j: int|
                0 <= j < i ==> rows@[j] == (if old(rows)@[j].id == user_id {
                    stamped_user(old(rows)@[j], now)
                } else {
                    old(rows)@[j]
                }),
            forall|j: int| i <= j < n ==> rows@[j] == old(rows)@[j],
        decreases n - i,
    {
        if rows[i].id == user_id {
            rows[i].updated_at = now;
            rows[i].last_activated_at = now;
        }
        i = i + 1;
    }
    proof {
        assert(rows@ =~= sp_user_stamp(old(rows)@, user_id, now));
    }
}

/// The bonus pass never changes a user row's id (it only accumulates coins),
/// so user lookups stay stable across it.
pub proof fn lemma_bonus_fold_users_ids(
    active: Seq<crate::model::LoginBonusMaster>,
    init: BonusFold,
    rewards: Seq<crate::model::LoginBonusRewardMaster>,
    im: Seq<crate::model::ItemMaster>,
    user_id: i64,
    now: i64,
)
    ensures
        ({
            let fold = sp_obtain_bonus(active, init, rewards, im, user_id, now);
            fold matches Ok(f) ==> f.g.users.len() == init.g.users.len() && (forall|j: int|
                0 <= j < init.g.users.len() ==> (#[trigger] f.g.users[j]).id == init.g.users[j].id)
        }),
    decreases active.len(),
{
    if active.len() > 0 {
        lemma_bonus_fold_users_ids(active.drop_last(), init, rewards, im, user_id, now);
    }
}

/// The exact behaviour of one login-processing transaction: the user row is
/// reloaded, the bonus pass and the broadcast fan-out run, the balance is
/// re-read, and the activity stamps take the request time. The returned user
/// row is the stored one; any failure leaves the store untouched.
pub open spec fn login_process_rel(
    pre: GameState,
    post: GameState,
    user_id: i64,
    now: i64,
    r: Result<(User, Vec<UserLoginBonus>, Vec<UserPresent>), Error>,
) -> bool {
    let user_found = first_idx(pre.users@, p_user(user_id));
    let bfold = sp_obtain_bonus(
        pre.login_bonus_masters@.filter(p_active_bonus(now)),
        bonus_fold_of(pre),
        pre.login_bonus_reward_masters@,
        pre.item_masters@,
        user_id,
        now,
    );
    if user_found is None {
        r == Result::<(User, Vec<UserLoginBonus>, Vec<UserPresent>), Error>::Err(
            Error::UserNotFound,
        ) && state_unchanged(pre, post)
    } else if bfold is Err {
        r == Result::<(User, Vec<UserLoginBonus>, Vec<UserPresent>), Error>::Err(bfold->Err_0)
            && state_unchanged(pre, post)
    } else {
        let f1 = bfold->Ok_0;
        let pf = sp_obtain_present(
            pre.present_all_masters@,
            PresentFold {
                presents: pre.user_presents@,
                history: pre.present_history@,
                granted: Seq::empty(),
                next_id: f1.g.next_id,
            },
            user_id,
            now,
        );
        &&& post.users@ == sp_user_stamp(f1.g.users, user_id, now)
        &&& post.user_cards@ == f1.g.cards
        &&& post.user_items@ == f1.g.items
        &&& post.user_login_bonuses@ == f1.bonuses
        &&& post.user_presents@ == pf.presents
        &&& post.present_history@ == pf.history
        &&& post.next_entity_id == pf.next_id
        &&& post.sessions@ == pre.sessions@
        &&& post.admin_sessions@ == pre.admin_sessions@
        &&& post.tokens@ == pre.tokens@
        &&& post.user_devices@ == pre.user_devices@
        &&& post.user_bans@ == pre.user_bans@
        &&& post.user_decks@ == pre.user_decks@
        &&& post.admin_users@ == pre.admin_users@
        &&& masters_unchanged(pre, post)
        &&& (r matches Ok(v) && v.0 == sp_user_stamp(f1.g.users, user_id, now)[user_found->0]
            && v.1@ == f1.granted && v.2@ == pf.granted)
    }
}

/// One login-processing transaction; see [`login_process_rel`].
#[verifier::rlimit(60)]
pub fn login_process(s: &mut GameState, user_id: i64, now: i64) -> (r: Result<
    (User, Vec<UserLoginBonus>, Vec<UserPresent>),
    Error,
>)
    requires
        masters_wf(*old(s)),
        old(s).next_entity_id + 2 * old(s).login_bonus_masters@.len() + 2 * old(
            s,
        ).present_all_masters@.len() <= i64::MAX,
    ensures
        login_process_rel(*old(s), *final(s), user_id, now, r),
        old(s).next_entity_id <= final(s).next_entity_id <= old(s).next_entity_id + 2 * old(
            s,
        ).login_bonus_masters@.len() + 2 * old(s).present_all_masters@.len(),
{
    let u = match find_user(&s.users, user_id) {
        Some(u) => u,
        None => {
            return Err(Error::UserNotFound);
        },
    };

    let login_bonuses = match obtain_login_bonus(s, user_id, now) {
        Ok(v) => v,
        Err(e) => {
            return Err(e);
        },
    };

    let all_presents = obtain_present(s, user_id, now);

    proof {
        lemma_bonus_fold_users_ids(
            old(s).login_bonus_masters@.filter(p_active_bonus(now)),
            bonus_fold_of(*old(s)),
            old(s).login_bonus_reward_masters@,
            old(s).item_masters@,
            user_id,
            now,
        );
        lemma_first_idx_pointwise(old(s).users@, s.users@, p_user(user_id));
    }
    let u2 = match find_user(&s.users, user_id) {
        Some(u2) => u2,
        None => {
            proof {
                assert(false);
            }
            return Err(Error::UserNotFound);
        },
    };

    user_stamp_write(&mut s.users, user_id, now);
    let user_row = s.users[u2];
    Ok((user_row, login_bonuses, all_presents))
}

/// Whether the last activation and the request instant fall on the same
/// civil date of the fixed UTC+9 calendar — i.e. the user already completed
/// a login today.
pub fn is_complete_today_login(last_activated_at: i64, request_at: i64) -> (r: bool)
    requires
        ts_ok(last_activated_at as int),
        ts_ok(request_at as int),
    ensures
        r == (jst_day(last_activated_at as int) == jst_day(request_at as int)),
{
    same_civil_day_jst(last_activated_at, request_at)
}

/// Every user row carries a timestamp the calendar accepts.
pub open spec fn users_ts_wf(users: Seq<User>) -> bool {
    forall|j: int| 0 <= j < users.len() ==> ts_ok((#[trigger] users[j]).last_activated_at as int)
}

/// What a login returns: the rotated session, the user row as stored, and —
/// when the daily processing ran — the advanced bonuses and boxed presents.
pub struct LoginOutcome {
    pub session: Session,
    pub user: User,
    pub login_bonuses: Vec<UserLoginBonus>,
    pub presents: Vec<UserPresent>,
    pub processed: bool,
}

/// The session table after rotation: live sessions of the user are
/// tombstoned and the fresh session appended.
pub open spec fn sp_session_rotation(
    sessions: Seq<Session>,
    user_id: i64,
    now: i64,
    fresh: Session,
) -> Seq<Session> {
    sessions.map(
        |j: int, x: Session|
            if x.user_id == user_id && x.deleted_at is None {
                session_tombstoned(x, now)
            } else {
                x
            },
    ).push(fresh)
}

/// The fresh session row issued at login, under the given opaque id.
pub open spec fn fresh_session(id: i64, user_id: i64, session_id: String, now: i64) -> Session {
    Session {
        id: id,
        user_id: user_id,
        session_id: session_id,
        created_at: now,
        updated_at: now,
        expired_at: (now + 86400) as i64,
        deleted_at: None,
    }
}

/// Log a user in: authenticate the device binding, rotate the session, and —
/// unless the user already completed a login on this UTC+9 civil day — run
/// the bonus and broadcast passes. Everything commits atomically; any
/// failure leaves the store untouched.
#[verifier::rlimit(100)]
pub fn login(s: &mut GameState, user_id: i64, viewer_id: &String, now: i64) -> (r: Result<
    LoginOutcome,
    Error,
>)
    requires
        masters_wf(*old(s)),
        users_ts_wf(old(s).users@),
        ts_ok(now as int),
        old(s).next_entity_id + 1 + 2 * old(s).login_bonus_masters@.len() + 2 * old(
            s,
        ).present_all_masters@.len() <= i64::MAX,
    ensures
        first_idx(old(s).users@, p_user(user_id)) is None ==> r == Result::<
            LoginOutcome,
            Error,
        >::Err(Error::UserNotFound) && state_unchanged(*old(s), *final(s)),
        first_idx(old(s).users@, p_user(user_id)) is Some ==> ({
            let u = first_idx(old(s).users@, p_user(user_id))->0;
            let user0 = old(s).users@[u];
            if crate::admission::banned(*old(s), user_id) {
                r == Result::<LoginOutcome, Error>::Err(Error::Forbidden) && state_unchanged(
                    *old(s),
                    *final(s),
                )
            } else if !device_bound(old(s).user_devices@, user_id, viewer_id@) {
                r == Result::<LoginOutcome, Error>::Err(Error::UserDeviceNotFound)
                    && state_unchanged(*old(s), *final(s))
            } else {
                exists|mid: GameState|
                    {
                        &&& #[trigger] mid.sessions@ == sp_session_rotation(
                            old(s).sessions@,
                            user_id,
                            now,
                            fresh_session(
                                (old(s).next_entity_id + 1) as i64,
                                user_id,
                                mid.sessions@.last().session_id,
                                now,
                            ),
                        )
                        &&& mid.sessions@.last().session_id@.len() == 36
                        &&& mid.next_entity_id == old(s).next_entity_id + 1
                        &&& mid.users@ == old(s).users@
                        &&& mid.user_devices@ == old(s).user_devices@
                        &&& mid.user_bans@ == old(s).user_bans@
                        &&& mid.admin_sessions@ == old(s).admin_sessions@
                        &&& mid.tokens@ == old(s).tokens@
                        &&& mid.user_cards@ == old(s).user_cards@
                        &&& mid.user_decks@ == old(s).user_decks@
                        &&& mid.user_items@ == old(s).user_items@
                        &&& mid.user_login_bonuses@ == old(s).user_login_bonuses@
                        &&& mid.user_presents@ == old(s).user_presents@
                        &&& mid.present_history@ == old(s).present_history@
                        &&& mid.admin_users@ == old(s).admin_users@
                        &&& masters_unchanged(*old(s), mid)
                        &&& (r matches Ok(v) ==> v.session == mid.sessions@.last())
                        &&& if jst_day(user0.last_activated_at as int) == jst_day(now as int) {
                            // already logged in today: only the stamps move
                            &&& final(s).sessions@ == mid.sessions@
                            &&& final(s).next_entity_id == mid.next_entity_id
                            &&& final(s).users@ == sp_user_stamp(old(s).users@, user_id, now)
                            &&& final(s).user_cards@ == old(s).user_cards@
                            &&& final(s).user_items@ == old(s).user_items@
                            &&& final(s).user_login_bonuses@ == old(s).user_login_bonuses@
                            &&& final(s).user_presents@ == old(s).user_presents@
                            &&& final(s).present_history@ == old(s).present_history@
                            &&& final(s).tokens@ == old(s).tokens@
                            &&& final(s).user_decks@ == old(s).user_decks@
                            &&& masters_unchanged(*old(s), *final(s))
                            &&& (r matches Ok(v) && v.processed == false && v.login_bonuses@.len()
                                == 0 && v.presents@.len() == 0 && v.user == sp_user_stamp(
                                old(s).users@,
                                user_id,
                                now,
                            )[u])
                        } else {
                            &&& (r matches Ok(v) ==> login_process_rel(
                                mid,
                                *final(s),
                                user_id,
                                now,
                                Ok((v.user, v.login_bonuses, v.presents)),
                            ) && v.processed == true)
                            &&& (r matches Err(e) ==> state_unchanged(*old(s), *final(s))
                                && login_process_rel(
                                mid,
                                mid,
                                user_id,
                                now,
                                Err(e),
                            ))
                        }
                    }
            }
        }),
{
    let u = match find_user(&s.users, user_id) {
        Some(u) => u,
        None => {
            return Err(Error::UserNotFound);
        },
    };
    if check_ban(s, user_id) {
        return Err(Error::Forbidden);
    }
    if let Err(e) = check_viewer_id(s, user_id, viewer_id) {
        return Err(e);
    }
    let last_activated_at = s.users[u].last_activated_at;

    // the whole login commits atomically: work on a scratch copy
    let mut scratch = snapshot_state(s);
    tombstone_live_sessions_of_user(&mut scratch.sessions, user_id, now);
    let s_id = generate_id(&mut scratch);
    let sess_id = generate_uuid();
    let sess = Session {
        id: s_id,
        user_id: user_id,
        session_id: sess_id,
        created_at: now,
        updated_at: now,
        expired_at: now + 86400,
        deleted_at: None,
    };
    scratch.sessions.push(sess.clone_row());
    let ghost mid = scratch;

    if is_complete_today_login(last_activated_at, now) {
        user_stamp_write(&mut scratch.users, user_id, now);
        let user_row = scratch.users[u];
        s.next_entity_id = scratch.next_entity_id;
        s.sessions = scratch.sessions;
        s.users = scratch.users;
        return Ok(
            LoginOutcome {
                session: sess,
                user: user_row,
                login_bonuses: Vec::new(),
                presents: Vec::new(),
                processed: false,
            },
        );
    }

    match login_process(&mut scratch, user_id, now) {
        Ok((user_row, login_bonuses, presents)) => {
            s.next_entity_id = scratch.next_entity_id;
            s.sessions = scratch.sessions;
            s.users = scratch.users;
            s.user_cards = scratch.user_cards;
            s.user_items = scratch.user_items;
            s.user_login_bonuses = scratch.user_login_bonuses;
            s.user_presents = scratch.user_presents;
            s.present_history = scratch.present_history;
            Ok(
                LoginOutcome {
                    session: sess,
                    user: user_row,
                    login_bonuses: login_bonuses,
                    presents: presents,
                    processed: true,
                },
            )
        },
        Err(e) => Err(e),
    }
}

/// The initial-deck card master id every new account draws from.
pub const INITIAL_DECK_ITEM_ID: i64 = 2;

/// The user row minted at registration: empty balance, all stamps at the
/// request time.
pub open spec fn sp_new_user(id: i64, now: i64) -> User {
    User {
        id: id,
        isu_coin: 0,
        last_get_reward_at: now,
        last_activated_at: now,
        registered_at: now,
        created_at: now,
        updated_at: now,
        deleted_at: None,
    }
}

/// One initial-deck card instance.
pub open spec fn sp_init_card(id: i64, user_id: i64, master: crate::model::ItemMaster, now: i64) -> UserCard {
    UserCard {
        id: id,
        user_id: user_id,
        card_id: master.id,
        amount_per_sec: master.amount_per_sec->0,
        level: 1,
        total_exp: 0,
        created_at: now,
        updated_at: now,
        deleted_at: None,
    }
}

/// The registration master data is usable: if an item master carries the
/// initial-deck id, it offers a base production rate.
pub open spec fn init_card_wf(im: Seq<crate::model::ItemMaster>) -> bool {
    match first_idx(im, p_item_master_id(INITIAL_DECK_ITEM_ID)) {
        Some(m) => im[m].amount_per_sec is Some,
        None => true,
    }
}

/// What registration returns: the new account, its device binding, the
/// initial deck, and the first login's results.
pub struct CreateUserOutcome {
    pub user_id: i64,
    pub viewer_id: String,
    pub session_id: String,
    pub user: User,
    pub user_device: UserDevice,
    pub init_cards: Vec<UserCard>,
    pub init_deck: UserDeck,
    pub login_bonuses: Vec<UserLoginBonus>,
    pub presents: Vec<UserPresent>,
}

/// The store right after the registration inserts: the new user, its device,
/// three initial cards and the active deck, under six fresh ids.
pub open spec fn create_inserts_rel(
    pre: GameState,
    mid: GameState,
    viewer_id: Seq<char>,
    platform_type: i64,
    now: i64,
) -> bool {
    let u_id = (pre.next_entity_id + 1) as i64;
    let master = pre.item_masters@[first_idx(
        pre.item_masters@,
        p_item_master_id(INITIAL_DECK_ITEM_ID),
    )->0];
    &&& mid.users@ == pre.users@.push(sp_new_user(u_id, now))
    &&& mid.user_devices@.len() == pre.user_devices@.len() + 1
    &&& (forall|j: int| 0 <= j < pre.user_devices@.len() ==> mid.user_devices@[j] == pre.user_devices@[j])
    &&& mid.user_devices@.last() == (UserDevice {
        id: (pre.next_entity_id + 2) as i64,
        user_id: u_id,
        platform_id: mid.user_devices@.last().platform_id,
        platform_type: platform_type,
        created_at: now,
        updated_at: now,
        deleted_at: None,
    })
    &&& mid.user_devices@.last().platform_id@ == viewer_id
    &&& mid.user_cards@ == pre.user_cards@.push(
        sp_init_card((pre.next_entity_id + 3) as i64, u_id, master, now),
    ).push(sp_init_card((pre.next_entity_id + 4) as i64, u_id, master, now)).push(
        sp_init_card((pre.next_entity_id + 5) as i64, u_id, master, now),
    )
    &&& mid.user_decks@ == pre.user_decks@.push(
        UserDeck {
            id: (pre.next_entity_id + 6) as i64,
            user_id: u_id,
            card_id1: (pre.next_entity_id + 3) as i64,
            card_id2: (pre.next_entity_id + 4) as i64,
            card_id3: (pre.next_entity_id + 5) as i64,
            created_at: now,
            updated_at: now,
            deleted_at: None,
        },
    )
    &&& mid.next_entity_id == pre.next_entity_id + 6
    &&& mid.sessions@ == pre.sessions@
    &&& mid.admin_sessions@ == pre.admin_sessions@
    &&& mid.tokens@ == pre.tokens@
    &&& mid.user_bans@ == pre.user_bans@
    &&& mid.user_items@ == pre.user_items@
    &&& mid.user_login_bonuses@ == pre.user_login_bonuses@
    &&& mid.user_presents@ == pre.user_presents@
    &&& mid.present_history@ == pre.present_history@
    &&& mid.admin_users@ == pre.admin_users@
    &&& masters_unchanged(pre, mid)
}

/// Register a new account: validate the request body, create the user, bind
/// the device, grant the three-card initial deck, run the first login's
/// processing, and issue a session. Everything commits atomically.
#[verifier::rlimit(100)]
pub fn create_user(s: &mut GameState, viewer_id: &String, platform_type: i64, now: i64) -> (r:
    Result<CreateUserOutcome, Error>)
    requires
        masters_wf(*old(s)),
        init_card_wf(old(s).item_masters@),
        ts_ok(now as int),
        old(s).next_entity_id + 7 + 2 * old(s).login_bonus_masters@.len() + 2 * old(
            s,
        ).present_all_masters@.len() <= i64::MAX,
    ensures
        (viewer_id@.len() == 0 || platform_type < 1 || platform_type > 3) ==> r == Result::<
            CreateUserOutcome,
            Error,
        >::Err(Error::InvalidRequestBody) && state_unchanged(*old(s), *final(s)),
        (viewer_id@.len() > 0 && 1 <= platform_type <= 3) ==> ({
            if first_idx(old(s).item_masters@, p_item_master_id(INITIAL_DECK_ITEM_ID)) is None {
                r == Result::<CreateUserOutcome, Error>::Err(Error::ItemNotFound)
                    && state_unchanged(*old(s), *final(s))
            } else {
                let u_id = (old(s).next_entity_id + 1) as i64;
                &&& (r matches Ok(v) ==> exists|mid1: GameState, mid2: GameState|
                    {
                        &&& #[trigger] create_inserts_rel(
                            *old(s),
                            mid1,
                            viewer_id@,
                            platform_type,
                            now,
                        )
                        &&& #[trigger] login_process_rel(
                            mid1,
                            mid2,
                            u_id,
                            now,
                            Ok((v.user, v.login_bonuses, v.presents)),
                        )
                        &&& final(s).sessions@ == mid2.sessions@.push(
                            fresh_session(
                                (mid2.next_entity_id + 1) as i64,
                                u_id,
                                final(s).sessions@.last().session_id,
                                now,
                            ),
                        )
                        &&& final(s).sessions@.last().session_id@.len() == 36
                        &&& final(s).next_entity_id == mid2.next_entity_id + 1
                        &&& final(s).users@ == mid2.users@
                        &&& final(s).user_devices@ == mid1.user_devices@
                        &&& final(s).user_cards@ == mid2.user_cards@
                        &&& final(s).user_decks@ == mid2.user_decks@
                        &&& final(s).user_items@ == mid2.user_items@
                        &&& final(s).user_login_bonuses@ == mid2.user_login_bonuses@
                        &&& final(s).user_presents@ == mid2.user_presents@
                        &&& final(s).present_history@ == mid2.present_history@
                        &&& final(s).tokens@ == old(s).tokens@
                        &&& masters_unchanged(*old(s), *final(s))
                        &&& v.user_id == u_id
                        &&& v.viewer_id@ == viewer_id@
                        &&& v.session_id@ == final(s).sessions@.last().session_id@
                        &&& v.user_device == mid1.user_devices@.last()
                        &&& v.init_cards@ == mid1.user_cards@.skip(old(s).user_cards@.len() as int)
                        &&& v.init_deck == mid1.user_decks@.last()
                    })
                &&& (r matches Err(e) ==> state_unchanged(*old(s), *final(s)) && exists|
                    mid1: GameState,
                |
                    {
                        &&& #[trigger] create_inserts_rel(
                            *old(s),
                            mid1,
                            viewer_id@,
                            platform_type,
                            now,
                        )
                        &&& login_process_rel(mid1, mid1, u_id, now, Err(e))
                    })
            }
        }),
{
    if viewer_id.as_str().is_empty() || platform_type < 1 || platform_type > 3 {
        return Err(Error::InvalidRequestBody);
    }

    // the whole registration commits atomically: work on a scratch copy
    let mut scratch = snapshot_state(s);

    let u_id = generate_id(&mut scratch);
    let user = User {
        id: u_id,
        isu_coin: 0,
        last_get_reward_at: now,
        last_activated_at: now,
        registered_at: now,
        created_at: now,
        updated_at: now,
        deleted_at: None,
    };
    scratch.users.push(user);

    let ud_id = generate_id(&mut scratch);
    let user_device = UserDevice {
        id: ud_id,
        user_id: u_id,
        platform_id: viewer_id.clone(),
        platform_type: platform_type,
        created_at: now,
        updated_at: now,
        deleted_at: None,
    };
    scratch.user_devices.push(user_device.clone_row());

    // the initial three-card deck from the registration master
    let im = match find_item_master_by_id(&scratch.item_masters, INITIAL_DECK_ITEM_ID) {
        Some(im) => im,
        None => {
            return Err(Error::ItemNotFound);
        },
    };
    let master_id = scratch.item_masters[im].id;
    let master_aps = scratch.item_masters[im].amount_per_sec.unwrap();

    let mut init_cards: Vec<UserCard> = Vec::new();
    let c1_id = generate_id(&mut scratch);
    let card1 = UserCard {
        id: c1_id,
        user_id: u_id,
        card_id: master_id,
        amount_per_sec: master_aps,
        level: 1,
        total_exp: 0,
        created_at: now,
        updated_at: now,
        deleted_at: None,
    };
    scratch.user_cards.push(card1);
    init_cards.push(card1);
    let c2_id = generate_id(&mut scratch);
    let card2 = UserCard { id: c2_id, ..card1 };
    scratch.user_cards.push(card2);
    init_cards.push(card2);
    let c3_id = generate_id(&mut scratch);
    let card3 = UserCard { id: c3_id, ..card1 };
    scratch.user_cards.push(card3);
    init_cards.push(card3);

    let deck_id = generate_id(&mut scratch);
    let init_deck = UserDeck {
        id: deck_id,
        user_id: u_id,
        card_id1: c1_id,
        card_id2: c2_id,
        card_id3: c3_id,
        created_at: now,
        updated_at: now,
        deleted_at: None,
    };
    scratch.user_decks.push(init_deck);

    let ghost mid1 = scratch;
    proof {
        assert(mid1.user_cards@ =~= old(s).user_cards@.push(
            sp_init_card((old(s).next_entity_id + 3) as i64, u_id, old(s).item_masters@[im as int], now),
        ).push(sp_init_card((old(s).next_entity_id + 4) as i64, u_id, old(s).item_masters@[im as int], now)).push(
            sp_init_card((old(s).next_entity_id + 5) as i64, u_id, old(s).item_masters@[im as int], now),
        ));
        assert(create_inserts_rel(*old(s), mid1, viewer_id@, platform_type, now));
    }

    // the first login runs inside the same transaction
    let (login_user, login_bonuses, presents) = match login_process(&mut scratch, u_id, now) {
        Ok(t) => t,
        Err(e) => {
            return Err(e);
        },
    };
    let ghost mid2 = scratch;

    let s_id = generate_id(&mut scratch);
    let sess_id = generate_uuid();
    let sess = Session {
        id: s_id,
        user_id: u_id,
        session_id: sess_id,
        created_at: now,
        updated_at: now,
        expired_at: now + 86400,
        deleted_at: None,
    };
    scratch.sessions.push(sess.clone_row());

    // commit
    let session_id_out = sess.session_id;
    s.next_entity_id = scratch.next_entity_id;
    s.users = scratch.users;
    s.user_devices = scratch.user_devices;
    s.sessions = scratch.sessions;
    s.user_cards = scratch.user_cards;
    s.user_decks = scratch.user_decks;
    s.user_items = scratch.user_items;
    s.user_login_bonuses = scratch.user_login_bonuses;
    s.user_presents = scratch.user_presents;
    s.present_history = scratch.present_history;

    proof {
        assert(mid1.user_cards@.skip(old(s).user_cards@.len() as int) =~= init_cards@);
    }
    Ok(
        CreateUserOutcome {
            user_id: u_id,
            viewer_id: user_device.platform_id.clone(),
            session_id: session_id_out,
            user: login_user,
            user_device: user_device.clone_row(),
            init_cards: init_cards,
            init_deck: init_deck,
            login_bonuses: login_bonuses,
            presents: presents,
        },
    )
}

} // verus!
