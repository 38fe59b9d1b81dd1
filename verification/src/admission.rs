//! The request admission pipeline: an ordered chain of validation stages —
//! master-version check, ban check, session check, one-time-token check —
//! each of which may short-circuit the request with a terminal error. Routes
//! compose the stages they require.
use vstd::prelude::*;

use crate::Error;
use crate::model::UserDevice;
use crate::state::GameState;
use crate::state::ban_exists;
use crate::state::find_active_version;
use crate::state::find_device;
use crate::state::find_live_session;
use crate::state::find_live_token;
use crate::state::masters_unchanged;
use crate::state::sm_active_version;
use crate::state::sm_ban;
use crate::state::sm_device;
use crate::state::sm_live_session;
use crate::state::sm_live_token;
use crate::state::session_tombstoned;
use crate::state::token_tombstoned;
use crate::state::tombstone_sessions_by_sid;
use crate::state::tombstone_tokens_by_token;

verus! {

/// Some version-master row is marked active.
pub open spec fn has_active_version(s: GameState) -> bool {
    exists|j: int| 0 <= j < s.version_masters@.len() && sm_active_version(s.version_masters@[j])
}

/// The version string of the first active version-master row.
pub open spec fn active_version_of(s: GameState, i: int) -> Seq<char> {
    s.version_masters@[i].master_version@
}

/// Index `i` holds the first active version-master row.
pub open spec fn first_active_version_at(s: GameState, i: int) -> bool {
    &&& 0 <= i < s.version_masters@.len()
    &&& sm_active_version(s.version_masters@[i])
    &&& forall|j: int| 0 <= j < i ==> !sm_active_version(s.version_masters@[j])
}

/// Stage one: the client-supplied master version must equal the single active
/// version row. Fails `MasterVersionNotFound` when no row is active,
/// `InvalidMasterVersion` when the header is absent or differs.
pub fn check_master_version(s: &GameState, client_version: Option<&String>) -> (r: Result<
    (),
    Error,
>)
    ensures
        forall|i: int|
            first_active_version_at(*s, i) ==> ((r is Ok) <==> (client_version is Some
                && client_version->0@ == active_version_of(*s, i))),
        !has_active_version(*s) ==> r == Result::<(), Error>::Err(Error::MasterVersionNotFound),
        has_active_version(*s) && r is Err ==> r == Result::<(), Error>::Err(
            Error::InvalidMasterVersion,
        ),
        has_active_version(*s) <==> exists|i: int| first_active_version_at(*s, i),
{
    let r = match find_active_version(&s.version_masters) {
        None => Err(Error::MasterVersionNotFound),
        Some(i) => {
            proof {
                assert(first_active_version_at(*s, i as int));
                assert forall|k: int| first_active_version_at(*s, k) implies k == i as int by {
                    if k < i as int {
                        assert(!sm_active_version(s.version_masters@[k]));
                    } else if k > i as int {
                        assert(!sm_active_version(s.version_masters@[i as int]));
                    }
                }
            }
            match client_version {
                None => Err(Error::InvalidMasterVersion),
                Some(v) => {
                    if s.version_masters[i].master_version == *v {
                        Ok(())
                    } else {
                        Err(Error::InvalidMasterVersion)
                    }
                },
            }
        },
    };
    r
}

/// The user is banned: some ban row names them.
pub open spec fn banned(s: GameState, user_id: i64) -> bool {
    exists|j: int| 0 <= j < s.user_bans@.len() && sm_ban(s.user_bans@[j], user_id)
}

/// Stage two: a banned user is refused before any mutation.
pub fn check_ban(s: &GameState, user_id: i64) -> (r: bool)
    ensures
        r == banned(*s, user_id),
{
    ban_exists(&s.user_bans, user_id)
}

/// The user has a device row binding this viewer id.
pub open spec fn device_bound(devices: Seq<UserDevice>, user_id: i64, viewer_id: Seq<char>) -> bool {
    exists|j: int| 0 <= j < devices.len() && sm_device(devices[j], user_id, viewer_id)
}

/// Device-binding check: the request's viewer id must have been registered
/// for this user.
pub fn check_viewer_id(s: &GameState, user_id: i64, viewer_id: &String) -> (r: Result<(), Error>)
    ensures
        r is Ok <==> device_bound(s.user_devices@, user_id, viewer_id@),
        r is Err ==> r == Result::<(), Error>::Err(Error::UserDeviceNotFound),
{
    match find_device(&s.user_devices, user_id, viewer_id) {
        Some(i) => {
            assert(sm_device(s.user_devices@[i as int], user_id, viewer_id@));
            Ok(())
        },
        None => Err(Error::UserDeviceNotFound),
    }
}

/// A live session row with this session id exists.
pub open spec fn has_live_session(s: GameState, session_id: Seq<char>) -> bool {
    exists|j: int| 0 <= j < s.sessions@.len() && sm_live_session(s.sessions@[j], session_id)
}

/// The first live session row with this session id.
pub open spec fn first_live_session(s: GameState, session_id: Seq<char>, i: int) -> bool {
    &&& 0 <= i < s.sessions@.len()
    &&& sm_live_session(s.sessions@[i], session_id)
    &&& forall|j: int| 0 <= j < i ==> !sm_live_session(s.sessions@[j], session_id)
}

/// Exact description of one session-check call: how the state may change and
/// which result is returned on which input.
pub open spec fn session_check_rel(
    pre: GameState,
    post: GameState,
    session_id: Option<Seq<char>>,
    path_user_id: i64,
    now: i64,
    r: Result<(), Error>,
) -> bool {
    &&& post.next_entity_id == pre.next_entity_id
    &&& post.users@ == pre.users@
    &&& post.user_devices@ == pre.user_devices@
    &&& post.user_bans@ == pre.user_bans@
    &&& post.admin_sessions@ == pre.admin_sessions@
    &&& post.tokens@ == pre.tokens@
    &&& post.user_cards@ == pre.user_cards@
    &&& post.user_decks@ == pre.user_decks@
    &&& post.user_items@ == pre.user_items@
    &&& post.user_login_bonuses@ == pre.user_login_bonuses@
    &&& post.user_presents@ == pre.user_presents@
    &&& post.present_history@ == pre.present_history@
    &&& post.admin_users@ == pre.admin_users@
    &&& masters_unchanged(pre, post)
    &&& match session_id {
        None => r == Result::<(), Error>::Err(Error::Unauthorized) && post.sessions@
            == pre.sessions@,
        Some(sid) => {
            if !has_live_session(pre, sid) {
                r == Result::<(), Error>::Err(Error::Unauthorized) && post.sessions@
                    == pre.sessions@
            } else {
                exists|i: int|
                    #![trigger pre.sessions@[i]]
                    {
                        &&& first_live_session(pre, sid, i)
                        &&& if pre.sessions@[i].user_id != path_user_id {
                            r == Result::<(), Error>::Err(Error::Forbidden) && post.sessions@
                                == pre.sessions@
                        } else if pre.sessions@[i].expired_at < now {
                            &&& r == Result::<(), Error>::Err(Error::ExpiredSession)
                            &&& post.sessions@.len() == pre.sessions@.len()
                            &&& forall|j: int|
                                0 <= j < pre.sessions@.len() ==> post.sessions@[j] == (
                                if pre.sessions@[j].session_id@ == sid {
                                    session_tombstoned(pre.sessions@[j], now)
                                } else {
                                    pre.sessions@[j]
                                })
                        } else {
                            r is Ok && post.sessions@ == pre.sessions@
                        }
                    }
            }
        },
    }
}

/// Stage three: session validation for gameplay routes. The header must be
/// present; the session must exist live, belong to the path user, and be
/// unexpired — an expired session is tombstoned as a side effect and reported
/// as `ExpiredSession`, distinct from plain `Unauthorized`.
pub fn check_session(
    s: &mut GameState,
    session_id: Option<&String>,
    path_user_id: i64,
    now: i64,
) -> (r: Result<(), Error>)
    ensures
        session_check_rel(
            *old(s),
            *final(s),
            match session_id {
                Some(v) => Some(v@),
                None => None,
            },
            path_user_id,
            now,
            r,
        ),
{
    let sid = match session_id {
        None => {
            return Err(Error::Unauthorized);
        },
        Some(v) => v,
    };
    let i = match find_live_session(&s.sessions, sid) {
        None => {
            return Err(Error::Unauthorized);
        },
        Some(i) => i,
    };
    assert(first_live_session(*s, sid@, i as int));
    if s.sessions[i].user_id != path_user_id {
        return Err(Error::Forbidden);
    }
    if s.sessions[i].expired_at < now {
        tombstone_sessions_by_sid(&mut s.sessions, sid, now);
        return Err(Error::ExpiredSession);
    }
    Ok(())
}

/// A live one-time-token row with this token string and type exists.
pub open spec fn has_live_token(s: GameState, token: Seq<char>, token_type: i64) -> bool {
    exists|j: int| 0 <= j < s.tokens@.len() && sm_live_token(s.tokens@[j], token, token_type)
}

/// No token row carrying this token string is still live, whatever its type.
pub open spec fn token_fully_consumed(s: GameState, token: Seq<char>) -> bool {
    forall|j: int|
        0 <= j < s.tokens@.len() && s.tokens@[j].token@ == token ==> !(s.tokens@[j].deleted_at
            is None)
}

/// Exact description of one token-check call.
pub open spec fn token_check_rel(
    pre: GameState,
    post: GameState,
    token: Seq<char>,
    token_type: i64,
    now: i64,
    r: Result<(), Error>,
) -> bool {
    &&& post.next_entity_id == pre.next_entity_id
    &&& post.users@ == pre.users@
    &&& post.user_devices@ == pre.user_devices@
    &&& post.user_bans@ == pre.user_bans@
    &&& post.sessions@ == pre.sessions@
    &&& post.admin_sessions@ == pre.admin_sessions@
    &&& post.user_cards@ == pre.user_cards@
    &&& post.user_decks@ == pre.user_decks@
    &&& post.user_items@ == pre.user_items@
    &&& post.user_login_bonuses@ == pre.user_login_bonuses@
    &&& post.user_presents@ == pre.user_presents@
    &&& post.present_history@ == pre.present_history@
    &&& post.admin_users@ == pre.admin_users@
    &&& masters_unchanged(pre, post)
    &&& if !has_live_token(pre, token, token_type) {
        r == Result::<(), Error>::Err(Error::InvalidToken) && post.tokens@ == pre.tokens@
    } else {
        // The token is consumed regardless of the outcome: every row with this
        // token string is tombstoned.
        &&& post.tokens@.len() == pre.tokens@.len()
        &&& forall|j: int|
            0 <= j < pre.tokens@.len() ==> post.tokens@[j] == (if pre.tokens@[j].token@ == token {
                token_tombstoned(pre.tokens@[j], now)
            } else {
                pre.tokens@[j]
            })
        &&& exists|i: int|
            #![trigger pre.tokens@[i]]
            {
                &&& 0 <= i < pre.tokens@.len()
                &&& sm_live_token(pre.tokens@[i], token, token_type)
                &&& (forall|j: int| 0 <= j < i ==> !sm_live_token(pre.tokens@[j], token, token_type))
                &&& r == (if pre.tokens@[i].expired_at < now {
                    Result::<(), Error>::Err(Error::InvalidToken)
                } else {
                    Result::<(), Error>::Ok(())
                })
            }
    }
}

/// Stage four: one-time-token validation, on routes that declare a token
/// type. A found token is consumed (tombstoned) whatever the outcome; an
/// absent or expired token fails `InvalidToken`.
pub fn check_one_time_token(s: &mut GameState, token: &String, token_type: i64, now: i64) -> (r:
    Result<(), Error>)
    ensures
        token_check_rel(*old(s), *final(s), token@, token_type, now, r),
{
    let i = match find_live_token(&s.tokens, token, token_type) {
        None => {
            return Err(Error::InvalidToken);
        },
        Some(i) => i,
    };
    let expired = s.tokens[i].expired_at < now;
    let ghost pre_tokens = s.tokens@;
    tombstone_tokens_by_token(&mut s.tokens, token, now);
    if expired {
        return Err(Error::InvalidToken);
    }
    Ok(())
}

/// One-time-token single use: once a check has found a live token — whether
/// it then succeeded or reported expiry — no row with that token string stays
/// live, and every subsequent check of the same token string, of any type and
/// at any time, fails `InvalidToken` without touching the state.
pub proof fn lemma_one_time_token_single_use(
    pre: GameState,
    mid: GameState,
    post: GameState,
    token: Seq<char>,
    token_type: i64,
    now: i64,
    r1: Result<(), Error>,
    token_type2: i64,
    now2: i64,
    r2: Result<(), Error>,
)
    requires
        token_check_rel(pre, mid, token, token_type, now, r1),
        has_live_token(pre, token, token_type),
        token_check_rel(mid, post, token, token_type2, now2, r2),
    ensures
        token_fully_consumed(mid, token),
        r2 == Result::<(), Error>::Err(Error::InvalidToken),
        post.tokens@ == mid.tokens@,
{
    assert forall|j: int|
        0 <= j < mid.tokens@.len() && mid.tokens@[j].token@ == token implies !(
    mid.tokens@[j].deleted_at is None) by {
        assert(mid.tokens@[j] == token_tombstoned(pre.tokens@[j], now));
    }
    assert(!has_live_token(mid, token, token_type2));
}

/// The combined per-route admission entry for gameplay requests: the
/// master-version stage, then — when the path names a user — the ban stage.
pub fn api_admission(
    s: &GameState,
    client_version: Option<&String>,
    path_user_id: Option<i64>,
) -> (r: Result<(), Error>)
    ensures
        r is Err ==> (r == Result::<(), Error>::Err(Error::MasterVersionNotFound) || r
            == Result::<(), Error>::Err(Error::InvalidMasterVersion) || r == Result::<(
            ),
            Error,
        >::Err(Error::Forbidden)),
        r == Result::<(), Error>::Err(Error::Forbidden) ==> path_user_id is Some && banned(
            *s,
            path_user_id->0,
        ),
        r is Ok ==> (path_user_id is Some ==> !banned(*s, path_user_id->0)),
        !has_active_version(*s) ==> r == Result::<(), Error>::Err(Error::MasterVersionNotFound),
{
    check_master_version(s, client_version)?;
    if let Some(user_id) = path_user_id {
        if check_ban(s, user_id) {
            return Err(Error::Forbidden);
        }
    }
    Ok(())
}

/// Admin session validation: the same expiry semantics as the gameplay
/// session stage, against the admin session table, without a path-user
/// comparison. A missing header degrades to the empty session id.
pub open spec fn admin_session_check_rel(
    pre: GameState,
    post: GameState,
    session_id: Seq<char>,
    now: i64,
    r: Result<(), Error>,
) -> bool {
    &&& post.next_entity_id == pre.next_entity_id
    &&& post.users@ == pre.users@
    &&& post.user_devices@ == pre.user_devices@
    &&& post.user_bans@ == pre.user_bans@
    &&& post.sessions@ == pre.sessions@
    &&& post.tokens@ == pre.tokens@
    &&& post.user_cards@ == pre.user_cards@
    &&& post.user_decks@ == pre.user_decks@
    &&& post.user_items@ == pre.user_items@
    &&& post.user_login_bonuses@ == pre.user_login_bonuses@
    &&& post.user_presents@ == pre.user_presents@
    &&& post.present_history@ == pre.present_history@
    &&& post.admin_users@ == pre.admin_users@
    &&& masters_unchanged(pre, post)
    &&& if !(exists|j: int|
        0 <= j < pre.admin_sessions@.len() && sm_live_session(pre.admin_sessions@[j], session_id)) {
        r == Result::<(), Error>::Err(Error::Unauthorized) && post.admin_sessions@
            == pre.admin_sessions@
    } else {
        exists|i: int|
            #![trigger pre.admin_sessions@[i]]
            {
                &&& 0 <= i < pre.admin_sessions@.len()
                &&& sm_live_session(pre.admin_sessions@[i], session_id)
                &&& (forall|j: int|
                    0 <= j < i ==> !sm_live_session(pre.admin_sessions@[j], session_id))
                &&& if pre.admin_sessions@[i].expired_at < now {
                    &&& r == Result::<(), Error>::Err(Error::ExpiredSession)
                    &&& post.admin_sessions@.len() == pre.admin_sessions@.len()
                    &&& forall|j: int|
                        0 <= j < pre.admin_sessions@.len() ==> post.admin_sessions@[j] == (
                        if pre.admin_sessions@[j].session_id@ == session_id {
                            session_tombstoned(pre.admin_sessions@[j], now)
                        } else {
                            pre.admin_sessions@[j]
                        })
                } else {
                    r is Ok && post.admin_sessions@ == pre.admin_sessions@
                }
            }
    }
}

/// Builds the admin session-check stage; mirrors the factory step of the
/// route middleware chain.
pub struct AdminSessionCheckMiddlewareFactory;

/// The admin session-check stage of the admission pipeline.
pub struct AdminSessionCheckMiddleware;

impl AdminSessionCheckMiddlewareFactory {
    pub fn new_transform(&self) -> (m: AdminSessionCheckMiddleware) {
        AdminSessionCheckMiddleware
    }
}

impl AdminSessionCheckMiddleware {
    /// Run the admin session check against the store.
    pub fn call(&self, s: &mut GameState, session_id: Option<&String>, now: i64) -> (r: Result<
        (),
        Error,
    >)
        ensures
            admin_session_check_rel(
                *old(s),
                *final(s),
                match session_id {
                    Some(v) => v@,
                    None => Seq::<char>::empty(),
                },
                now,
                r,
            ),
    {
        let empty = String::new();
        let sid: &String = match session_id {
            Some(v) => v,
            None => &empty,
        };
        let i = match find_live_session(&s.admin_sessions, sid) {
            None => {
                return Err(Error::Unauthorized);
            },
            Some(i) => i,
        };
        if s.admin_sessions[i].expired_at < now {
            tombstone_sessions_by_sid(&mut s.admin_sessions, sid, now);
            return Err(Error::ExpiredSession);
        }
        Ok(())
    }
}

} // verus!
