use isuconquest::admission::{
    check_ban, check_master_version, check_one_time_token, check_session, check_viewer_id,
    api_admission, AdminSessionCheckMiddlewareFactory,
};
use isuconquest::external::generate_uuid;
use isuconquest::model::{Session, UserBan, UserDevice, UserOneTimeToken, VersionMaster};
use isuconquest::state::{allocation_retry_allowed, generate_id, GameState};
use isuconquest::Error;

fn version_row(id: i64, status: i64, v: &str) -> VersionMaster {
    VersionMaster { id, status, master_version: v.to_string() }
}

fn session_row(id: i64, user_id: i64, sid: &str, expired_at: i64) -> Session {
    Session {
        id,
        user_id,
        session_id: sid.to_string(),
        expired_at,
        created_at: 0,
        updated_at: 0,
        deleted_at: None,
    }
}

fn token_row(id: i64, user_id: i64, tk: &str, token_type: i64, expired_at: i64) -> UserOneTimeToken {
    UserOneTimeToken {
        id,
        user_id,
        token: tk.to_string(),
        token_type,
        expired_at,
        created_at: 0,
        updated_at: 0,
        deleted_at: None,
    }
}

#[test]
fn master_version_check_accepts_the_active_version() {
    let mut s = GameState::new();
    s.version_masters.push(version_row(1, 0, "0.9.0"));
    s.version_masters.push(version_row(2, 1, "1.0.0"));
    let v = "1.0.0".to_string();
    assert!(check_master_version(&s, Some(&v)).is_ok());
}

#[test]
fn master_version_check_rejects_a_stale_or_missing_header() {
    let mut s = GameState::new();
    s.version_masters.push(version_row(1, 1, "1.0.0"));
    let stale = "0.9.9".to_string();
    assert_eq!(check_master_version(&s, Some(&stale)), Err(Error::InvalidMasterVersion));
    assert_eq!(check_master_version(&s, None), Err(Error::InvalidMasterVersion));
}

#[test]
fn master_version_check_requires_an_active_row() {
    let mut s = GameState::new();
    s.version_masters.push(version_row(1, 0, "1.0.0"));
    let v = "1.0.0".to_string();
    assert_eq!(check_master_version(&s, Some(&v)), Err(Error::MasterVersionNotFound));
}

#[test]
fn ban_check_finds_the_ban_row() {
    let mut s = GameState::new();
    s.user_bans.push(UserBan { id: 1, user_id: 7, created_at: 0, updated_at: 0, deleted_at: None });
    assert!(check_ban(&s, 7));
    assert!(!check_ban(&s, 8));
}

#[test]
fn api_admission_forbids_a_banned_user() {
    let mut s = GameState::new();
    s.version_masters.push(version_row(1, 1, "1".into()));
    s.user_bans.push(UserBan { id: 1, user_id: 7, created_at: 0, updated_at: 0, deleted_at: None });
    let v = "1".to_string();
    assert_eq!(api_admission(&s, Some(&v), Some(7)), Err(Error::Forbidden));
    assert!(api_admission(&s, Some(&v), Some(8)).is_ok());
    assert!(api_admission(&s, Some(&v), None).is_ok());
}

#[test]
fn viewer_id_check_requires_the_device_binding() {
    let mut s = GameState::new();
    s.user_devices.push(UserDevice {
        id: 1,
        user_id: 7,
        platform_id: "viewer-a".to_string(),
        platform_type: 1,
        created_at: 0,
        updated_at: 0,
        deleted_at: None,
    });
    let good = "viewer-a".to_string();
    let bad = "viewer-b".to_string();
    assert!(check_viewer_id(&s, 7, &good).is_ok());
    assert_eq!(check_viewer_id(&s, 7, &bad), Err(Error::UserDeviceNotFound));
    assert_eq!(check_viewer_id(&s, 8, &good), Err(Error::UserDeviceNotFound));
}

#[test]
fn session_check_passes_a_live_unexpired_session() {
    let mut s = GameState::new();
    s.sessions.push(session_row(1, 7, "sess-1", 1_000));
    let sid = "sess-1".to_string();
    assert!(check_session(&mut s, Some(&sid), 7, 500).is_ok());
    assert!(s.sessions[0].deleted_at.is_none());
}

#[test]
fn session_check_distinguishes_its_failures() {
    let mut s = GameState::new();
    s.sessions.push(session_row(1, 7, "sess-1", 1_000));
    let sid = "sess-1".to_string();
    let unknown = "sess-x".to_string();
    // missing header
    assert_eq!(check_session(&mut s, None, 7, 500), Err(Error::Unauthorized));
    // unknown session id
    assert_eq!(check_session(&mut s, Some(&unknown), 7, 500), Err(Error::Unauthorized));
    // session of another user
    assert_eq!(check_session(&mut s, Some(&sid), 8, 500), Err(Error::Forbidden));
    assert!(s.sessions[0].deleted_at.is_none());
    // expiry tombstones the session and reports it distinctly
    assert_eq!(check_session(&mut s, Some(&sid), 7, 2_000), Err(Error::ExpiredSession));
    assert_eq!(s.sessions[0].deleted_at, Some(2_000));
    // and afterwards the session no longer authenticates at all
    assert_eq!(check_session(&mut s, Some(&sid), 7, 500), Err(Error::Unauthorized));
}

#[test]
fn one_time_token_is_consumed_by_a_successful_validation() {
    let mut s = GameState::new();
    s.tokens.push(token_row(1, 7, "tok-1", 1, 1_000));
    let tk = "tok-1".to_string();
    assert!(check_one_time_token(&mut s, &tk, 1, 500).is_ok());
    assert_eq!(s.tokens[0].deleted_at, Some(500));
    // single use: the second validation fails, whatever came of the first
    assert_eq!(check_one_time_token(&mut s, &tk, 1, 500), Err(Error::InvalidToken));
}

#[test]
fn one_time_token_expiry_still_consumes_the_token() {
    let mut s = GameState::new();
    s.tokens.push(token_row(1, 7, "tok-1", 1, 1_000));
    let tk = "tok-1".to_string();
    assert_eq!(check_one_time_token(&mut s, &tk, 1, 2_000), Err(Error::InvalidToken));
    assert_eq!(s.tokens[0].deleted_at, Some(2_000));
    assert_eq!(check_one_time_token(&mut s, &tk, 1, 500), Err(Error::InvalidToken));
}

#[test]
fn one_time_token_type_must_match() {
    let mut s = GameState::new();
    s.tokens.push(token_row(1, 7, "tok-1", 1, 1_000));
    let tk = "tok-1".to_string();
    assert_eq!(check_one_time_token(&mut s, &tk, 2, 500), Err(Error::InvalidToken));
    // a type mismatch finds no live token, so nothing is consumed
    assert!(s.tokens[0].deleted_at.is_none());
}

#[test]
fn counter_hands_out_distinct_increasing_ids() {
    let mut s = GameState::new();
    let mut ids = Vec::new();
    for _ in 0..100 {
        ids.push(generate_id(&mut s));
    }
    for k in 1..ids.len() {
        assert!(ids[k - 1] < ids[k]);
    }
    let mut sorted = ids.clone();
    sorted.dedup();
    assert_eq!(sorted.len(), 100);
    assert_eq!(ids[0], 1);
    assert_eq!(ids[99], 100);
    assert_eq!(s.next_entity_id, 100);
}

#[test]
fn allocation_retry_policy_is_bounded() {
    // a transient lock conflict is retried while the budget lasts
    assert!(allocation_retry_allowed(true, 0));
    assert!(allocation_retry_allowed(true, 99));
    assert!(!allocation_retry_allowed(true, 100));
    // any other store failure surfaces at once
    assert!(!allocation_retry_allowed(false, 0));
}

#[test]
fn admin_session_check_mirrors_the_session_stage() {
    let mut s = GameState::new();
    s.admin_sessions.push(session_row(1, 7, "adm-1", 1_000));
    let stage = AdminSessionCheckMiddlewareFactory.new_transform();
    let sid = "adm-1".to_string();
    assert!(stage.call(&mut s, Some(&sid), 500).is_ok());
    assert_eq!(stage.call(&mut s, None, 500), Err(Error::Unauthorized));
    assert_eq!(stage.call(&mut s, Some(&sid), 2_000), Err(Error::ExpiredSession));
    assert_eq!(s.admin_sessions[0].deleted_at, Some(2_000));
}

#[test]
fn generated_uuids_look_like_hyphenated_uuids() {
    let a = generate_uuid();
    let b = generate_uuid();
    assert_eq!(a.len(), 36);
    assert_eq!(b.len(), 36);
    for s in [&a, &b] {
        let bytes = s.as_bytes();
        assert_eq!(bytes[8], b'-');
        assert_eq!(bytes[13], b'-');
        assert_eq!(bytes[18], b'-');
        assert_eq!(bytes[23], b'-');
    }
    assert_ne!(a, b);
}

#[test]
fn error_status_codes_follow_the_taxonomy() {
    assert_eq!(Error::InvalidRequestBody.status_code(), 400);
    assert_eq!(Error::InvalidToken.status_code(), 400);
    assert_eq!(Error::Unauthorized.status_code(), 401);
    assert_eq!(Error::ExpiredSession.status_code(), 401);
    assert_eq!(Error::Forbidden.status_code(), 403);
    assert_eq!(Error::UserNotFound.status_code(), 404);
    assert_eq!(Error::ItemNotFound.status_code(), 404);
    assert_eq!(Error::InsufficientCoin.status_code(), 409);
    assert_eq!(Error::InvalidMasterVersion.status_code(), 422);
    assert_eq!(Error::EmptyPresentIds.status_code(), 422);
    assert_eq!(Error::PresentAlreadyReceived.status_code(), 500);
}
