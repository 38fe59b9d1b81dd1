use isuconquest::admin::{
    admin_ban_user, admin_list_master, admin_login, admin_logout, admin_update_master, admin_user,
    verify_password, AdminLoginRequest, MasterUpdates,
};
use isuconquest::model::{AdminUser, User, UserItem, VersionMaster};
use isuconquest::state::GameState;
use isuconquest::Error;

fn user_row(id: i64) -> User {
    User {
        id,
        isu_coin: 0,
        last_get_reward_at: 0,
        last_activated_at: 0,
        registered_at: 0,
        created_at: 0,
        updated_at: 0,
        deleted_at: None,
    }
}

fn admin_row(id: i64, password_hash: &str) -> AdminUser {
    AdminUser {
        id,
        password: password_hash.to_string(),
        last_activated_at: 0,
        created_at: 0,
        updated_at: 0,
        deleted_at: None,
    }
}

fn version_row(id: i64, status: i64, v: &str) -> VersionMaster {
    VersionMaster { id, status, master_version: v.to_string() }
}

#[test]
fn password_verification_accepts_only_the_hashed_password() {
    let hash = bcrypt::hash("open sesame", 4).unwrap();
    let good = "open sesame".to_string();
    let bad = "open hominy".to_string();
    assert!(verify_password(&hash, &good).is_ok());
    assert_eq!(verify_password(&hash, &bad), Err(Error::Unauthorized));
    let garbage = "not a bcrypt hash".to_string();
    assert_eq!(verify_password(&garbage, &good), Err(Error::Unauthorized));
}

#[test]
fn admin_login_checks_the_password_and_rotates_the_session() {
    let hash = bcrypt::hash("hunter's moon", 4).unwrap();
    let mut s = GameState::new();
    s.admin_users.push(admin_row(3, &hash));

    let wrong = AdminLoginRequest { user_id: 3, password: "wrong".to_string() };
    assert!(matches!(admin_login(&mut s, &wrong, 100), Err(Error::Unauthorized)));
    let unknown = AdminLoginRequest { user_id: 4, password: "wrong".to_string() };
    assert!(matches!(admin_login(&mut s, &unknown, 100), Err(Error::UserNotFound)));

    let req = AdminLoginRequest { user_id: 3, password: "hunter's moon".to_string() };
    let first = admin_login(&mut s, &req, 100).unwrap();
    assert_eq!(first.admin_session.user_id, 3);
    assert_eq!(first.admin_session.expired_at, 100 + 86400);
    assert_eq!(first.admin_session.session_id.len(), 36);
    assert_eq!(s.admin_users[0].last_activated_at, 100);
    // a second login tombstones the first session
    let second = admin_login(&mut s, &req, 200).unwrap();
    assert_eq!(s.admin_sessions.len(), 2);
    assert_eq!(s.admin_sessions[0].deleted_at, Some(200));
    assert!(s.admin_sessions[1].deleted_at.is_none());
    assert_ne!(first.admin_session.session_id, second.admin_session.session_id);
}

#[test]
fn admin_logout_tombstones_the_named_session() {
    let hash = bcrypt::hash("pw", 4).unwrap();
    let mut s = GameState::new();
    s.admin_users.push(admin_row(3, &hash));
    let req = AdminLoginRequest { user_id: 3, password: "pw".to_string() };
    let login = admin_login(&mut s, &req, 100).unwrap();
    admin_logout(&mut s, &login.admin_session.session_id, 300);
    assert_eq!(s.admin_sessions[0].deleted_at, Some(300));
    // logging out an unknown session changes nothing
    let unknown = "nope".to_string();
    admin_logout(&mut s, &unknown, 400);
    assert_eq!(s.admin_sessions[0].deleted_at, Some(300));
}

#[test]
fn master_listing_returns_every_table() {
    let mut s = GameState::new();
    s.version_masters.push(version_row(1, 1, "1.0.0"));
    s.login_bonus_masters.push(isuconquest::model::LoginBonusMaster {
        id: 40,
        start_at: 0,
        end_at: 10,
        column_count: 5,
        looped: false,
        created_at: 0,
    });
    let r = admin_list_master(&s);
    assert_eq!(r.version_master.len(), 1);
    assert_eq!(r.version_master[0].master_version, "1.0.0");
    assert_eq!(r.login_bonuses.len(), 1);
    assert!(r.items.is_empty());
    assert!(r.gachas.is_empty());
}

#[test]
fn master_upload_upserts_by_row_id() {
    let mut s = GameState::new();
    s.version_masters.push(version_row(1, 1, "1.0.0"));
    s.version_masters.push(version_row(2, 0, "1.1.0"));

    // replace row 1 (deactivating it), activate row 2, and add row 3
    let updates = MasterUpdates {
        version_masters: Some(vec![
            version_row(1, 0, "1.0.0"),
            version_row(2, 1, "1.1.0"),
            version_row(3, 0, "1.2.0"),
        ]),
        item_masters: None,
        gacha_masters: None,
        gacha_item_masters: None,
        present_all_masters: None,
        login_bonus_masters: None,
        login_bonus_reward_masters: None,
    };
    let r = admin_update_master(&mut s, &updates).unwrap();
    assert_eq!(s.version_masters.len(), 3);
    assert_eq!(s.version_masters[0].status, 0);
    assert_eq!(s.version_masters[1].status, 1);
    assert_eq!(s.version_masters[2].master_version, "1.2.0");
    // the response carries the now-active version
    assert_eq!(r.version_master.master_version, "1.1.0");
}

#[test]
fn master_upload_fails_without_an_active_version() {
    let mut s = GameState::new();
    s.version_masters.push(version_row(1, 1, "1.0.0"));
    let updates = MasterUpdates {
        version_masters: Some(vec![version_row(1, 0, "1.0.0")]),
        item_masters: None,
        gacha_masters: None,
        gacha_item_masters: None,
        present_all_masters: None,
        login_bonus_masters: None,
        login_bonus_reward_masters: None,
    };
    assert!(matches!(
        admin_update_master(&mut s, &updates),
        Err(Error::MasterVersionNotFound)
    ));
    // the whole transaction rolled back: the stored row is untouched
    assert_eq!(s.version_masters.len(), 1);
    assert_eq!(s.version_masters[0].status, 1);
}

#[test]
fn master_upload_rolls_back_every_table_on_failure() {
    let mut s = GameState::new();
    s.version_masters.push(version_row(1, 1, "1.0.0"));
    // deactivate the only version row while also uploading a fresh item row
    let updates = MasterUpdates {
        version_masters: Some(vec![version_row(1, 0, "1.0.0")]),
        item_masters: Some(vec![isuconquest::model::ItemMaster {
            id: 77,
            item_type: 3,
            name: "stone".to_string(),
            description: String::new(),
            amount_per_sec: None,
            max_level: None,
            max_amount_per_sec: None,
            base_exp_per_level: None,
            gained_exp: Some(5),
            shortening_min: None,
        }]),
        gacha_masters: None,
        gacha_item_masters: None,
        present_all_masters: None,
        login_bonus_masters: None,
        login_bonus_reward_masters: None,
    };
    assert!(matches!(
        admin_update_master(&mut s, &updates),
        Err(Error::MasterVersionNotFound)
    ));
    // nothing was committed, the item row included
    assert!(s.item_masters.is_empty());
    assert_eq!(s.version_masters[0].status, 1);
}

#[test]
fn user_inspection_collects_every_table_of_the_user() {
    let mut s = GameState::new();
    s.users.push(user_row(7));
    s.users.push(user_row(8));
    s.user_items.push(UserItem {
        id: 21,
        user_id: 7,
        item_type: 3,
        item_id: 30,
        amount: 4,
        created_at: 0,
        updated_at: 0,
        deleted_at: None,
    });
    s.user_items.push(UserItem {
        id: 22,
        user_id: 8,
        item_type: 3,
        item_id: 30,
        amount: 9,
        created_at: 0,
        updated_at: 0,
        deleted_at: None,
    });
    let r = admin_user(&s, 7).unwrap();
    assert_eq!(r.user.id, 7);
    assert_eq!(r.user_items.len(), 1);
    assert_eq!(r.user_items[0].id, 21);
    assert!(r.user_cards.is_empty());
    assert!(matches!(admin_user(&s, 9), Err(Error::UserNotFound)));
}

#[test]
fn banning_a_user_upserts_the_ban_row() {
    let mut s = GameState::new();
    s.users.push(user_row(7));
    let r1 = admin_ban_user(&mut s, 7, 100).unwrap();
    assert_eq!(r1.user.id, 7);
    assert_eq!(s.user_bans.len(), 1);
    assert_eq!(s.user_bans[0].user_id, 7);
    assert_eq!(s.user_bans[0].created_at, 100);
    // banning again refreshes the stamp on the existing row
    admin_ban_user(&mut s, 7, 200).unwrap();
    assert_eq!(s.user_bans.len(), 1);
    assert_eq!(s.user_bans[0].updated_at, 200);
    assert_eq!(s.user_bans[0].created_at, 100);
    assert!(matches!(admin_ban_user(&mut s, 9, 100), Err(Error::UserNotFound)));
}
