use isuconquest::deck::{home, reward, update_deck};
use isuconquest::login::{create_user, is_complete_today_login, login};
use isuconquest::loginbonus::obtain_login_bonus;
use isuconquest::model::{
    ItemMaster, LoginBonusMaster, LoginBonusRewardMaster, PresentAllMaster, User, UserCard,
    UserDevice,
};
use isuconquest::present::{list_present, obtain_present, receive_present};
use isuconquest::response::make_updated_resources;
use isuconquest::state::GameState;
use isuconquest::Error;

fn user_row(id: i64, coin: i64) -> User {
    User {
        id,
        isu_coin: coin,
        last_get_reward_at: 0,
        last_activated_at: 0,
        registered_at: 0,
        created_at: 0,
        updated_at: 0,
        deleted_at: None,
    }
}

fn device_row(user_id: i64, viewer: &str) -> UserDevice {
    UserDevice {
        id: 900,
        user_id,
        platform_id: viewer.to_string(),
        platform_type: 1,
        created_at: 0,
        updated_at: 0,
        deleted_at: None,
    }
}

fn coin_present_master(id: i64, start: i64, end: i64, amount: i64) -> PresentAllMaster {
    PresentAllMaster {
        id,
        registered_start_at: start,
        registered_end_at: end,
        item_type: 1,
        item_id: 0,
        amount,
        present_message: format!("gift-{}", id),
        created_at: 0,
    }
}

fn bonus_master(id: i64, column_count: i64, looped: bool) -> LoginBonusMaster {
    LoginBonusMaster { id, start_at: 0, end_at: 10_000_000, column_count, looped, created_at: 0 }
}

fn bonus_reward(id: i64, bonus_id: i64, seq: i64, amount: i64) -> LoginBonusRewardMaster {
    LoginBonusRewardMaster {
        id,
        login_bonus_id: bonus_id,
        reward_sequence: seq,
        item_type: 1,
        item_id: 0,
        amount,
        created_at: 0,
    }
}

fn card_master(id: i64) -> ItemMaster {
    ItemMaster {
        id,
        item_type: 2,
        name: format!("card-{}", id),
        description: String::new(),
        amount_per_sec: Some(3),
        max_level: Some(10),
        max_amount_per_sec: Some(30),
        base_exp_per_level: Some(100),
        gained_exp: None,
        shortening_min: None,
    }
}

#[test]
fn broadcast_presents_are_granted_once_per_user() {
    let mut s = GameState::new();
    s.users.push(user_row(7, 0));
    s.present_all_masters.push(coin_present_master(50, 0, 1_000, 30));
    s.present_all_masters.push(coin_present_master(51, 2_000, 3_000, 40));

    // the first pass grants the one active present and records history
    let granted = obtain_present(&mut s, 7, 500);
    assert_eq!(granted.len(), 1);
    assert_eq!(granted[0].amount, 30);
    assert_eq!(granted[0].present_message, "gift-50");
    assert_eq!(s.user_presents.len(), 1);
    assert_eq!(s.present_history.len(), 1);
    assert_eq!(s.present_history[0].present_all_id, 50);

    // a second pass in the same window grants nothing new
    let again = obtain_present(&mut s, 7, 600);
    assert!(again.is_empty());
    assert_eq!(s.user_presents.len(), 1);
    assert_eq!(s.present_history.len(), 1);

    // another user still receives it
    let other = obtain_present(&mut s, 8, 600);
    assert_eq!(other.len(), 1);
}

#[test]
fn receipt_of_unknown_ids_is_a_successful_no_op() {
    let mut s = GameState::new();
    s.users.push(user_row(7, 0));
    s.user_devices.push(device_row(7, "v"));
    let viewer = "v".to_string();
    let ids = vec![111, 222];
    let received = receive_present(&mut s, 7, &ids, &viewer, 500).unwrap();
    assert!(received.is_empty());
    assert_eq!(s.users[0].isu_coin, 0);
}

#[test]
fn receipt_tombstones_the_rows_and_applies_their_payload() {
    let mut s = GameState::new();
    s.users.push(user_row(7, 0));
    s.user_devices.push(device_row(7, "v"));
    s.present_all_masters.push(coin_present_master(50, 0, 1_000, 30));
    let granted = obtain_present(&mut s, 7, 500);
    let viewer = "v".to_string();
    let ids = vec![granted[0].id, 999];
    let received = receive_present(&mut s, 7, &ids, &viewer, 700).unwrap();
    assert_eq!(received.len(), 1);
    assert_eq!(received[0].deleted_at, Some(700));
    assert_eq!(received[0].updated_at, 700);
    // the box row is tombstoned and the coins landed
    assert_eq!(s.user_presents[0].deleted_at, Some(700));
    assert_eq!(s.users[0].isu_coin, 30);
    // receiving the same id again is a no-op success
    let ids2 = vec![received[0].id];
    let received2 = receive_present(&mut s, 7, &ids2, &viewer, 800).unwrap();
    assert!(received2.is_empty());
    assert_eq!(s.users[0].isu_coin, 30);
}

#[test]
fn receipt_rejects_an_empty_id_list() {
    let mut s = GameState::new();
    s.user_devices.push(device_row(7, "v"));
    let viewer = "v".to_string();
    assert!(matches!(
        receive_present(&mut s, 7, &Vec::new(), &viewer, 500),
        Err(Error::EmptyPresentIds)
    ));
}

#[test]
fn login_bonus_advances_to_the_cap_and_then_stops() {
    let mut s = GameState::new();
    s.users.push(user_row(7, 0));
    s.login_bonus_masters.push(bonus_master(40, 5, false));
    for seq in 1..=5 {
        s.login_bonus_reward_masters.push(bonus_reward(400 + seq, 40, seq, 10 * seq));
    }

    // five qualifying logins walk the sequence to the cap
    for k in 1..=5i64 {
        let granted = obtain_login_bonus(&mut s, 7, 100 * k).unwrap();
        assert_eq!(granted.len(), 1);
        assert_eq!(granted[0].last_reward_sequence, k);
        assert_eq!(granted[0].loop_count, 1);
    }
    assert_eq!(s.user_login_bonuses[0].last_reward_sequence, 5);
    // the rewards were 10+20+30+40+50 coins
    assert_eq!(s.users[0].isu_coin, 150);

    // the sixth login grants nothing for this bonus
    let sixth = obtain_login_bonus(&mut s, 7, 600).unwrap();
    assert!(sixth.is_empty());
    assert_eq!(s.user_login_bonuses[0].last_reward_sequence, 5);
    assert_eq!(s.users[0].isu_coin, 150);
}

#[test]
fn looped_login_bonus_wraps_to_the_first_reward() {
    let mut s = GameState::new();
    s.users.push(user_row(7, 0));
    s.login_bonus_masters.push(bonus_master(40, 5, true));
    for seq in 1..=5 {
        s.login_bonus_reward_masters.push(bonus_reward(400 + seq, 40, seq, 10 * seq));
    }
    for k in 1..=5i64 {
        obtain_login_bonus(&mut s, 7, 100 * k).unwrap();
    }
    assert_eq!(s.users[0].isu_coin, 150);

    // the sixth login wraps: sequence one again, second loop, reward one again
    let sixth = obtain_login_bonus(&mut s, 7, 600).unwrap();
    assert_eq!(sixth.len(), 1);
    assert_eq!(sixth[0].last_reward_sequence, 1);
    assert_eq!(sixth[0].loop_count, 2);
    assert_eq!(s.users[0].isu_coin, 160);
}

#[test]
fn login_bonus_fails_atomically_on_a_missing_reward_row() {
    let mut s = GameState::new();
    s.users.push(user_row(7, 0));
    s.login_bonus_masters.push(bonus_master(40, 5, false));
    // no reward rows at all: the pass aborts and touches nothing
    assert!(matches!(
        obtain_login_bonus(&mut s, 7, 100),
        Err(Error::LoginBonusRewardNotFound)
    ));
    assert!(s.user_login_bonuses.is_empty());
    assert_eq!(s.users[0].isu_coin, 0);
    assert_eq!(s.next_entity_id, 0);
}

#[test]
fn same_jst_day_decides_whether_login_processing_runs() {
    // 2022-06-30 14:59:59 UTC is 23:59:59 June 30 at UTC+9;
    // one second later the UTC+9 calendar turns to July 1
    let before_midnight = 1656601199i64;
    let after_midnight = 1656601200i64;
    assert!(is_complete_today_login(before_midnight, before_midnight));
    assert!(!is_complete_today_login(before_midnight, after_midnight));
    assert!(is_complete_today_login(after_midnight, after_midnight + 3600));
}

#[test]
fn login_rotates_the_session_and_runs_the_daily_passes_once() {
    let mut s = GameState::new();
    s.users.push(user_row(7, 0));
    s.user_devices.push(device_row(7, "v"));
    s.present_all_masters.push(coin_present_master(50, 0, 2_000_000_000, 30));
    let viewer = "v".to_string();

    let day1 = 1656601199i64;
    let out1 = login(&mut s, 7, &viewer, day1).unwrap();
    assert!(out1.processed);
    assert_eq!(out1.presents.len(), 1);
    assert_eq!(out1.session.user_id, 7);
    assert_eq!(out1.session.expired_at, day1 + 86400);
    assert_eq!(out1.user.last_activated_at, day1);
    assert_eq!(s.sessions.len(), 1);

    // a second login on the same UTC+9 day rotates the session but skips the passes
    let out2 = login(&mut s, 7, &viewer, day1 - 3600).unwrap();
    assert!(!out2.processed);
    assert!(out2.presents.is_empty());
    assert_eq!(s.sessions.len(), 2);
    assert_eq!(s.sessions[0].deleted_at, Some(day1 - 3600));
    assert_eq!(s.user_presents.len(), 1);

    // the next UTC+9 day processes again, but the broadcast stays granted once
    let day2 = 1656601200i64;
    let out3 = login(&mut s, 7, &viewer, day2).unwrap();
    assert!(out3.processed);
    assert!(out3.presents.is_empty());
    assert_eq!(s.user_presents.len(), 1);
}

#[test]
fn login_rejects_unknown_banned_or_unbound_users() {
    let mut s = GameState::new();
    s.users.push(user_row(7, 0));
    s.user_devices.push(device_row(7, "v"));
    let viewer = "v".to_string();
    assert!(matches!(login(&mut s, 9, &viewer, 1000), Err(Error::UserNotFound)));
    let other = "w".to_string();
    assert!(matches!(login(&mut s, 7, &other, 1000), Err(Error::UserDeviceNotFound)));
    s.user_bans.push(isuconquest::model::UserBan {
        id: 1,
        user_id: 7,
        created_at: 0,
        updated_at: 0,
        deleted_at: None,
    });
    assert!(matches!(login(&mut s, 7, &viewer, 1000), Err(Error::Forbidden)));
}

#[test]
fn registration_builds_the_account_and_its_initial_deck() {
    let mut s = GameState::new();
    s.item_masters.push(card_master(2));
    let viewer = "fresh-viewer".to_string();
    let out = create_user(&mut s, &viewer, 2, 1_000).unwrap();
    assert_eq!(out.user_id, 1);
    assert_eq!(out.viewer_id, "fresh-viewer");
    assert_eq!(out.session_id.len(), 36);
    assert_eq!(out.user_device.user_id, 1);
    assert_eq!(out.user_device.platform_type, 2);
    assert_eq!(out.init_cards.len(), 3);
    for c in &out.init_cards {
        assert_eq!(c.card_id, 2);
        assert_eq!(c.level, 1);
        assert_eq!(c.amount_per_sec, 3);
    }
    assert_eq!(out.init_deck.card_id1, out.init_cards[0].id);
    assert_eq!(out.init_deck.card_id2, out.init_cards[1].id);
    assert_eq!(out.init_deck.card_id3, out.init_cards[2].id);
    assert_eq!(s.users.len(), 1);
    assert_eq!(s.user_cards.len(), 3);
    assert_eq!(s.user_decks.len(), 1);
    assert_eq!(s.sessions.len(), 1);
    assert_eq!(out.user.last_activated_at, 1_000);
}

#[test]
fn registration_validates_the_request_body() {
    let mut s = GameState::new();
    s.item_masters.push(card_master(2));
    let empty = String::new();
    assert!(matches!(create_user(&mut s, &empty, 1, 1_000), Err(Error::InvalidRequestBody)));
    let viewer = "v".to_string();
    assert!(matches!(create_user(&mut s, &viewer, 0, 1_000), Err(Error::InvalidRequestBody)));
    assert!(matches!(create_user(&mut s, &viewer, 4, 1_000), Err(Error::InvalidRequestBody)));
    assert!(s.users.is_empty());
}

#[test]
fn registration_requires_the_initial_deck_master() {
    let mut s = GameState::new();
    let viewer = "v".to_string();
    assert!(matches!(create_user(&mut s, &viewer, 1, 1_000), Err(Error::ItemNotFound)));
}

#[test]
fn deck_update_replaces_the_active_deck() {
    let mut s = GameState::new();
    s.user_devices.push(device_row(7, "v"));
    for k in 0..4i64 {
        s.user_cards.push(UserCard {
            id: 10 + k,
            user_id: 7,
            card_id: 2,
            amount_per_sec: 3,
            level: 1,
            total_exp: 0,
            created_at: 0,
            updated_at: 0,
            deleted_at: None,
        });
    }
    let viewer = "v".to_string();
    let deck1 = update_deck(&mut s, 7, &vec![10, 11, 12], &viewer, 100).unwrap();
    assert_eq!((deck1.card_id1, deck1.card_id2, deck1.card_id3), (10, 11, 12));
    let deck2 = update_deck(&mut s, 7, &vec![11, 12, 13], &viewer, 200).unwrap();
    assert_eq!(s.user_decks.len(), 2);
    assert_eq!(s.user_decks[0].deleted_at, Some(200));
    assert!(s.user_decks[1].deleted_at.is_none());
    assert_eq!(s.user_decks[1].id, deck2.id);

    assert!(matches!(
        update_deck(&mut s, 7, &vec![10, 11], &viewer, 300),
        Err(Error::InvalidCardCount)
    ));
    assert!(matches!(
        update_deck(&mut s, 7, &vec![10, 11, 99], &viewer, 300),
        Err(Error::InvalidCardIds)
    ));

    // a card owned by another user cannot enter the deck
    s.user_cards.push(UserCard {
        id: 30,
        user_id: 8,
        card_id: 2,
        amount_per_sec: 3,
        level: 1,
        total_exp: 0,
        created_at: 0,
        updated_at: 0,
        deleted_at: None,
    });
    assert!(matches!(
        update_deck(&mut s, 7, &vec![10, 11, 30], &viewer, 300),
        Err(Error::InvalidCardIds)
    ));
}

#[test]
fn reward_credits_elapsed_production() {
    let mut s = GameState::new();
    let mut u = user_row(7, 100);
    u.last_get_reward_at = 1_000;
    s.users.push(u);
    s.user_devices.push(device_row(7, "v"));
    for k in 0..3i64 {
        s.user_cards.push(UserCard {
            id: 10 + k,
            user_id: 7,
            card_id: 2,
            amount_per_sec: 2 + k,
            level: 1,
            total_exp: 0,
            created_at: 0,
            updated_at: 0,
            deleted_at: None,
        });
    }
    s.user_decks.push(isuconquest::model::UserDeck {
        id: 30,
        user_id: 7,
        card_id1: 10,
        card_id2: 11,
        card_id3: 12,
        created_at: 0,
        updated_at: 0,
        deleted_at: None,
    });
    let viewer = "v".to_string();
    // 500 elapsed seconds at 2 + 3 + 4 production per second
    let updated = reward(&mut s, 7, &viewer, 1_500).unwrap();
    assert_eq!(updated.isu_coin, 100 + 500 * 9);
    assert_eq!(updated.last_get_reward_at, 1_500);
    assert_eq!(s.users[0].isu_coin, 100 + 4_500);

    s.user_decks[0].deleted_at = Some(1_600);
    assert!(matches!(reward(&mut s, 7, &viewer, 1_700), Err(Error::DeckNotFound)));
}

#[test]
fn home_reports_the_deck_production_and_elapsed_time() {
    let mut s = GameState::new();
    let mut u = user_row(7, 0);
    u.last_get_reward_at = 1_000;
    s.users.push(u);
    for k in 0..3i64 {
        s.user_cards.push(UserCard {
            id: 10 + k,
            user_id: 7,
            card_id: 2,
            amount_per_sec: 5,
            level: 1,
            total_exp: 0,
            created_at: 0,
            updated_at: 0,
            deleted_at: None,
        });
    }
    s.user_decks.push(isuconquest::model::UserDeck {
        id: 30,
        user_id: 7,
        card_id1: 10,
        card_id2: 11,
        card_id3: 12,
        created_at: 0,
        updated_at: 0,
        deleted_at: None,
    });
    let h = home(&s, 7, 1_250).unwrap();
    assert_eq!(h.total_amount_per_sec, 15);
    assert_eq!(h.past_time, 250);
    assert!(h.deck.is_some());

    let mut s2 = GameState::new();
    s2.users.push(user_row(7, 0));
    let h2 = home(&s2, 7, 10).unwrap();
    assert!(h2.deck.is_none());
    assert_eq!(h2.total_amount_per_sec, 0);
}

#[test]
fn present_listing_pages_by_hundred_newest_first() {
    let mut s = GameState::new();
    for k in 0..150i64 {
        s.user_presents.push(isuconquest::model::UserPresent {
            id: k + 1,
            user_id: 7,
            sent_at: k,
            item_type: 1,
            item_id: 0,
            amount: 1,
            present_message: String::new(),
            created_at: k,
            updated_at: k,
            deleted_at: None,
        });
    }
    let (page1, next1) = list_present(&s, 7, 1).unwrap();
    assert_eq!(page1.len(), 100);
    assert!(next1);
    // newest first: the listing starts at the latest creation stamp
    assert_eq!(page1[0].created_at, 149);
    assert_eq!(page1[99].created_at, 50);
    let (page2, next2) = list_present(&s, 7, 2).unwrap();
    assert_eq!(page2.len(), 50);
    assert!(!next2);
    assert_eq!(page2[49].created_at, 0);
    let (page3, next3) = list_present(&s, 7, 3).unwrap();
    assert!(page3.is_empty());
    assert!(!next3);
    assert!(matches!(list_present(&s, 7, 0), Err(Error::InvalidPage)));
}

#[test]
fn updated_resources_carry_exactly_what_was_touched() {
    let u = user_row(7, 5);
    let r = make_updated_resources(123, Some(u), None, None, None, None, None, None);
    assert_eq!(r.now, 123);
    assert_eq!(r.user.as_ref().map(|x| x.id), Some(7));
    assert!(r.user_device.is_none());
    assert!(r.user_presents.is_none());
}
