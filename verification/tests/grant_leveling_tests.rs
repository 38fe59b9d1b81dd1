use isuconquest::grant::obtain_item;
use isuconquest::leveling::{add_exp_to_card, list_item, ConsumeItem};
use isuconquest::model::{ItemMaster, User, UserCard, UserDevice, UserItem, UserOneTimeToken};
use isuconquest::state::GameState;
use isuconquest::Error;

fn user_row(id: i64, coin: i64) -> User {
    User {
        id,
        isu_coin: coin,
        last_get_reward_at: 0,
        last_activated_at: 0,
        registered_at: 0,
        created_at: 0,
        updated_at: 0,
        deleted_at: None,
    }
}

fn card_master(id: i64, base_aps: i64, max_level: i64, max_aps: i64, base_exp: i64) -> ItemMaster {
    ItemMaster {
        id,
        item_type: 2,
        name: format!("card-{}", id),
        description: String::new(),
        amount_per_sec: Some(base_aps),
        max_level: Some(max_level),
        max_amount_per_sec: Some(max_aps),
        base_exp_per_level: Some(base_exp),
        gained_exp: None,
        shortening_min: None,
    }
}

fn material_master(id: i64, gained_exp: i64) -> ItemMaster {
    ItemMaster {
        id,
        item_type: 3,
        name: format!("material-{}", id),
        description: String::new(),
        amount_per_sec: None,
        max_level: None,
        max_amount_per_sec: None,
        base_exp_per_level: None,
        gained_exp: Some(gained_exp),
        shortening_min: None,
    }
}

fn device_row(user_id: i64, viewer: &str) -> UserDevice {
    UserDevice {
        id: 900,
        user_id,
        platform_id: viewer.to_string(),
        platform_type: 1,
        created_at: 0,
        updated_at: 0,
        deleted_at: None,
    }
}

fn token_row(user_id: i64, tk: &str, token_type: i64, expired_at: i64) -> UserOneTimeToken {
    UserOneTimeToken {
        id: 901,
        user_id,
        token: tk.to_string(),
        token_type,
        expired_at,
        created_at: 0,
        updated_at: 0,
        deleted_at: None,
    }
}

/// The exact level-up thresholds of the masters' growth curve: the base
/// experience scaled by 1.2 per level, evaluated in floating point and
/// truncated before the comparison.
fn thresholds_for(base_exp_per_level: i64, max_level: i64) -> Vec<i64> {
    let mut t = Vec::new();
    let mut level: i64 = 1;
    while level < max_level {
        let v = base_exp_per_level as f64 * 1.2f64.powi(level as i32 - 1);
        t.push(v as i64);
        level += 1;
    }
    t
}

#[test]
fn coin_grant_accumulates_on_the_balance() {
    let mut s = GameState::new();
    s.users.push(user_row(7, 100));
    let r = obtain_item(&mut s, 7, 0, 1, 250, 10).unwrap();
    assert_eq!(s.users[0].isu_coin, 350);
    assert_eq!(r.0, vec![250]);
    assert!(r.1.is_empty() && r.2.is_empty());
}

#[test]
fn coin_grant_requires_the_user() {
    let mut s = GameState::new();
    assert!(matches!(obtain_item(&mut s, 7, 0, 1, 250, 10), Err(Error::UserNotFound)));
}

#[test]
fn card_grant_creates_a_level_one_instance() {
    let mut s = GameState::new();
    s.item_masters.push(card_master(2, 5, 10, 50, 100));
    let r = obtain_item(&mut s, 7, 2, 2, 1, 99).unwrap();
    assert_eq!(s.user_cards.len(), 1);
    let c = &s.user_cards[0];
    assert_eq!((c.id, c.user_id, c.card_id), (1, 7, 2));
    assert_eq!((c.amount_per_sec, c.level, c.total_exp), (5, 1, 0));
    assert_eq!((c.created_at, c.updated_at), (99, 99));
    assert_eq!(r.1.len(), 1);
    assert_eq!(s.next_entity_id, 1);
}

#[test]
fn card_grant_requires_the_master_row() {
    let mut s = GameState::new();
    assert!(matches!(obtain_item(&mut s, 7, 2, 2, 1, 99), Err(Error::ItemNotFound)));
}

#[test]
fn material_grant_upserts_the_stock_row() {
    let mut s = GameState::new();
    s.item_masters.push(material_master(30, 10));
    // first grant inserts
    let r1 = obtain_item(&mut s, 7, 30, 3, 4, 50).unwrap();
    assert_eq!(s.user_items.len(), 1);
    assert_eq!(s.user_items[0].amount, 4);
    assert_eq!(r1.2[0].amount, 4);
    // second grant increments the same row
    let r2 = obtain_item(&mut s, 7, 30, 3, 6, 60).unwrap();
    assert_eq!(s.user_items.len(), 1);
    assert_eq!(s.user_items[0].amount, 10);
    assert_eq!(s.user_items[0].updated_at, 60);
    assert_eq!(r2.2[0].amount, 10);
}

#[test]
fn unknown_item_type_is_rejected_with_no_effect() {
    let mut s = GameState::new();
    s.users.push(user_row(7, 100));
    assert!(matches!(obtain_item(&mut s, 7, 1, 9, 4, 50), Err(Error::InvalidItemType)));
    assert_eq!(s.users[0].isu_coin, 100);
    assert!(s.user_items.is_empty() && s.user_cards.is_empty());
}

fn leveling_state() -> GameState {
    let mut s = GameState::new();
    s.users.push(user_row(7, 0));
    s.user_devices.push(device_row(7, "v"));
    s.item_masters.push(card_master(2, 5, 5, 45, 100));
    s.item_masters.push(material_master(30, 10));
    s.user_cards.push(UserCard {
        id: 11,
        user_id: 7,
        card_id: 2,
        amount_per_sec: 5,
        level: 1,
        total_exp: 0,
        created_at: 0,
        updated_at: 0,
        deleted_at: None,
    });
    s.user_items.push(UserItem {
        id: 21,
        user_id: 7,
        item_type: 3,
        item_id: 30,
        amount: 50,
        created_at: 0,
        updated_at: 0,
        deleted_at: None,
    });
    s.tokens.push(token_row(7, "lvl-tok", 2, 1_000));
    s
}

#[test]
fn leveling_consumes_materials_and_crosses_the_float_thresholds() {
    // base exp 100, growth 1.2: thresholds 100, 120, 144, 172 (truncated)
    let mut s = leveling_state();
    let thresholds = thresholds_for(100, 5);
    assert_eq!(thresholds, vec![100, 120, 144, 172]);
    let tok = "lvl-tok".to_string();
    let viewer = "v".to_string();
    // 13 materials at 10 exp each: the accumulated 130 is compared against
    // each level's own threshold in turn:
    // 130 >= 100 (to level 2), 130 >= 120 (to level 3), 130 < 144 (stop)
    let items = vec![ConsumeItem { id: 21, amount: 13 }];
    let (card, out_items) =
        add_exp_to_card(&mut s, 7, 11, &tok, &viewer, &items, &thresholds, 500).unwrap();
    assert_eq!(card.total_exp, 130);
    assert_eq!(card.level, 3);
    // each level adds (45 - 5) / (5 - 1) = 10 production
    assert_eq!(card.amount_per_sec, 25);
    assert_eq!(card.updated_at, 500);
    // the stock went down and the response echoes it
    assert_eq!(s.user_items[0].amount, 37);
    assert_eq!(out_items[0].amount, 37);
    // the leveling token is consumed
    assert_eq!(s.tokens[0].deleted_at, Some(500));
    // leveling monotonicity: level and production never went down
    assert!(card.level >= 1 && card.level <= 5);
    assert!(card.amount_per_sec >= 5);
}

#[test]
fn leveling_stops_at_the_maximum_level() {
    let mut s = leveling_state();
    let thresholds = thresholds_for(100, 5);
    let tok = "lvl-tok".to_string();
    let viewer = "v".to_string();
    // a huge experience dump still caps at max_level
    let items = vec![ConsumeItem { id: 21, amount: 50 }];
    let (card, _) =
        add_exp_to_card(&mut s, 7, 11, &tok, &viewer, &items, &thresholds, 500).unwrap();
    assert_eq!(card.level, 5);
    assert_eq!(card.amount_per_sec, 45);
}

#[test]
fn leveling_rejects_a_card_already_at_max_level() {
    let mut s = leveling_state();
    s.user_cards[0].level = 5;
    let thresholds = thresholds_for(100, 5);
    let tok = "lvl-tok".to_string();
    let viewer = "v".to_string();
    let items = vec![ConsumeItem { id: 21, amount: 1 }];
    assert!(matches!(
        add_exp_to_card(&mut s, 7, 11, &tok, &viewer, &items, &thresholds, 500),
        Err(Error::CardMaxLevel)
    ));
}

#[test]
fn leveling_rejects_overdrawn_or_negative_consumption() {
    let mut s = leveling_state();
    let thresholds = thresholds_for(100, 5);
    let tok = "lvl-tok".to_string();
    let viewer = "v".to_string();
    let items = vec![ConsumeItem { id: 21, amount: 51 }];
    assert!(matches!(
        add_exp_to_card(&mut s, 7, 11, &tok, &viewer, &items, &thresholds, 500),
        Err(Error::InsufficientItem)
    ));
    assert_eq!(s.user_items[0].amount, 50);

    let mut s2 = leveling_state();
    let items2 = vec![ConsumeItem { id: 21, amount: -1 }];
    assert!(matches!(
        add_exp_to_card(&mut s2, 7, 11, &tok, &viewer, &items2, &thresholds, 500),
        Err(Error::InvalidRequestBody)
    ));
}

#[test]
fn leveling_rejects_an_unknown_card_or_stock_row() {
    let mut s = leveling_state();
    let thresholds = thresholds_for(100, 5);
    let tok = "lvl-tok".to_string();
    let viewer = "v".to_string();
    assert!(matches!(
        add_exp_to_card(&mut s, 7, 999, &tok, &viewer, &Vec::new(), &thresholds, 500),
        Err(Error::CardNotFound)
    ));
    let mut s2 = leveling_state();
    let items = vec![ConsumeItem { id: 999, amount: 1 }];
    assert!(matches!(
        add_exp_to_card(&mut s2, 7, 11, &tok, &viewer, &items, &thresholds, 500),
        Err(Error::ItemNotFound)
    ));
}

#[test]
fn leveling_requires_the_one_time_token() {
    let mut s = leveling_state();
    let thresholds = thresholds_for(100, 5);
    let bad = "wrong".to_string();
    let viewer = "v".to_string();
    assert!(matches!(
        add_exp_to_card(&mut s, 7, 11, &bad, &viewer, &Vec::new(), &thresholds, 500),
        Err(Error::InvalidToken)
    ));
}

#[test]
fn item_listing_returns_the_holdings_and_issues_a_leveling_token() {
    let mut s = leveling_state();
    let (token, user, items, cards) = list_item(&mut s, 7, 700).unwrap();
    assert_eq!(token.len(), 36);
    assert_eq!(user.id, 7);
    assert_eq!(items.len(), 1);
    assert_eq!(items[0].id, 21);
    assert_eq!(cards.len(), 1);
    assert_eq!(cards[0].id, 11);
    // the previous live token was rotated out; the fresh one is typed for leveling
    assert_eq!(s.tokens[0].deleted_at, Some(700));
    let fresh = s.tokens.last().unwrap();
    assert_eq!(fresh.token_type, 2);
    assert_eq!(fresh.expired_at, 700 + 600);
    assert_eq!(fresh.token, token);
}
