use isuconquest::gacha::{draw_gacha, list_gacha, pick_gacha_item, total_weight};
use isuconquest::model::{GachaItemMaster, GachaMaster, User, UserDevice, UserOneTimeToken};
use isuconquest::state::GameState;
use isuconquest::Error;

fn pool_entry(id: i64, gacha_id: i64, item_id: i64, weight: i64) -> GachaItemMaster {
    GachaItemMaster { id, gacha_id, item_type: 3, item_id, amount: 1, weight, created_at: 0 }
}

fn gacha_row(id: i64, name: &str, start_at: i64, end_at: i64, display_order: i64) -> GachaMaster {
    GachaMaster { id, name: name.to_string(), start_at, end_at, display_order, created_at: 0 }
}

fn user_row(id: i64, coin: i64) -> User {
    User {
        id,
        isu_coin: coin,
        last_get_reward_at: 0,
        last_activated_at: 0,
        registered_at: 0,
        created_at: 0,
        updated_at: 0,
        deleted_at: None,
    }
}

#[test]
fn weight_boundaries_are_inclusive_low_exclusive_high() {
    // the pool of weights 1, 2, 7 with total weight 10
    let pool = vec![pool_entry(1, 5, 101, 1), pool_entry(2, 5, 102, 2), pool_entry(3, 5, 103, 7)];
    assert_eq!(total_weight(&pool), 10);
    // a sample of 0 selects the first item
    assert_eq!(pick_gacha_item(&pool, 0), 0);
    // a sample of 1 selects the second
    assert_eq!(pick_gacha_item(&pool, 1), 1);
    assert_eq!(pick_gacha_item(&pool, 2), 1);
    // a sample of 3 selects the third
    assert_eq!(pick_gacha_item(&pool, 3), 2);
    // and so does the largest sample
    assert_eq!(pick_gacha_item(&pool, 9), 2);
}

#[test]
fn equal_weights_partition_the_sample_space_evenly() {
    let pool = vec![pool_entry(1, 5, 101, 3), pool_entry(2, 5, 102, 3)];
    assert_eq!(total_weight(&pool), 6);
    for sample in 0..3 {
        assert_eq!(pick_gacha_item(&pool, sample), 0);
    }
    for sample in 3..6 {
        assert_eq!(pick_gacha_item(&pool, sample), 1);
    }
}

fn gacha_state() -> GameState {
    let mut s = GameState::new();
    s.users.push(user_row(7, 50_000));
    s.user_devices.push(UserDevice {
        id: 900,
        user_id: 7,
        platform_id: "v".to_string(),
        platform_type: 1,
        created_at: 0,
        updated_at: 0,
        deleted_at: None,
    });
    s.gacha_masters.push(gacha_row(5, "standard", 0, 10_000, 2));
    s.gacha_masters.push(gacha_row(6, "special", 0, 10_000, 1));
    s.gacha_item_masters.push(pool_entry(1, 5, 101, 1));
    s.gacha_item_masters.push(pool_entry(2, 5, 102, 2));
    s.gacha_item_masters.push(pool_entry(3, 5, 103, 7));
    s.gacha_item_masters.push(pool_entry(4, 6, 104, 1));
    s.tokens.push(UserOneTimeToken {
        id: 901,
        user_id: 7,
        token: "draw-tok".to_string(),
        token_type: 1,
        expired_at: 1_000,
        created_at: 0,
        updated_at: 0,
        deleted_at: None,
    });
    s
}

#[test]
fn listing_orders_banners_and_issues_a_draw_token() {
    let mut s = gacha_state();
    let (token, gachas) = list_gacha(&mut s, 7, 500).unwrap();
    assert_eq!(token.len(), 36);
    // ordered by display order: the special banner (order 1) comes first
    assert_eq!(gachas.len(), 2);
    assert_eq!(gachas[0].gacha.id, 6);
    assert_eq!(gachas[1].gacha.id, 5);
    // each banner carries its pool in insertion-id order
    assert_eq!(gachas[0].gacha_item.len(), 1);
    let standard_pool = &gachas[1].gacha_item;
    assert_eq!(standard_pool.len(), 3);
    assert!(standard_pool[0].id < standard_pool[1].id && standard_pool[1].id < standard_pool[2].id);
    // the previous live token was invalidated, the fresh one is draw-typed
    assert_eq!(s.tokens[0].deleted_at, Some(500));
    let fresh = s.tokens.last().unwrap();
    assert_eq!(fresh.token_type, 1);
    assert_eq!(fresh.expired_at, 500 + 600);
    assert_eq!(&fresh.token, &token);
}

#[test]
fn listing_without_active_banners_is_empty_and_issues_nothing() {
    let mut s = gacha_state();
    let (token, gachas) = list_gacha(&mut s, 7, 20_000).unwrap();
    assert!(token.is_empty());
    assert!(gachas.is_empty());
    assert!(s.tokens[0].deleted_at.is_none());
}

#[test]
fn listing_fails_when_an_active_banner_has_no_pool() {
    let mut s = gacha_state();
    s.gacha_item_masters.retain(|x| x.gacha_id != 6);
    assert!(matches!(list_gacha(&mut s, 7, 500), Err(Error::GachaItemNotFound)));
}

#[test]
fn draw_validates_the_count_first() {
    let mut s = gacha_state();
    let tok = "draw-tok".to_string();
    let viewer = "v".to_string();
    assert!(matches!(
        draw_gacha(&mut s, 7, 5, 3, &tok, &viewer, 500),
        Err(Error::InvalidDrawCount)
    ));
    // the count gate runs before the token stage, so the token survives
    assert!(s.tokens[0].deleted_at.is_none());
}

#[test]
fn draw_charges_the_balance_and_boxes_the_prizes() {
    let mut s = gacha_state();
    let tok = "draw-tok".to_string();
    let viewer = "v".to_string();
    let presents = draw_gacha(&mut s, 7, 5, 10, &tok, &viewer, 500).unwrap();
    assert_eq!(presents.len(), 10);
    // a thousand coins per draw
    assert_eq!(s.users[0].isu_coin, 50_000 - 10_000);
    // the token is consumed
    assert_eq!(s.tokens[0].deleted_at, Some(500));
    // every prize landed in the box, minted from the drawn pool entry
    assert_eq!(s.user_presents.len(), 10);
    for (k, p) in presents.iter().enumerate() {
        assert_eq!(p.id, (k as i64) + 1);
        assert_eq!(p.user_id, 7);
        assert_eq!(p.sent_at, 500);
        assert!(p.deleted_at.is_none());
        assert!([101, 102, 103].contains(&p.item_id));
        assert!(p.present_message.contains("standard"));
    }
}

#[test]
fn draw_requires_a_covering_balance() {
    let mut s = gacha_state();
    s.users[0].isu_coin = 999;
    let tok = "draw-tok".to_string();
    let viewer = "v".to_string();
    assert!(matches!(
        draw_gacha(&mut s, 7, 5, 1, &tok, &viewer, 500),
        Err(Error::InsufficientCoin)
    ));
    // the token was nevertheless consumed by its validation
    assert_eq!(s.tokens[0].deleted_at, Some(500));
    assert_eq!(s.users[0].isu_coin, 999);
}

#[test]
fn draw_requires_an_active_banner_with_a_pool() {
    let mut s = gacha_state();
    let tok = "draw-tok".to_string();
    let viewer = "v".to_string();
    assert!(matches!(
        draw_gacha(&mut s, 7, 99, 1, &tok, &viewer, 500),
        Err(Error::GachaNotFound)
    ));

    let mut s2 = gacha_state();
    s2.gacha_item_masters.retain(|x| x.gacha_id != 5);
    let tok2 = "draw-tok".to_string();
    assert!(matches!(
        draw_gacha(&mut s2, 7, 5, 1, &tok2, &viewer, 500),
        Err(Error::GachaItemNotFound)
    ));
}

#[test]
fn draw_requires_the_device_binding() {
    let mut s = gacha_state();
    let tok = "draw-tok".to_string();
    let other = "other-viewer".to_string();
    assert!(matches!(
        draw_gacha(&mut s, 7, 5, 1, &tok, &other, 500),
        Err(Error::UserDeviceNotFound)
    ));
}
