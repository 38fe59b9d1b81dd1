//! The production deck: the exactly-three-card active loadout, the passive
//! reward it accrues, and the home summary.
use vstd::prelude::*;

use crate::Error;
use crate::model::User;
use crate::model::UserCard;
use crate::model::UserDeck;
use crate::state::GameState;
use crate::state::find_live_deck;
use crate::state::find_user;
use crate::state::first_idx;
use crate::state::generate_id;
use crate::state::masters_unchanged;
use crate::state::p_live_deck;
use crate::state::p_user;
use crate::state::sat64;
use crate::state::sat_add;
use crate::state::sat_mul;
use crate::state::sat_sub;
use crate::admission::check_viewer_id;
use crate::admission::device_bound;
use crate::login::state_unchanged;

verus! {

/// A card row one of the three ids names.
pub open spec fn p_card_of_three(c1: i64, c2: i64, c3: i64) -> spec_fn(UserCard) -> bool {
    |x: UserCard| x.id == c1 || x.id == c2 || x.id == c3
}

/// The card rows matching any of three instance ids, in table order (the
/// store's id-set fetch).
#[verifier::loop_isolation(false)]
fn collect_cards_of_three(rows: &Vec<UserCard>, c1: i64, c2: i64, c3: i64) -> (r: Vec<UserCard>)
    ensures
        r@ == rows@.filter(p_card_of_three(c1, c2, c3)),
{
    proof {
        reveal(Seq::filter);
    }
    let n = rows.len();
    let mut r: Vec<UserCard> = Vec::new();
    proof {
        assert(rows@.take(0) =~= Seq::<UserCard>::empty());
        assert(rows@.take(0).filter(p_card_of_three(c1, c2, c3)) =~= Seq::<UserCard>::empty());
    }
    let mut i: usize = 0;
    while i < n
        invariant
            0 <= i <= n,
            r@ == rows@.take(i as int).filter(p_card_of_three(c1, c2, c3)),
        decreases n - i,
    {
        proof {
            reveal(Seq::filter);
            assert(rows@.take(i as int + 1).drop_last() =~= rows@.take(i as int));
            assert(rows@.take(i as int + 1).last() == rows@[i as int]);
        }
        if rows[i].id == c1 || rows[i].id == c2 || rows[i].id == c3 {
            r.push(rows[i]);
        }
        i = i + 1;
    }
    proof {
        assert(rows@.take(n as int) =~= rows@);
    }
    r
}

/// A card instance the user owns that one of the three ids names. The store
/// defines a card as an owned instance, so a deck may only name the
/// requesting user's own cards.
pub open spec fn p_owned_card_of_three(user_id: i64, c1: i64, c2: i64, c3: i64) -> spec_fn(
    UserCard,
) -> bool {
    |x: UserCard| x.user_id == user_id && (x.id == c1 || x.id == c2 || x.id == c3)
}

/// The user's own card rows matching any of three instance ids, in table
/// order.
#[verifier::loop_isolation(false)]
fn collect_owned_cards_of_three(
    rows: &Vec<UserCard>,
    user_id: i64,
    c1: i64,
    c2: i64,
    c3: i64,
) -> (r: Vec<UserCard>)
    ensures
        r@ == rows@.filter(p_owned_card_of_three(user_id, c1, c2, c3)),
{
    proof {
        reveal(Seq::filter);
    }
    let n = rows.len();
    let mut r: Vec<UserCard> = Vec::new();
    proof {
        assert(rows@.take(0) =~= Seq::<UserCard>::empty());
        assert(rows@.take(0).filter(p_owned_card_of_three(user_id, c1, c2, c3)) =~= Seq::<
            UserCard,
        >::empty());
    }
    let mut i: usize = 0;
    while i < n
        invariant
            0 <= i <= n,
            r@ == rows@.take(i as int).filter(p_owned_card_of_three(user_id, c1, c2, c3)),
        decreases n - i,
    {
        proof {
            reveal(Seq::filter);
            assert(rows@.take(i as int + 1).drop_last() =~= rows@.take(i as int));
            assert(rows@.take(i as int + 1).last() == rows@[i as int]);
        }
        if rows[i].user_id == user_id && (rows[i].id == c1 || rows[i].id == c2 || rows[i].id
            == c3) {
            r.push(rows[i]);
        }
        i = i + 1;
    }
    proof {
        assert(rows@.take(n as int) =~= rows@);
    }
    r
}

/// A deck row after its replacement is tombstoned.
pub open spec fn deck_tombstoned(x: UserDeck, now: i64) -> UserDeck {
    UserDeck { updated_at: now, deleted_at: Some(now), ..x }
}

/// The deck table after rotation: the user's live decks tombstoned, the new
/// deck appended.
pub open spec fn sp_deck_rotation(
    decks: Seq<UserDeck>,
    user_id: i64,
    now: i64,
    fresh: UserDeck,
) -> Seq<UserDeck> {
    decks.map(
        |j: int, x: UserDeck|
            if x.user_id == user_id && x.deleted_at is None {
                deck_tombstoned(x, now)
            } else {
                x
            },
    ).push(fresh)
}

/// Replace the active deck: the request must name exactly three card
/// instances owned by the user; the previous live deck is tombstoned and the
/// new one created.
#[verifier::loop_isolation(false)]
pub fn update_deck(
    s: &mut GameState,
    user_id: i64,
    card_ids: &Vec<i64>,
    viewer_id: &String,
    now: i64,
) -> (r: Result<UserDeck, Error>)
    requires
        old(s).next_entity_id < i64::MAX,
    ensures
        card_ids@.len() != 3 ==> r == Result::<UserDeck, Error>::Err(Error::InvalidCardCount)
            && state_unchanged(*old(s), *final(s)),
        card_ids@.len() == 3 && !device_bound(old(s).user_devices@, user_id, viewer_id@) ==> r
            == Result::<UserDeck, Error>::Err(Error::UserDeviceNotFound) && state_unchanged(
            *old(s),
            *final(s),
        ),
        card_ids@.len() == 3 && device_bound(old(s).user_devices@, user_id, viewer_id@) ==> ({
            let matching = old(s).user_cards@.filter(
                p_owned_card_of_three(user_id, card_ids@[0], card_ids@[1], card_ids@[2]),
            );
            if matching.len() != 3 {
                r == Result::<UserDeck, Error>::Err(Error::InvalidCardIds) && state_unchanged(
                    *old(s),
                    *final(s),
                )
            } else {
                let fresh = UserDeck {
                    id: (old(s).next_entity_id + 1) as i64,
                    user_id: user_id,
                    card_id1: card_ids@[0],
                    card_id2: card_ids@[1],
                    card_id3: card_ids@[2],
                    created_at: now,
                    updated_at: now,
                    deleted_at: None,
                };
                &&& r == Result::<UserDeck, Error>::Ok(fresh)
                &&& final(s).user_decks@ == sp_deck_rotation(
                    old(s).user_decks@,
                    user_id,
                    now,
                    fresh,
                )
                &&& final(s).next_entity_id == old(s).next_entity_id + 1
                &&& final(s).users@ == old(s).users@
                &&& final(s).user_cards@ == old(s).user_cards@
                &&& final(s).user_items@ == old(s).user_items@
                &&& final(s).sessions@ == old(s).sessions@
                &&& final(s).tokens@ == old(s).tokens@
                &&& final(s).user_presents@ == old(s).user_presents@
                &&& final(s).present_history@ == old(s).present_history@
                &&& final(s).user_login_bonuses@ == old(s).user_login_bonuses@
                &&& final(s).user_devices@ == old(s).user_devices@
                &&& final(s).user_bans@ == old(s).user_bans@
                &&& final(s).admin_sessions@ == old(s).admin_sessions@
                &&& final(s).admin_users@ == old(s).admin_users@
                &&& masters_unchanged(*old(s), *final(s))
            }
        }),
{
    if card_ids.len() != 3 {
        return Err(Error::InvalidCardCount);
    }
    if let Err(e) = check_viewer_id(s, user_id, viewer_id) {
        return Err(e);
    }

    let c1 = card_ids[0];
    let c2 = card_ids[1];
    let c3 = card_ids[2];
    let cards = collect_owned_cards_of_three(&s.user_cards, user_id, c1, c2, c3);
    if cards.len() != 3 {
        return Err(Error::InvalidCardIds);
    }

    // tombstone the previous live deck and create the new one
    let n = s.user_decks.len();
    let mut i: usize = 0;
    while i < n
        invariant
            n == s.user_decks@.len(),
            0 <= i <= n,
            forall|j: int|
                0 <= j < i ==> s.user_decks@[j] == (if old(s).user_decks@[j].user_id == user_id
                    && old(s).user_decks@[j].deleted_at is None {
                    deck_tombstoned(old(s).user_decks@[j], now)
                } else {
                    old(s).user_decks@[j]
                }),
            forall|j: int| i <= j < n ==> s.user_decks@[j] == old(s).user_decks@[j],
            s.next_entity_id == old(s).next_entity_id,
            s.users@ == old(s).users@,
            s.user_cards@ == old(s).user_cards@,
            s.user_items@ == old(s).user_items@,
            s.sessions@ == old(s).sessions@,
            s.tokens@ == old(s).tokens@,
            s.user_presents@ == old(s).user_presents@,
            s.present_history@ == old(s).present_history@,
            s.user_login_bonuses@ == old(s).user_login_bonuses@,
            s.user_devices@ == old(s).user_devices@,
            s.user_bans@ == old(s).user_bans@,
            s.admin_sessions@ == old(s).admin_sessions@,
            s.admin_users@ == old(s).admin_users@,
            masters_unchanged(*old(s), *s),
        decreases n - i,
    {
        if s.user_decks[i].user_id == user_id && s.user_decks[i].deleted_at.is_none() {
            s.user_decks[i].updated_at = now;
            s.user_decks[i].deleted_at = Some(now);
        }
        i = i + 1;
    }

    let ud_id = generate_id(s);
    let new_deck = UserDeck {
        id: ud_id,
        user_id: user_id,
        card_id1: c1,
        card_id2: c2,
        card_id3: c3,
        created_at: now,
        updated_at: now,
        deleted_at: None,
    };
    s.user_decks.push(new_deck);
    proof {
        assert(s.user_decks@ =~= sp_deck_rotation(old(s).user_decks@, user_id, now, new_deck));
    }
    Ok(new_deck)
}

/// The coin reward one collection accrues: elapsed seconds times the deck's
/// summed production rate, accumulated with 64-bit clamping.
pub open spec fn sp_reward_coin(user: User, cards: Seq<UserCard>, now: i64) -> int {
    let aps = sat64(
        sat64(cards[0].amount_per_sec + cards[1].amount_per_sec) + cards[2].amount_per_sec,
    );
    let past = sat64(now - user.last_get_reward_at);
    sat64(user.isu_coin + sat64(past * aps))
}

/// A user row after collecting the reward.
pub open spec fn rewarded_user(x: User, cards: Seq<UserCard>, now: i64) -> User {
    User { isu_coin: sp_reward_coin(x, cards, now) as i64, last_get_reward_at: now, ..x }
}

/// Collect the passive reward: elapsed time since the last collection times
/// the active deck's production rate, credited to the balance.
#[verifier::loop_isolation(false)]
pub fn reward(s: &mut GameState, user_id: i64, viewer_id: &String, now: i64) -> (r: Result<
    User,
    Error,
>)
    ensures
        !device_bound(old(s).user_devices@, user_id, viewer_id@) ==> r == Result::<
            User,
            Error,
        >::Err(Error::UserDeviceNotFound) && state_unchanged(*old(s), *final(s)),
        device_bound(old(s).user_devices@, user_id, viewer_id@) ==> ({
            let u = first_idx(old(s).users@, p_user(user_id));
            let d = first_idx(old(s).user_decks@, p_live_deck(user_id));
            if u is None {
                r == Result::<User, Error>::Err(Error::UserNotFound) && state_unchanged(
                    *old(s),
                    *final(s),
                )
            } else if d is None {
                r == Result::<User, Error>::Err(Error::DeckNotFound) && state_unchanged(
                    *old(s),
                    *final(s),
                )
            } else {
                let deck = old(s).user_decks@[d->0];
                let cards = old(s).user_cards@.filter(
                    p_card_of_three(deck.card_id1, deck.card_id2, deck.card_id3),
                );
                if cards.len() != 3 {
                    r == Result::<User, Error>::Err(Error::InvalidCardCount) && state_unchanged(
                        *old(s),
                        *final(s),
                    )
                } else {
                    let updated = rewarded_user(old(s).users@[u->0], cards, now);
                    &&& r == Result::<User, Error>::Ok(updated)
                    &&& final(s).users@ == old(s).users@.update(u->0, updated)
                    &&& final(s).next_entity_id == old(s).next_entity_id
                    &&& final(s).user_decks@ == old(s).user_decks@
                    &&& final(s).user_cards@ == old(s).user_cards@
                    &&& final(s).user_items@ == old(s).user_items@
                    &&& final(s).sessions@ == old(s).sessions@
                    &&& final(s).tokens@ == old(s).tokens@
                    &&& final(s).user_presents@ == old(s).user_presents@
                    &&& final(s).present_history@ == old(s).present_history@
                    &&& final(s).user_login_bonuses@ == old(s).user_login_bonuses@
                    &&& final(s).user_devices@ == old(s).user_devices@
                    &&& final(s).user_bans@ == old(s).user_bans@
                    &&& final(s).admin_sessions@ == old(s).admin_sessions@
                    &&& final(s).admin_users@ == old(s).admin_users@
                    &&& masters_unchanged(*old(s), *final(s))
                }
            }
        }),
{
    if let Err(e) = check_viewer_id(s, user_id, viewer_id) {
        return Err(e);
    }
    let u = match find_user(&s.users, user_id) {
        Some(u) => u,
        None => {
            return Err(Error::UserNotFound);
        },
    };
    let d = match find_live_deck(&s.user_decks, user_id) {
        Some(d) => d,
        None => {
            return Err(Error::DeckNotFound);
        },
    };
    let deck = s.user_decks[d];
    let cards = collect_cards_of_three(&s.user_cards, deck.card_id1, deck.card_id2, deck.card_id3);
    if cards.len() != 3 {
        return Err(Error::InvalidCardCount);
    }

    let user = s.users[u];
    let past_time = sat_sub(now, user.last_get_reward_at);
    let aps = sat_add(sat_add(cards[0].amount_per_sec, cards[1].amount_per_sec), cards[2].amount_per_sec);
    let get_coin = sat_mul(past_time, aps);
    let new_coin = sat_add(user.isu_coin, get_coin);

    s.users[u].isu_coin = new_coin;
    s.users[u].last_get_reward_at = now;
    let updated = s.users[u];
    proof {
        assert(updated == rewarded_user(old(s).users@[u as int], cards@, now));
        assert(s.users@ =~= old(s).users@.update(u as int, updated));
    }
    Ok(updated)
}

/// The home summary: the active deck if any, its total production rate, and
/// the seconds elapsed since the last reward collection.
pub struct HomeSummary {
    pub now: i64,
    pub user: User,
    pub deck: Option<UserDeck>,
    pub total_amount_per_sec: i64,
    pub past_time: i64,
}

/// The summed production rate of the deck's cards, clamped.
pub open spec fn sp_total_aps(cards: Seq<UserCard>) -> int
    decreases cards.len(),
{
    if cards.len() == 0 {
        0
    } else {
        sat64(sp_total_aps(cards.drop_last()) + cards.last().amount_per_sec)
    }
}

/// Read-only home view of a user's production state.
#[verifier::loop_isolation(false)]
pub fn home(s: &GameState, user_id: i64, now: i64) -> (r: Result<HomeSummary, Error>)
    ensures
        ({
            let u = first_idx(s.users@, p_user(user_id));
            let d = first_idx(s.user_decks@, p_live_deck(user_id));
            if u is None {
                r == Result::<HomeSummary, Error>::Err(Error::UserNotFound)
            } else {
                let user = s.users@[u->0];
                &&& r matches Ok(h)
                &&& r->Ok_0.now == now
                &&& r->Ok_0.user == user
                &&& r->Ok_0.past_time as int == sat64(now - user.last_get_reward_at)
                &&& (d is None ==> r->Ok_0.deck is None && r->Ok_0.total_amount_per_sec == 0)
                &&& (d is Some ==> {
                    let deck = s.user_decks@[d->0];
                    &&& r->Ok_0.deck == Some(deck)
                    &&& r->Ok_0.total_amount_per_sec as int == sp_total_aps(
                        s.user_cards@.filter(
                            p_card_of_three(deck.card_id1, deck.card_id2, deck.card_id3),
                        ),
                    )
                })
            }
        }),
{
    let deck_idx = find_live_deck(&s.user_decks, user_id);
    let (deck, total_amount_per_sec) = match deck_idx {
        Some(d) => {
            let deck = s.user_decks[d];
            let cards = collect_cards_of_three(
                &s.user_cards,
                deck.card_id1,
                deck.card_id2,
                deck.card_id3,
            );
            let m = cards.len();
            let mut total: i64 = 0;
            let mut k: usize = 0;
            while k < m
                invariant
                    0 <= k <= m,
                    m == cards@.len(),
                    total as int == sp_total_aps(cards@.take(k as int)),
                decreases m - k,
            {
                proof {
                    assert(cards@.take(k as int + 1).drop_last() =~= cards@.take(k as int));
                    assert(cards@.take(k as int + 1).last() == cards@[k as int]);
                }
                total = sat_add(total, cards[k].amount_per_sec);
                k = k + 1;
            }
            proof {
                assert(cards@.take(m as int) =~= cards@);
            }
            (Some(deck), total)
        },
        None => (None, 0),
    };

    let u = match find_user(&s.users, user_id) {
        Some(u) => u,
        None => {
            return Err(Error::UserNotFound);
        },
    };
    let user = s.users[u];
    let past_time = sat_sub(now, user.last_get_reward_at);

    Ok(
        HomeSummary {
            now: now,
            user: user,
            deck: deck,
            total_amount_per_sec: total_amount_per_sec,
            past_time: past_time,
        },
    )
}

} // verus!
