//! The response shell every mutating route answers with: the resources the
//! request touched, each present only when it changed.
use vstd::prelude::*;

use crate::model::User;
use crate::model::UserCard;
use crate::model::UserDeck;
use crate::model::UserDevice;
use crate::model::UserItem;
use crate::model::UserLoginBonus;
use crate::model::UserPresent;

verus! {

/// The updated resources of one request.
pub struct UpdatedResource {
    pub now: i64,
    pub user: Option<User>,
    pub user_device: Option<UserDevice>,
    pub user_cards: Option<Vec<UserCard>>,
    pub user_decks: Option<Vec<UserDeck>>,
    pub user_items: Option<Vec<UserItem>>,
    pub user_login_bonuses: Option<Vec<UserLoginBonus>>,
    pub user_presents: Option<Vec<UserPresent>>,
}

/// Assemble the response shell from what the request touched.
pub fn make_updated_resources(
    request_at: i64,
    user: Option<User>,
    user_device: Option<UserDevice>,
    user_cards: Option<Vec<UserCard>>,
    user_decks: Option<Vec<UserDeck>>,
    user_items: Option<Vec<UserItem>>,
    user_login_bonuses: Option<Vec<UserLoginBonus>>,
    user_presents: Option<Vec<UserPresent>>,
) -> (r: UpdatedResource)
    ensures
        r.now == request_at,
        r.user == user,
        r.user_device == user_device,
        r.user_cards == user_cards,
        r.user_decks == user_decks,
        r.user_items == user_items,
        r.user_login_bonuses == user_login_bonuses,
        r.user_presents == user_presents,
{
    UpdatedResource {
        now: request_at,
        user,
        user_device,
        user_cards,
        user_decks,
        user_items,
        user_login_bonuses,
        user_presents,
    }
}

} // verus!
