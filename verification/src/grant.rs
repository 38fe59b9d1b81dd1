//! The resource grant engine: type-dispatched granting of coins, cards and
//! enhancement materials. All branches run inside the caller's transaction;
//! the engine never commits.
use vstd::prelude::*;

use crate::Error;
use crate::model::ItemMaster;
use crate::model::User;
use crate::model::UserCard;
use crate::model::UserItem;
use crate::state::GameState;
use crate::state::find_item_master;
use crate::state::find_user;
use crate::state::find_user_item;
use crate::state::first_idx;
use crate::state::generate_id;
use crate::state::item_master_wf;
use crate::state::masters_unchanged;
use crate::state::masters_wf;
use crate::state::p_item_master;
use crate::state::p_user;
use crate::state::p_user_item;
use crate::state::sat64;
use crate::state::sat_add;

verus! {

/// The tables a grant may touch, as one ghost value: user rows (coin
/// balances), card instances, material stocks, and the id counter.
pub ghost struct GrantView {
    pub users: Seq<User>,
    pub cards: Seq<UserCard>,
    pub items: Seq<UserItem>,
    pub next_id: int,
}

pub open spec fn grant_view(s: GameState) -> GrantView {
    GrantView {
        users: s.users@,
        cards: s.user_cards@,
        items: s.user_items@,
        next_id: s.next_entity_id as int,
    }
}

/// Everything a grant never touches is unchanged.
pub open spec fn grant_frame(pre: GameState, post: GameState) -> bool {
    &&& post.user_devices@ == pre.user_devices@
    &&& post.user_bans@ == pre.user_bans@
    &&& post.sessions@ == pre.sessions@
    &&& post.admin_sessions@ == pre.admin_sessions@
    &&& post.tokens@ == pre.tokens@
    &&& post.user_decks@ == pre.user_decks@
    &&& post.user_login_bonuses@ == pre.user_login_bonuses@
    &&& post.user_presents@ == pre.user_presents@
    &&& post.present_history@ == pre.present_history@
    &&& post.admin_users@ == pre.admin_users@
    &&& masters_unchanged(pre, post)
}

/// Both states as grant views, with the untouched tables and counter equal.
pub open spec fn grant_unchanged(pre: GameState, post: GameState) -> bool {
    &&& grant_frame(pre, post)
    &&& grant_view(post) == grant_view(pre)
}

/// A user row after a coin grant: the balance accumulates, clamped to the
/// 64-bit column range.
pub open spec fn coin_added(u: User, amount: i64) -> User {
    User { isu_coin: sat64(u.isu_coin + amount) as i64, ..u }
}

/// A stock row after an increment, with its update stamp.
pub open spec fn stock_added(x: UserItem, amount: i64, now: i64) -> UserItem {
    UserItem { amount: sat64(x.amount + amount) as i64, updated_at: now, ..x }
}

/// A freshly granted card instance: level one, no experience, the master's
/// base production rate.
pub open spec fn new_card(id: i64, user_id: i64, m: ItemMaster, now: i64) -> UserCard {
    UserCard {
        id: id,
        user_id: user_id,
        card_id: m.id,
        amount_per_sec: m.amount_per_sec->0,
        level: 1,
        total_exp: 0,
        created_at: now,
        updated_at: now,
        deleted_at: None,
    }
}

/// A freshly created stock row holding the granted amount.
pub open spec fn new_user_item(id: i64, user_id: i64, m: ItemMaster, amount: i64, now: i64) -> UserItem {
    UserItem {
        id: id,
        user_id: user_id,
        item_type: m.item_type,
        item_id: m.id,
        amount: amount,
        created_at: now,
        updated_at: now,
        deleted_at: None,
    }
}

/// When a grant succeeds: a known item type whose referenced row exists — the
/// user for a coin grant, the item master for a card or material grant.
pub open spec fn grant_valid(
    users: Seq<User>,
    masters: Seq<ItemMaster>,
    user_id: i64,
    item_type: i64,
    item_id: i64,
) -> bool {
    if item_type == 1 {
        first_idx(users, p_user(user_id)) is Some
    } else if item_type == 2 || item_type == 3 || item_type == 4 {
        first_idx(masters, p_item_master(item_id, item_type)) is Some
    } else {
        false
    }
}

/// The error a failing grant reports: an unknown type is a validation error;
/// a missing referenced row is the matching not-found error.
pub open spec fn grant_error(item_type: i64) -> Error {
    if item_type == 1 {
        Error::UserNotFound
    } else if item_type == 2 || item_type == 3 || item_type == 4 {
        Error::ItemNotFound
    } else {
        Error::InvalidItemType
    }
}

/// The grant's exact effect on the touched tables. Coin grants accumulate on
/// the first matching user row; card grants append a new instance under a
/// fresh id; material grants upsert the per-(user, item) stock row.
pub open spec fn sp_grant(
    g: GrantView,
    masters: Seq<ItemMaster>,
    user_id: i64,
    item_type: i64,
    item_id: i64,
    amount: i64,
    now: i64,
) -> GrantView {
    if item_type == 1 {
        match first_idx(g.users, p_user(user_id)) {
            Some(i) => GrantView { users: g.users.update(i, coin_added(g.users[i], amount)), ..g },
            None => g,
        }
    } else if item_type == 2 {
        match first_idx(masters, p_item_master(item_id, item_type)) {
            Some(m) => GrantView {
                cards: g.cards.push(new_card((g.next_id + 1) as i64, user_id, masters[m], now)),
                next_id: g.next_id + 1,
                ..g
            },
            None => g,
        }
    } else if item_type == 3 || item_type == 4 {
        match first_idx(masters, p_item_master(item_id, item_type)) {
            Some(m) => match first_idx(g.items, p_user_item(user_id, item_id)) {
                Some(i) => GrantView {
                    items: g.items.update(i, stock_added(g.items[i], amount, now)),
                    ..g
                },
                None => GrantView {
                    items: g.items.push(
                        new_user_item((g.next_id + 1) as i64, user_id, masters[m], amount, now),
                    ),
                    next_id: g.next_id + 1,
                    ..g
                },
            },
            None => g,
        }
    } else {
        g
    }
}

/// Grant `amount` of the item `(item_type, item_id)` to `user_id`, returning
/// the granted coins, cards and stock rows as the store now holds them.
pub fn obtain_item(
    s: &mut GameState,
    user_id: i64,
    item_id: i64,
    item_type: i64,
    obtain_amount: i64,
    now: i64,
) -> (r: Result<(Vec<i64>, Vec<UserCard>, Vec<UserItem>), Error>)
    requires
        masters_wf(*old(s)),
        old(s).next_entity_id < i64::MAX,
    ensures
        grant_frame(*old(s), *final(s)),
        r is Ok <==> grant_valid(old(s).users@, old(s).item_masters@, user_id, item_type, item_id),
        r is Ok ==> grant_view(*final(s)) == sp_grant(
            grant_view(*old(s)),
            old(s).item_masters@,
            user_id,
            item_type,
            item_id,
            obtain_amount,
            now,
        ),
        r is Err ==> grant_unchanged(*old(s), *final(s)),
        r matches Err(e) ==> e == grant_error(item_type),
        r matches Ok(v) ==> if item_type == 1 {
            v.0@ == seq![obtain_amount] && v.1@.len() == 0 && v.2@.len() == 0
        } else if item_type == 2 {
            v.0@.len() == 0 && v.1@ == seq![
                grant_view(*final(s)).cards.last(),
            ] && v.2@.len() == 0
        } else {
            v.0@.len() == 0 && v.1@.len() == 0 && v.2@.len() == 1 && v.2@[0] == final_stock_row(
                grant_view(*old(s)),
                grant_view(*final(s)),
                user_id,
                item_id,
            )
        },
{
    let ghost g0 = grant_view(*s);
    let mut obtain_coins: Vec<i64> = Vec::new();
    let mut obtain_cards: Vec<UserCard> = Vec::new();
    let mut obtain_items: Vec<UserItem> = Vec::new();

    if item_type == 1 {
        // coin: read the balance, accumulate, write back
        let i = match find_user(&s.users, user_id) {
            Some(i) => i,
            None => {
                return Err(Error::UserNotFound);
            },
        };
        let total = sat_add(s.users[i].isu_coin, obtain_amount);
        s.users[i].isu_coin = total;
        proof {
            assert(s.users@[i as int] == coin_added(g0.users[i as int], obtain_amount));
            assert(grant_view(*s) == sp_grant(
                g0,
                s.item_masters@,
                user_id,
                item_type,
                item_id,
                obtain_amount,
                now,
            ));
        }
        obtain_coins.push(obtain_amount);
        Ok((obtain_coins, obtain_cards, obtain_items))
    } else if item_type == 2 {
        // card: a new instance from the master row
        let m = match find_item_master(&s.item_masters, item_id, item_type) {
            Some(m) => m,
            None => {
                return Err(Error::ItemNotFound);
            },
        };
        proof {
            assert(item_master_wf(s.item_masters@[m as int]));
        }
        assert(s.item_masters@[m as int].amount_per_sec is Some);
        let c_id = generate_id(s);
        let card = UserCard {
            id: c_id,
            user_id: user_id,
            card_id: s.item_masters[m].id,
            amount_per_sec: s.item_masters[m].amount_per_sec.unwrap(),
            level: 1,
            total_exp: 0,
            created_at: now,
            updated_at: now,
            deleted_at: None,
        };
        s.user_cards.push(card.clone_row());
        proof {
            assert(s.user_cards@.last() == new_card(
                (g0.next_id + 1) as i64,
                user_id,
                s.item_masters@[m as int],
                now,
            ));
            assert(grant_view(*s) == sp_grant(
                g0,
                s.item_masters@,
                user_id,
                item_type,
                item_id,
                obtain_amount,
                now,
            ));
        }
        obtain_cards.push(card);
        Ok((obtain_coins, obtain_cards, obtain_items))
    } else if item_type == 3 || item_type == 4 {
        // enhancement material: upsert the per-(user, item) stock row
        let m = match find_item_master(&s.item_masters, item_id, item_type) {
            Some(m) => m,
            None => {
                return Err(Error::ItemNotFound);
            },
        };
        let master_id = s.item_masters[m].id;
        match find_user_item(&s.user_items, user_id, master_id) {
            Some(i) => {
                let total = sat_add(s.user_items[i].amount, obtain_amount);
                s.user_items[i].amount = total;
                s.user_items[i].updated_at = now;
                let row = s.user_items[i].clone_row();
                proof {
                    assert(s.user_items@[i as int] == stock_added(
                        g0.items[i as int],
                        obtain_amount,
                        now,
                    ));
                    assert(s.user_items@ =~= g0.items.update(
                        i as int,
                        stock_added(g0.items[i as int], obtain_amount, now),
                    ));
                    assert(grant_view(*s) == sp_grant(
                        g0,
                        s.item_masters@,
                        user_id,
                        item_type,
                        item_id,
                        obtain_amount,
                        now,
                    ));
                }
                obtain_items.push(row);
                Ok((obtain_coins, obtain_cards, obtain_items))
            },
            None => {
                let uitem_id = generate_id(s);
                let row = UserItem {
                    id: uitem_id,
                    user_id: user_id,
                    item_type: s.item_masters[m].item_type,
                    item_id: s.item_masters[m].id,
                    amount: obtain_amount,
                    created_at: now,
                    updated_at: now,
                    deleted_at: None,
                };
                s.user_items.push(row.clone_row());
                proof {
                    assert(s.user_items@.last() == new_user_item(
                        (g0.next_id + 1) as i64,
                        user_id,
                        s.item_masters@[m as int],
                        obtain_amount,
                        now,
                    ));
                    assert(grant_view(*s) == sp_grant(
                        g0,
                        s.item_masters@,
                        user_id,
                        item_type,
                        item_id,
                        obtain_amount,
                        now,
                    ));
                }
                obtain_items.push(row);
                Ok((obtain_coins, obtain_cards, obtain_items))
            },
        }
    } else {
        Err(Error::InvalidItemType)
    }
}

/// The stock row a material grant leaves behind: the updated row when one
/// existed, else the appended one.
pub open spec fn final_stock_row(g0: GrantView, g1: GrantView, user_id: i64, item_id: i64) -> UserItem {
    match first_idx(g0.items, p_user_item(user_id, item_id)) {
        Some(i) => g1.items[i],
        None => g1.items.last(),
    }
}

impl UserItem {
    /// An exact copy of the row.
    pub fn clone_row(&self) -> (r: UserItem)
        ensures
            r == *self,
    {
        UserItem {
            id: self.id,
            user_id: self.user_id,
            item_type: self.item_type,
            item_id: self.item_id,
            amount: self.amount,
            created_at: self.created_at,
            updated_at: self.updated_at,
            deleted_at: self.deleted_at,
        }
    }
}

impl UserCard {
    /// An exact copy of the row.
    pub fn clone_row(&self) -> (r: UserCard)
        ensures
            r == *self,
    {
        UserCard {
            id: self.id,
            user_id: self.user_id,
            card_id: self.card_id,
            amount_per_sec: self.amount_per_sec,
            level: self.level,
            total_exp: self.total_exp,
            created_at: self.created_at,
            updated_at: self.updated_at,
            deleted_at: self.deleted_at,
        }
    }
}

} // verus!
