//! The store model: every table of the relational store as an in-memory
//! vector of rows, plus the atomic id counter. Engine operations mutate this
//! state under contracts; the surrounding process persists it.
use vstd::prelude::*;

use crate::model::GachaItemMaster;
use crate::model::GachaMaster;
use crate::model::ItemMaster;
use crate::model::LoginBonusMaster;
use crate::model::LoginBonusRewardMaster;
use crate::model::PresentAllMaster;
use crate::model::Session;
use crate::model::User;
use crate::model::UserBan;
use crate::model::UserCard;
use crate::model::UserDeck;
use crate::model::UserDevice;
use crate::model::UserItem;
use crate::model::UserLoginBonus;
use crate::model::UserOneTimeToken;
use crate::model::UserPresent;
use crate::model::UserPresentAllReceivedHistory;
use crate::model::VersionMaster;
use crate::model::AdminUser;

verus! {

/// The whole game store. `next_entity_id` is the singleton counter row: the
/// last id handed out; allocation is an atomic increment-and-return.
pub struct GameState {
    pub next_entity_id: i64,
    pub users: Vec<User>,
    pub user_devices: Vec<UserDevice>,
    pub user_bans: Vec<UserBan>,
    pub sessions: Vec<Session>,
    pub admin_sessions: Vec<Session>,
    pub tokens: Vec<UserOneTimeToken>,
    pub user_cards: Vec<UserCard>,
    pub user_decks: Vec<UserDeck>,
    pub user_items: Vec<UserItem>,
    pub user_login_bonuses: Vec<UserLoginBonus>,
    pub user_presents: Vec<UserPresent>,
    pub present_history: Vec<UserPresentAllReceivedHistory>,
    pub admin_users: Vec<AdminUser>,
    pub version_masters: Vec<VersionMaster>,
    pub item_masters: Vec<ItemMaster>,
    pub gacha_masters: Vec<GachaMaster>,
    pub gacha_item_masters: Vec<GachaItemMaster>,
    pub login_bonus_masters: Vec<LoginBonusMaster>,
    pub login_bonus_reward_masters: Vec<LoginBonusRewardMaster>,
    pub present_all_masters: Vec<PresentAllMaster>,
}

impl GameState {
    /// An empty store whose counter starts at zero.
    pub fn new() -> (s: GameState)
        ensures
            s.next_entity_id == 0,
            s.users@ =~= Seq::<User>::empty(),
            s.user_devices@ =~= Seq::<UserDevice>::empty(),
            s.user_bans@ =~= Seq::<UserBan>::empty(),
            s.sessions@ =~= Seq::<Session>::empty(),
            s.admin_sessions@ =~= Seq::<Session>::empty(),
            s.tokens@ =~= Seq::<UserOneTimeToken>::empty(),
            s.user_cards@ =~= Seq::<UserCard>::empty(),
            s.user_decks@ =~= Seq::<UserDeck>::empty(),
            s.user_items@ =~= Seq::<UserItem>::empty(),
            s.user_login_bonuses@ =~= Seq::<UserLoginBonus>::empty(),
            s.user_presents@ =~= Seq::<UserPresent>::empty(),
            s.present_history@ =~= Seq::<UserPresentAllReceivedHistory>::empty(),
            s.admin_users@ =~= Seq::<AdminUser>::empty(),
            s.version_masters@ =~= Seq::<VersionMaster>::empty(),
            s.item_masters@ =~= Seq::<ItemMaster>::empty(),
            s.gacha_masters@ =~= Seq::<GachaMaster>::empty(),
            s.gacha_item_masters@ =~= Seq::<GachaItemMaster>::empty(),
            s.login_bonus_masters@ =~= Seq::<LoginBonusMaster>::empty(),
            s.login_bonus_reward_masters@ =~= Seq::<LoginBonusRewardMaster>::empty(),
            s.present_all_masters@ =~= Seq::<PresentAllMaster>::empty(),
    {
        GameState {
            next_entity_id: 0,
            users: Vec::new(),
            user_devices: Vec::new(),
            user_bans: Vec::new(),
            sessions: Vec::new(),
            admin_sessions: Vec::new(),
            tokens: Vec::new(),
            user_cards: Vec::new(),
            user_decks: Vec::new(),
            user_items: Vec::new(),
            user_login_bonuses: Vec::new(),
            user_presents: Vec::new(),
            present_history: Vec::new(),
            admin_users: Vec::new(),
            version_masters: Vec::new(),
            item_masters: Vec::new(),
            gacha_masters: Vec::new(),
            gacha_item_masters: Vec::new(),
            login_bonus_masters: Vec::new(),
            login_bonus_reward_masters: Vec::new(),
            present_all_masters: Vec::new(),
        }
    }
}

/// Everything except the counter row is unchanged.
pub open spec fn tables_unchanged(pre: GameState, post: GameState) -> bool {
    &&& post.users@ == pre.users@
    &&& post.user_devices@ == pre.user_devices@
    &&& post.user_bans@ == pre.user_bans@
    &&& post.sessions@ == pre.sessions@
    &&& post.admin_sessions@ == pre.admin_sessions@
    &&& post.tokens@ == pre.tokens@
    &&& post.user_cards@ == pre.user_cards@
    &&& post.user_decks@ == pre.user_decks@
    &&& post.user_items@ == pre.user_items@
    &&& post.user_login_bonuses@ == pre.user_login_bonuses@
    &&& post.user_presents@ == pre.user_presents@
    &&& post.present_history@ == pre.present_history@
    &&& post.admin_users@ == pre.admin_users@
    &&& masters_unchanged(pre, post)
}

/// The read-mostly master tables are unchanged.
pub open spec fn masters_unchanged(pre: GameState, post: GameState) -> bool {
    &&& post.version_masters@ == pre.version_masters@
    &&& post.item_masters@ == pre.item_masters@
    &&& post.gacha_masters@ == pre.gacha_masters@
    &&& post.gacha_item_masters@ == pre.gacha_item_masters@
    &&& post.login_bonus_masters@ == pre.login_bonus_masters@
    &&& post.login_bonus_reward_masters@ == pre.login_bonus_reward_masters@
    &&& post.present_all_masters@ == pre.present_all_masters@
}

/// Allocate one globally unique, strictly increasing 64-bit identifier from
/// the singleton counter row.
///
/// The store serializes concurrent allocations (the underlying atomic
/// increment; transient lock conflicts are retried by the caller at the store
/// boundary), so any interleaving of calls sees this sequential behaviour, and
/// [`lemma_allocated_ids_strictly_increasing`] applies to the ids any such
/// serialization hands out.
pub fn generate_id(s: &mut GameState) -> (id: i64)
    requires
        old(s).next_entity_id < i64::MAX,
    ensures
        id == old(s).next_entity_id + 1,
        final(s).next_entity_id == id,
        tables_unchanged(*old(s), *final(s)),
{
    s.next_entity_id = s.next_entity_id + 1;
    s.next_entity_id
}

/// Row predicates the lookups below are specified with: each one mirrors a
/// `WHERE` clause of the store.
pub open spec fn sm_active_version(x: VersionMaster) -> bool {
    x.status == 1
}

pub open spec fn sm_ban(x: UserBan, user_id: i64) -> bool {
    x.user_id == user_id
}

pub open spec fn sm_device(x: UserDevice, user_id: i64, viewer_id: Seq<char>) -> bool {
    x.user_id == user_id && x.platform_id@ == viewer_id
}

pub open spec fn sm_live_session(x: Session, session_id: Seq<char>) -> bool {
    x.session_id@ == session_id && x.deleted_at is None
}

pub open spec fn sm_live_token(x: UserOneTimeToken, token: Seq<char>, token_type: i64) -> bool {
    x.token@ == token && x.token_type == token_type && x.deleted_at is None
}

pub open spec fn p_user(user_id: i64) -> spec_fn(User) -> bool {
    |x: User| x.id == user_id
}

/// The first version-master row marked active, as the store would return it.
pub fn find_active_version(rows: &Vec<VersionMaster>) -> (r: Option<usize>)
    ensures
        match r {
            Some(i) => 0 <= i < rows@.len() && sm_active_version(rows@[i as int]) && (forall|
                j: int,
            | 0 <= j < i ==> !sm_active_version(rows@[j])),
            None => forall|j: int| 0 <= j < rows@.len() ==> !sm_active_version(rows@[j]),
        },
{
    let n = rows.len();
    let mut i: usize = 0;
    while i < n
        invariant
            n == rows@.len(),
            0 <= i <= n,
            forall|j: int| 0 <= j < i ==> !sm_active_version(rows@[j]),
        decreases n - i,
    {
        if rows[i].status == 1 {
            return Some(i);
        }
        i = i + 1;
    }
    None
}

/// Whether any ban row names this user (tombstones are not consulted).
pub fn ban_exists(rows: &Vec<UserBan>, user_id: i64) -> (r: bool)
    ensures
        r == exists|j: int| 0 <= j < rows@.len() && sm_ban(rows@[j], user_id),
{
    let n = rows.len();
    let mut i: usize = 0;
    while i < n
        invariant
            n == rows@.len(),
            0 <= i <= n,
            forall|j: int| 0 <= j < i ==> !sm_ban(rows@[j], user_id),
        decreases n - i,
    {
        if rows[i].user_id == user_id {
            assert(sm_ban(rows@[i as int], user_id));
            return true;
        }
        i = i + 1;
    }
    false
}

/// The first device row binding `user_id` to this platform (viewer) id.
pub fn find_device(rows: &Vec<UserDevice>, user_id: i64, viewer_id: &String) -> (r: Option<usize>)
    ensures
        match r {
            Some(i) => 0 <= i < rows@.len() && sm_device(rows@[i as int], user_id, viewer_id@)
                && (forall|j: int| 0 <= j < i ==> !sm_device(rows@[j], user_id, viewer_id@)),
            None => forall|j: int|
                0 <= j < rows@.len() ==> !sm_device(rows@[j], user_id, viewer_id@),
        },
{
    let n = rows.len();
    let mut i: usize = 0;
    while i < n
        invariant
            n == rows@.len(),
            0 <= i <= n,
            forall|j: int| 0 <= j < i ==> !sm_device(rows@[j], user_id, viewer_id@),
        decreases n - i,
    {
        if rows[i].user_id == user_id && rows[i].platform_id == *viewer_id {
            return Some(i);
        }
        i = i + 1;
    }
    None
}

/// The first live session row carrying this opaque session id.
pub fn find_live_session(rows: &Vec<Session>, session_id: &String) -> (r: Option<usize>)
    ensures
        match r {
            Some(i) => 0 <= i < rows@.len() && sm_live_session(rows@[i as int], session_id@)
                && (forall|j: int| 0 <= j < i ==> !sm_live_session(rows@[j], session_id@)),
            None => forall|j: int|
                0 <= j < rows@.len() ==> !sm_live_session(rows@[j], session_id@),
        },
{
    let n = rows.len();
    let mut i: usize = 0;
    while i < n
        invariant
            n == rows@.len(),
            0 <= i <= n,
            forall|j: int| 0 <= j < i ==> !sm_live_session(rows@[j], session_id@),
        decreases n - i,
    {
        if rows[i].session_id == *session_id && rows[i].deleted_at.is_none() {
            return Some(i);
        }
        i = i + 1;
    }
    None
}

/// The first live one-time-token row with this token string and type.
pub fn find_live_token(rows: &Vec<UserOneTimeToken>, token: &String, token_type: i64) -> (r: Option<
    usize,
>)
    ensures
        match r {
            Some(i) => 0 <= i < rows@.len() && sm_live_token(rows@[i as int], token@, token_type)
                && (forall|j: int| 0 <= j < i ==> !sm_live_token(rows@[j], token@, token_type)),
            None => forall|j: int|
                0 <= j < rows@.len() ==> !sm_live_token(rows@[j], token@, token_type),
        },
{
    let n = rows.len();
    let mut i: usize = 0;
    while i < n
        invariant
            n == rows@.len(),
            0 <= i <= n,
            forall|j: int| 0 <= j < i ==> !sm_live_token(rows@[j], token@, token_type),
        decreases n - i,
    {
        if rows[i].token == *token && rows[i].token_type == token_type && rows[i].deleted_at.is_none() {
            return Some(i);
        }
        i = i + 1;
    }
    None
}

/// The first user row with this id.
pub fn find_user(rows: &Vec<User>, user_id: i64) -> (r: Option<usize>)
    ensures
        match r {
            Some(i) => first_at(rows@, p_user(user_id), i as int) && first_idx(
                rows@,
                p_user(user_id),
            ) == Some(i as int),
            None => first_idx(rows@, p_user(user_id)) is None && (forall|j: int|
                0 <= j < rows@.len() ==> !(#[trigger] p_user(user_id)(rows@[j]))),
        },
{
    let ghost p = p_user(user_id);
    let n = rows.len();
    let mut i: usize = 0;
    while i < n
        invariant
            n == rows@.len(),
            0 <= i <= n,
            p == p_user(user_id),
            forall|j: int| 0 <= j < i ==> !p(rows@[j]),
        decreases n - i,
    {
        if rows[i].id == user_id {
            proof {
                assert(p(rows@[i as int]));
                lemma_first_idx_of(rows@, p, i as int);
            }
            return Some(i);
        }
        proof {
            assert(!p(rows@[i as int]));
        }
        i = i + 1;
    }
    proof {
        lemma_first_idx_none(rows@, p);
    }
    None
}

/// Saturation to the signed 64-bit range: the store's numeric columns clamp
/// accumulated quantities at the representable bounds, keeping every grant
/// total and monotone.
pub open spec fn sat64(x: int) -> int {
    if x > i64::MAX {
        i64::MAX as int
    } else if x < i64::MIN {
        i64::MIN as int
    } else {
        x
    }
}

/// `a + b`, clamped to the 64-bit range.
pub fn sat_add(a: i64, b: i64) -> (r: i64)
    ensures
        r as int == sat64(a as int + b as int),
{
    match a.checked_add(b) {
        Some(v) => v,
        None => {
            if b > 0 {
                i64::MAX
            } else {
                i64::MIN
            }
        },
    }
}

/// `a - b`, clamped to the 64-bit range.
pub fn sat_sub(a: i64, b: i64) -> (r: i64)
    ensures
        r as int == sat64(a as int - b as int),
{
    match a.checked_sub(b) {
        Some(v) => v,
        None => {
            if b > 0 {
                i64::MIN
            } else {
                i64::MAX
            }
        },
    }
}

/// `a * b`, clamped to the 64-bit range.
pub fn sat_mul(a: i64, b: i64) -> (r: i64)
    ensures
        r as int == sat64(a as int * b as int),
{
    match a.checked_mul(b) {
        Some(v) => v,
        None => {
            proof {
                if (a > 0 && b > 0) || (a < 0 && b < 0) {
                    assert(a as int * b as int > 0) by (nonlinear_arith)
                        requires
                            (a > 0 && b > 0) || (a < 0 && b < 0);
                } else {
                    assert(a != 0 && b != 0);
                    assert((a as int) * (b as int) < 0) by (nonlinear_arith)
                        requires
                            a != 0 && b != 0 && !((a > 0 && b > 0) || (a < 0 && b < 0));
                }
            }
            if (a > 0) == (b > 0) {
                i64::MAX
            } else {
                i64::MIN
            }
        },
    }
}

/// Index `i` holds the first row matching `p`.
pub open spec fn first_at<T>(rows: Seq<T>, p: spec_fn(T) -> bool, i: int) -> bool {
    &&& 0 <= i < rows.len()
    &&& p(rows[i])
    &&& forall|j: int| 0 <= j < i ==> !p(rows[j])
}

/// The index of the first row matching `p`, as the store would return it.
pub open spec fn first_idx<T>(rows: Seq<T>, p: spec_fn(T) -> bool) -> Option<int> {
    if exists|i: int| first_at(rows, p, i) {
        Some(choose|i: int| first_at(rows, p, i))
    } else {
        None
    }
}

/// The first matching index is unique, so a witness determines `first_idx`.
pub proof fn lemma_first_idx_of<T>(rows: Seq<T>, p: spec_fn(T) -> bool, i: int)
    requires
        first_at(rows, p, i),
    ensures
        first_idx(rows, p) == Some(i),
{
    assert(exists|k: int| first_at(rows, p, k));
    let k = choose|k: int| first_at(rows, p, k);
    if k < i {
        assert(!p(rows[k]));
    } else if k > i {
        assert(!p(rows[i]));
    }
}

/// Any match has a first match before it.
pub proof fn lemma_exists_first<T>(rows: Seq<T>, p: spec_fn(T) -> bool, w: int)
    requires
        0 <= w < rows.len(),
        p(rows[w]),
    ensures
        exists|i: int| first_at(rows, p, i),
    decreases w,
{
    if forall|j: int| 0 <= j < w ==> !p(rows[j]) {
        assert(first_at(rows, p, w));
    } else {
        let j = choose|j: int| 0 <= j < w && p(rows[j]);
        lemma_exists_first(rows, p, j);
    }
}

/// Two tables on which the predicate agrees row by row have the same first
/// match.
pub proof fn lemma_first_idx_pointwise<T>(a: Seq<T>, b: Seq<T>, p: spec_fn(T) -> bool)
    requires
        a.len() == b.len(),
        forall|j: int| 0 <= j < a.len() ==> p(a[j]) == p(b[j]),
    ensures
        first_idx(a, p) == first_idx(b, p),
{
    if exists|i: int| first_at(a, p, i) {
        let i = choose|i: int| first_at(a, p, i);
        assert(first_at(b, p, i));
        lemma_first_idx_of(a, p, i);
        lemma_first_idx_of(b, p, i);
    } else if exists|i: int| first_at(b, p, i) {
        let i = choose|i: int| first_at(b, p, i);
        assert(p(a[i]));
        lemma_exists_first(a, p, i);
    }
}

/// With no matching row at all, `first_idx` is `None`.
pub proof fn lemma_first_idx_none<T>(rows: Seq<T>, p: spec_fn(T) -> bool)
    requires
        forall|j: int| 0 <= j < rows.len() ==> !p(rows[j]),
    ensures
        first_idx(rows, p) is None,
{
    if exists|i: int| first_at(rows, p, i) {
        let i = choose|i: int| first_at(rows, p, i);
        assert(!p(rows[i]));
    }
}

/// Row predicates, one per `WHERE` clause the engine issues.
pub open spec fn p_item_master(item_id: i64, item_type: i64) -> spec_fn(ItemMaster) -> bool {
    |x: ItemMaster| x.id == item_id && x.item_type == item_type
}

pub open spec fn p_item_master_id(item_id: i64) -> spec_fn(ItemMaster) -> bool {
    |x: ItemMaster| x.id == item_id
}

pub open spec fn p_user_item(user_id: i64, item_id: i64) -> spec_fn(UserItem) -> bool {
    |x: UserItem| x.user_id == user_id && x.item_id == item_id
}

pub open spec fn p_user_bonus(user_id: i64, login_bonus_id: i64) -> spec_fn(UserLoginBonus) -> bool {
    |x: UserLoginBonus| x.user_id == user_id && x.login_bonus_id == login_bonus_id
}

pub open spec fn p_bonus_reward(login_bonus_id: i64, reward_sequence: i64) -> spec_fn(
    LoginBonusRewardMaster,
) -> bool {
    |x: LoginBonusRewardMaster| x.login_bonus_id == login_bonus_id && x.reward_sequence
        == reward_sequence
}

pub open spec fn p_live_history(user_id: i64, present_all_id: i64) -> spec_fn(
    UserPresentAllReceivedHistory,
) -> bool {
    |x: UserPresentAllReceivedHistory| x.user_id == user_id && x.present_all_id == present_all_id
        && x.deleted_at is None
}

pub open spec fn p_user_card(card_id: i64, user_id: i64) -> spec_fn(UserCard) -> bool {
    |x: UserCard| x.id == card_id && x.user_id == user_id
}

pub open spec fn p_card_id(card_id: i64) -> spec_fn(UserCard) -> bool {
    |x: UserCard| x.id == card_id
}

pub open spec fn p_live_deck(user_id: i64) -> spec_fn(UserDeck) -> bool {
    |x: UserDeck| x.user_id == user_id && x.deleted_at is None
}

pub open spec fn p_live_present(present_id: i64) -> spec_fn(UserPresent) -> bool {
    |x: UserPresent| x.id == present_id && x.deleted_at is None
}

pub open spec fn p_gacha(gacha_id: i64, now: i64) -> spec_fn(GachaMaster) -> bool {
    |x: GachaMaster| x.id == gacha_id && x.start_at <= now && x.end_at >= now
}

/// The first item-master row with this id and type.
pub fn find_item_master(rows: &Vec<ItemMaster>, item_id: i64, item_type: i64) -> (r: Option<usize>)
    ensures
        match r {
            Some(i) => first_at(rows@, p_item_master(item_id, item_type), i as int) && first_idx(
                rows@,
                p_item_master(item_id, item_type),
            ) == Some(i as int),
            None => first_idx(rows@, p_item_master(item_id, item_type)) is None && (forall|j: int|
                0 <= j < rows@.len() ==> !(#[trigger] p_item_master(item_id, item_type)(rows@[j]))),
        },
{
    let ghost p = p_item_master(item_id, item_type);
    let n = rows.len();
    let mut i: usize = 0;
    while i < n
        invariant
            n == rows@.len(),
            0 <= i <= n,
            p == p_item_master(item_id, item_type),
            forall|j: int| 0 <= j < i ==> !p(rows@[j]),
        decreases n - i,
    {
        if rows[i].id == item_id && rows[i].item_type == item_type {
            proof {
                assert(p(rows@[i as int]));
                lemma_first_idx_of(rows@, p, i as int);
            }
            return Some(i);
        }
        proof {
            assert(!p(rows@[i as int]));
        }
        i = i + 1;
    }
    proof {
        lemma_first_idx_none(rows@, p);
    }
    None
}

/// The first item-master row with this id, whatever its type.
pub fn find_item_master_by_id(rows: &Vec<ItemMaster>, item_id: i64) -> (r: Option<usize>)
    ensures
        match r {
            Some(i) => first_at(rows@, p_item_master_id(item_id), i as int) && first_idx(
                rows@,
                p_item_master_id(item_id),
            ) == Some(i as int),
            None => first_idx(rows@, p_item_master_id(item_id)) is None && (forall|j: int|
                0 <= j < rows@.len() ==> !(#[trigger] p_item_master_id(item_id)(rows@[j]))),
        },
{
    let ghost p = p_item_master_id(item_id);
    let n = rows.len();
    let mut i: usize = 0;
    while i < n
        invariant
            n == rows@.len(),
            0 <= i <= n,
            p == p_item_master_id(item_id),
            forall|j: int| 0 <= j < i ==> !p(rows@[j]),
        decreases n - i,
    {
        if rows[i].id == item_id {
            proof {
                assert(p(rows@[i as int]));
                lemma_first_idx_of(rows@, p, i as int);
            }
            return Some(i);
        }
        proof {
            assert(!p(rows@[i as int]));
        }
        i = i + 1;
    }
    proof {
        lemma_first_idx_none(rows@, p);
    }
    None
}

/// The first stock row of this user and master item.
pub fn find_user_item(rows: &Vec<UserItem>, user_id: i64, item_id: i64) -> (r: Option<usize>)
    ensures
        match r {
            Some(i) => first_at(rows@, p_user_item(user_id, item_id), i as int) && first_idx(
                rows@,
                p_user_item(user_id, item_id),
            ) == Some(i as int),
            None => first_idx(rows@, p_user_item(user_id, item_id)) is None && (forall|j: int|
                0 <= j < rows@.len() ==> !(#[trigger] p_user_item(user_id, item_id)(rows@[j]))),
        },
{
    let ghost p = p_user_item(user_id, item_id);
    let n = rows.len();
    let mut i: usize = 0;
    while i < n
        invariant
            n == rows@.len(),
            0 <= i <= n,
            p == p_user_item(user_id, item_id),
            forall|j: int| 0 <= j < i ==> !p(rows@[j]),
        decreases n - i,
    {
        if rows[i].user_id == user_id && rows[i].item_id == item_id {
            proof {
                assert(p(rows@[i as int]));
                lemma_first_idx_of(rows@, p, i as int);
            }
            return Some(i);
        }
        proof {
            assert(!p(rows@[i as int]));
        }
        i = i + 1;
    }
    proof {
        lemma_first_idx_none(rows@, p);
    }
    None
}

/// The first login-bonus progress row of this user and bonus.
pub fn find_user_bonus(rows: &Vec<UserLoginBonus>, user_id: i64, login_bonus_id: i64) -> (r: Option<
    usize,
>)
    ensures
        match r {
            Some(i) => first_at(rows@, p_user_bonus(user_id, login_bonus_id), i as int)
                && first_idx(rows@, p_user_bonus(user_id, login_bonus_id)) == Some(i as int),
            None => first_idx(rows@, p_user_bonus(user_id, login_bonus_id)) is None && (forall|j: int|
                0 <= j < rows@.len() ==> !(#[trigger] p_user_bonus(user_id, login_bonus_id)(rows@[j]))),
        },
{
    let ghost p = p_user_bonus(user_id, login_bonus_id);
    let n = rows.len();
    let mut i: usize = 0;
    while i < n
        invariant
            n == rows@.len(),
            0 <= i <= n,
            p == p_user_bonus(user_id, login_bonus_id),
            forall|j: int| 0 <= j < i ==> !p(rows@[j]),
        decreases n - i,
    {
        if rows[i].user_id == user_id && rows[i].login_bonus_id == login_bonus_id {
            proof {
                assert(p(rows@[i as int]));
                lemma_first_idx_of(rows@, p, i as int);
            }
            return Some(i);
        }
        proof {
            assert(!p(rows@[i as int]));
        }
        i = i + 1;
    }
    proof {
        lemma_first_idx_none(rows@, p);
    }
    None
}

/// The first reward row of this bonus and sequence position.
pub fn find_bonus_reward(
    rows: &Vec<LoginBonusRewardMaster>,
    login_bonus_id: i64,
    reward_sequence: i64,
) -> (r: Option<usize>)
    ensures
        match r {
            Some(i) => first_at(rows@, p_bonus_reward(login_bonus_id, reward_sequence), i as int)
                && first_idx(rows@, p_bonus_reward(login_bonus_id, reward_sequence)) == Some(
                i as int,
            ),
            None => first_idx(rows@, p_bonus_reward(login_bonus_id, reward_sequence)) is None && (forall|j: int|
                0 <= j < rows@.len() ==> !(#[trigger] p_bonus_reward(login_bonus_id, reward_sequence)(rows@[j]))),
        },
{
    let ghost p = p_bonus_reward(login_bonus_id, reward_sequence);
    let n = rows.len();
    let mut i: usize = 0;
    while i < n
        invariant
            n == rows@.len(),
            0 <= i <= n,
            p == p_bonus_reward(login_bonus_id, reward_sequence),
            forall|j: int| 0 <= j < i ==> !p(rows@[j]),
        decreases n - i,
    {
        if rows[i].login_bonus_id == login_bonus_id && rows[i].reward_sequence == reward_sequence {
            proof {
                assert(p(rows@[i as int]));
                lemma_first_idx_of(rows@, p, i as int);
            }
            return Some(i);
        }
        proof {
            assert(!p(rows@[i as int]));
        }
        i = i + 1;
    }
    proof {
        lemma_first_idx_none(rows@, p);
    }
    None
}

/// Whether a live history row already marks this broadcast present as granted
/// to this user.
pub fn history_exists(
    rows: &Vec<UserPresentAllReceivedHistory>,
    user_id: i64,
    present_all_id: i64,
) -> (r: bool)
    ensures
        r == exists|j: int|
            0 <= j < rows@.len() && #[trigger] p_live_history(user_id, present_all_id)(rows@[j]),
{
    let ghost p = p_live_history(user_id, present_all_id);
    let n = rows.len();
    let mut i: usize = 0;
    while i < n
        invariant
            n == rows@.len(),
            0 <= i <= n,
            p == p_live_history(user_id, present_all_id),
            forall|j: int| 0 <= j < i ==> !p(rows@[j]),
        decreases n - i,
    {
        if rows[i].user_id == user_id && rows[i].present_all_id == present_all_id
            && rows[i].deleted_at.is_none() {
            proof {
                assert(p(rows@[i as int]));
            }
            return true;
        }
        proof {
            assert(!p(rows@[i as int]));
        }
        i = i + 1;
    }
    false
}

/// The first card row with this instance id owned by this user.
pub fn find_user_card(rows: &Vec<UserCard>, card_id: i64, user_id: i64) -> (r: Option<usize>)
    ensures
        match r {
            Some(i) => first_at(rows@, p_user_card(card_id, user_id), i as int) && first_idx(
                rows@,
                p_user_card(card_id, user_id),
            ) == Some(i as int),
            None => first_idx(rows@, p_user_card(card_id, user_id)) is None && (forall|j: int|
                0 <= j < rows@.len() ==> !(#[trigger] p_user_card(card_id, user_id)(rows@[j]))),
        },
{
    let ghost p = p_user_card(card_id, user_id);
    let n = rows.len();
    let mut i: usize = 0;
    while i < n
        invariant
            n == rows@.len(),
            0 <= i <= n,
            p == p_user_card(card_id, user_id),
            forall|j: int| 0 <= j < i ==> !p(rows@[j]),
        decreases n - i,
    {
        if rows[i].id == card_id && rows[i].user_id == user_id {
            proof {
                assert(p(rows@[i as int]));
                lemma_first_idx_of(rows@, p, i as int);
            }
            return Some(i);
        }
        proof {
            assert(!p(rows@[i as int]));
        }
        i = i + 1;
    }
    proof {
        lemma_first_idx_none(rows@, p);
    }
    None
}

/// The first card row with this instance id, whoever owns it.
pub fn find_card_by_id(rows: &Vec<UserCard>, card_id: i64) -> (r: Option<usize>)
    ensures
        match r {
            Some(i) => first_at(rows@, p_card_id(card_id), i as int) && first_idx(
                rows@,
                p_card_id(card_id),
            ) == Some(i as int),
            None => first_idx(rows@, p_card_id(card_id)) is None && (forall|j: int|
                0 <= j < rows@.len() ==> !(#[trigger] p_card_id(card_id)(rows@[j]))),
        },
{
    let ghost p = p_card_id(card_id);
    let n = rows.len();
    let mut i: usize = 0;
    while i < n
        invariant
            n == rows@.len(),
            0 <= i <= n,
            p == p_card_id(card_id),
            forall|j: int| 0 <= j < i ==> !p(rows@[j]),
        decreases n - i,
    {
        if rows[i].id == card_id {
            proof {
                assert(p(rows@[i as int]));
                lemma_first_idx_of(rows@, p, i as int);
            }
            return Some(i);
        }
        proof {
            assert(!p(rows@[i as int]));
        }
        i = i + 1;
    }
    proof {
        lemma_first_idx_none(rows@, p);
    }
    None
}

/// The first live deck row of this user.
pub fn find_live_deck(rows: &Vec<UserDeck>, user_id: i64) -> (r: Option<usize>)
    ensures
        match r {
            Some(i) => first_at(rows@, p_live_deck(user_id), i as int) && first_idx(
                rows@,
                p_live_deck(user_id),
            ) == Some(i as int),
            None => first_idx(rows@, p_live_deck(user_id)) is None && (forall|j: int|
                0 <= j < rows@.len() ==> !(#[trigger] p_live_deck(user_id)(rows@[j]))),
        },
{
    let ghost p = p_live_deck(user_id);
    let n = rows.len();
    let mut i: usize = 0;
    while i < n
        invariant
            n == rows@.len(),
            0 <= i <= n,
            p == p_live_deck(user_id),
            forall|j: int| 0 <= j < i ==> !p(rows@[j]),
        decreases n - i,
    {
        if rows[i].user_id == user_id && rows[i].deleted_at.is_none() {
            proof {
                assert(p(rows@[i as int]));
                lemma_first_idx_of(rows@, p, i as int);
            }
            return Some(i);
        }
        proof {
            assert(!p(rows@[i as int]));
        }
        i = i + 1;
    }
    proof {
        lemma_first_idx_none(rows@, p);
    }
    None
}

/// The first live present row with this id.
pub fn find_live_present(rows: &Vec<UserPresent>, present_id: i64) -> (r: Option<usize>)
    ensures
        match r {
            Some(i) => first_at(rows@, p_live_present(present_id), i as int) && first_idx(
                rows@,
                p_live_present(present_id),
            ) == Some(i as int),
            None => first_idx(rows@, p_live_present(present_id)) is None && (forall|j: int|
                0 <= j < rows@.len() ==> !(#[trigger] p_live_present(present_id)(rows@[j]))),
        },
{
    let ghost p = p_live_present(present_id);
    let n = rows.len();
    let mut i: usize = 0;
    while i < n
        invariant
            n == rows@.len(),
            0 <= i <= n,
            p == p_live_present(present_id),
            forall|j: int| 0 <= j < i ==> !p(rows@[j]),
        decreases n - i,
    {
        if rows[i].id == present_id && rows[i].deleted_at.is_none() {
            proof {
                assert(p(rows@[i as int]));
                lemma_first_idx_of(rows@, p, i as int);
            }
            return Some(i);
        }
        proof {
            assert(!p(rows@[i as int]));
        }
        i = i + 1;
    }
    proof {
        lemma_first_idx_none(rows@, p);
    }
    None
}

/// The first gacha-master row with this id whose window contains `now`.
pub fn find_active_gacha(rows: &Vec<GachaMaster>, gacha_id: i64, now: i64) -> (r: Option<usize>)
    ensures
        match r {
            Some(i) => first_at(rows@, p_gacha(gacha_id, now), i as int) && first_idx(
                rows@,
                p_gacha(gacha_id, now),
            ) == Some(i as int),
            None => first_idx(rows@, p_gacha(gacha_id, now)) is None && (forall|j: int|
                0 <= j < rows@.len() ==> !(#[trigger] p_gacha(gacha_id, now)(rows@[j]))),
        },
{
    let ghost p = p_gacha(gacha_id, now);
    let n = rows.len();
    let mut i: usize = 0;
    while i < n
        invariant
            n == rows@.len(),
            0 <= i <= n,
            p == p_gacha(gacha_id, now),
            forall|j: int| 0 <= j < i ==> !p(rows@[j]),
        decreases n - i,
    {
        if rows[i].id == gacha_id && rows[i].start_at <= now && rows[i].end_at >= now {
            proof {
                assert(p(rows@[i as int]));
                lemma_first_idx_of(rows@, p, i as int);
            }
            return Some(i);
        }
        proof {
            assert(!p(rows@[i as int]));
        }
        i = i + 1;
    }
    proof {
        lemma_first_idx_none(rows@, p);
    }
    None
}

/// An exact copy of a table of plain-value rows.
pub fn copy_rows<T: Copy>(rows: &Vec<T>) -> (r: Vec<T>)
    ensures
        r@ == rows@,
{
    let n = rows.len();
    let mut r: Vec<T> = Vec::new();
    let mut i: usize = 0;
    while i < n
        invariant
            0 <= i <= n,
            n == rows@.len(),
            r@ == rows@.take(i as int),
        decreases n - i,
    {
        r.push(rows[i]);
        proof {
            assert(rows@.take(i as int).push(rows@[i as int]) =~= rows@.take(i as int + 1));
        }
        i = i + 1;
    }
    proof {
        assert(rows@.take(n as int) =~= rows@);
    }
    r
}

/// A row that can be copied exactly (the string-bearing tables implement it
/// through their `clone_row`).
pub trait CopyRow: Sized {
    fn copy_row(&self) -> (r: Self)
        ensures
            r == *self,
    ;
}

impl CopyRow for UserDevice {
    fn copy_row(&self) -> (r: Self)
        ensures
            r == *self,
    {
        self.clone_row()
    }
}

impl CopyRow for Session {
    fn copy_row(&self) -> (r: Self)
        ensures
            r == *self,
    {
        self.clone_row()
    }
}

impl CopyRow for UserOneTimeToken {
    fn copy_row(&self) -> (r: Self)
        ensures
            r == *self,
    {
        self.clone_row()
    }
}

impl CopyRow for UserPresent {
    fn copy_row(&self) -> (r: Self)
        ensures
            r == *self,
    {
        self.clone_row()
    }
}

impl CopyRow for AdminUser {
    fn copy_row(&self) -> (r: Self)
        ensures
            r == *self,
    {
        self.clone_row()
    }
}

impl CopyRow for VersionMaster {
    fn copy_row(&self) -> (r: Self)
        ensures
            r == *self,
    {
        self.clone_row()
    }
}

impl CopyRow for ItemMaster {
    fn copy_row(&self) -> (r: Self)
        ensures
            r == *self,
    {
        self.clone_row()
    }
}

impl CopyRow for GachaMaster {
    fn copy_row(&self) -> (r: Self)
        ensures
            r == *self,
    {
        self.clone_row()
    }
}

impl CopyRow for PresentAllMaster {
    fn copy_row(&self) -> (r: Self)
        ensures
            r == *self,
    {
        self.clone_row()
    }
}

impl CopyRow for GachaItemMaster {
    fn copy_row(&self) -> (r: Self)
        ensures
            r == *self,
    {
        *self
    }
}

impl CopyRow for LoginBonusMaster {
    fn copy_row(&self) -> (r: Self)
        ensures
            r == *self,
    {
        *self
    }
}

impl CopyRow for LoginBonusRewardMaster {
    fn copy_row(&self) -> (r: Self)
        ensures
            r == *self,
    {
        *self
    }
}

/// An exact copy of a table of rows.
pub fn copy_table<T: CopyRow>(rows: &Vec<T>) -> (r: Vec<T>)
    ensures
        r@ == rows@,
{
    let n = rows.len();
    let mut r: Vec<T> = Vec::new();
    let mut i: usize = 0;
    while i < n
        invariant
            0 <= i <= n,
            n == rows@.len(),
            r@ == rows@.take(i as int),
        decreases n - i,
    {
        r.push(rows[i].copy_row());
        proof {
            assert(rows@.take(i as int).push(rows@[i as int]) =~= rows@.take(i as int + 1));
        }
        i = i + 1;
    }
    proof {
        assert(rows@.take(n as int) =~= rows@);
    }
    r
}

/// An exact copy of the whole store.
pub fn snapshot_state(s: &GameState) -> (r: GameState)
    ensures
        r.next_entity_id == s.next_entity_id,
        tables_unchanged(*s, r),
{
    GameState {
        next_entity_id: s.next_entity_id,
        users: copy_rows(&s.users),
        user_devices: copy_table(&s.user_devices),
        user_bans: copy_rows(&s.user_bans),
        sessions: copy_table(&s.sessions),
        admin_sessions: copy_table(&s.admin_sessions),
        tokens: copy_table(&s.tokens),
        user_cards: copy_rows(&s.user_cards),
        user_decks: copy_rows(&s.user_decks),
        user_items: copy_rows(&s.user_items),
        user_login_bonuses: copy_rows(&s.user_login_bonuses),
        user_presents: copy_table(&s.user_presents),
        present_history: copy_rows(&s.present_history),
        admin_users: copy_table(&s.admin_users),
        version_masters: copy_table(&s.version_masters),
        item_masters: copy_table(&s.item_masters),
        gacha_masters: copy_table(&s.gacha_masters),
        gacha_item_masters: copy_rows(&s.gacha_item_masters),
        login_bonus_masters: copy_rows(&s.login_bonus_masters),
        login_bonus_reward_masters: copy_rows(&s.login_bonus_reward_masters),
        present_all_masters: copy_table(&s.present_all_masters),
    }
}

/// An exact copy of the item-master table.
pub fn copy_item_masters(rows: &Vec<ItemMaster>) -> (r: Vec<ItemMaster>)
    ensures
        r@ == rows@,
{
    let n = rows.len();
    let mut r: Vec<ItemMaster> = Vec::new();
    let mut i: usize = 0;
    while i < n
        invariant
            0 <= i <= n,
            n == rows@.len(),
            r@ == rows@.take(i as int),
        decreases n - i,
    {
        r.push(rows[i].clone_row());
        proof {
            assert(rows@.take(i as int).push(rows@[i as int]) =~= rows@.take(i as int + 1));
        }
        i = i + 1;
    }
    proof {
        assert(rows@.take(n as int) =~= rows@);
    }
    r
}

/// Master-data well-formedness the engine relies on: card masters carry their
/// leveling columns, material masters carry a gained-exp value, and gacha pool
/// entries have positive weight.
pub open spec fn masters_wf(s: GameState) -> bool {
    &&& forall|j: int|
        0 <= j < s.item_masters@.len() ==> #[trigger] item_master_wf(s.item_masters@[j])
    &&& forall|j: int|
        0 <= j < s.gacha_item_masters@.len() ==> (#[trigger] s.gacha_item_masters@[j].weight) >= 1
    &&& forall|j: int|
        0 <= j < s.login_bonus_masters@.len() ==> (#[trigger] s.login_bonus_masters@[j].column_count)
            >= 1
}

pub open spec fn item_master_wf(x: ItemMaster) -> bool {
    &&& x.item_type == 2 ==> (x.amount_per_sec is Some && x.max_level is Some
        && x.max_amount_per_sec is Some && x.base_exp_per_level is Some)
    &&& x.item_type == 2 ==> (0 <= x.amount_per_sec->0 <= x.max_amount_per_sec->0 && 1
        <= x.max_level->0)
    &&& x.item_type == 3 ==> x.gained_exp is Some
    &&& x.gained_exp is Some ==> x.gained_exp->0 >= 0
}

/// Card rows are well-formed: every stored instance carries a positive
/// level (the engine creates cards at level one and only raises it).
pub open spec fn cards_wf(cards: Seq<UserCard>) -> bool {
    forall|j: int| 0 <= j < cards.len() ==> (#[trigger] cards[j]).level >= 1
}

/// The id allocator's retry policy at the store boundary: the store's
/// transient lock-conflict report is retried up to a hundred attempts; any
/// other failure, or an exhausted budget, surfaces to the caller.
pub fn allocation_retry_allowed(retryable: bool, attempts_made: u64) -> (r: bool)
    ensures
        r == (retryable && attempts_made < 100),
{
    retryable && attempts_made < 100
}

/// A session row after its tombstone is stamped.
pub open spec fn session_tombstoned(x: Session, now: i64) -> Session {
    Session { deleted_at: Some(now), ..x }
}

/// A token row after its tombstone is stamped.
pub open spec fn token_tombstoned(x: UserOneTimeToken, now: i64) -> UserOneTimeToken {
    UserOneTimeToken { deleted_at: Some(now), ..x }
}

/// Stamp `deleted_at = now` on every session row carrying this session id
/// (the store's update touches each matching row).
pub fn tombstone_sessions_by_sid(rows: &mut Vec<Session>, session_id: &String, now: i64)
    ensures
        final(rows)@.len() == old(rows)@.len(),
        forall|j: int|
            0 <= j < old(rows)@.len() ==> final(rows)@[j] == (if old(rows)@[j].session_id@
                == session_id@ {
                session_tombstoned(old(rows)@[j], now)
            } else {
                old(rows)@[j]
            }),
{
    let n = rows.len();
    let mut i: usize = 0;
    while i < n
        invariant
            n == rows@.len(),
            0 <= i <= n,
            forall|j: int|
                0 <= j < i ==> rows@[j] == (if old(rows)@[j].session_id@ == session_id@ {
                    session_tombstoned(old(rows)@[j], now)
                } else {
                    old(rows)@[j]
                }),
            forall|j: int| i <= j < n ==> rows@[j] == old(rows)@[j],
        decreases n - i,
    {
        if rows[i].session_id == *session_id {
            rows[i].deleted_at = Some(now);
        }
        i = i + 1;
    }
}

/// Stamp `deleted_at = now` on every session row whose user id matches and
/// whose tombstone is still unset (session rotation at login).
pub fn tombstone_live_sessions_of_user(rows: &mut Vec<Session>, user_id: i64, now: i64)
    ensures
        final(rows)@.len() == old(rows)@.len(),
        forall|j: int|
            0 <= j < old(rows)@.len() ==> final(rows)@[j] == (if old(rows)@[j].user_id == user_id
                && old(rows)@[j].deleted_at is None {
                session_tombstoned(old(rows)@[j], now)
            } else {
                old(rows)@[j]
            }),
{
    let n = rows.len();
    let mut i: usize = 0;
    while i < n
        invariant
            n == rows@.len(),
            0 <= i <= n,
            forall|j: int|
                0 <= j < i ==> rows@[j] == (if old(rows)@[j].user_id == user_id && old(
                    rows,
                )@[j].deleted_at is None {
                    session_tombstoned(old(rows)@[j], now)
                } else {
                    old(rows)@[j]
                }),
            forall|j: int| i <= j < n ==> rows@[j] == old(rows)@[j],
        decreases n - i,
    {
        if rows[i].user_id == user_id && rows[i].deleted_at.is_none() {
            rows[i].deleted_at = Some(now);
        }
        i = i + 1;
    }
}

/// Stamp `deleted_at = now` on every token row carrying this token string,
/// whatever its type or prior tombstone (single-use consumption).
pub fn tombstone_tokens_by_token(rows: &mut Vec<UserOneTimeToken>, token: &String, now: i64)
    ensures
        final(rows)@.len() == old(rows)@.len(),
        forall|j: int|
            0 <= j < old(rows)@.len() ==> final(rows)@[j] == (if old(rows)@[j].token@ == token@ {
                token_tombstoned(old(rows)@[j], now)
            } else {
                old(rows)@[j]
            }),
{
    let n = rows.len();
    let mut i: usize = 0;
    while i < n
        invariant
            n == rows@.len(),
            0 <= i <= n,
            forall|j: int|
                0 <= j < i ==> rows@[j] == (if old(rows)@[j].token@ == token@ {
                    token_tombstoned(old(rows)@[j], now)
                } else {
                    old(rows)@[j]
                }),
            forall|j: int| i <= j < n ==> rows@[j] == old(rows)@[j],
        decreases n - i,
    {
        if rows[i].token == *token {
            rows[i].deleted_at = Some(now);
        }
        i = i + 1;
    }
}

/// Stamp `deleted_at = now` on every live token row of this user (token
/// rotation before a fresh one is issued).
pub fn tombstone_live_tokens_of_user(rows: &mut Vec<UserOneTimeToken>, user_id: i64, now: i64)
    ensures
        final(rows)@.len() == old(rows)@.len(),
        forall|j: int|
            0 <= j < old(rows)@.len() ==> final(rows)@[j] == (if old(rows)@[j].user_id == user_id
                && old(rows)@[j].deleted_at is None {
                token_tombstoned(old(rows)@[j], now)
            } else {
                old(rows)@[j]
            }),
{
    let n = rows.len();
    let mut i: usize = 0;
    while i < n
        invariant
            n == rows@.len(),
            0 <= i <= n,
            forall|j: int|
                0 <= j < i ==> rows@[j] == (if old(rows)@[j].user_id == user_id && old(
                    rows,
                )@[j].deleted_at is None {
                    token_tombstoned(old(rows)@[j], now)
                } else {
                    old(rows)@[j]
                }),
            forall|j: int| i <= j < n ==> rows@[j] == old(rows)@[j],
        decreases n - i,
    {
        if rows[i].user_id == user_id && rows[i].deleted_at.is_none() {
            rows[i].deleted_at = Some(now);
        }
        i = i + 1;
    }
}

/// Ids handed out by successive allocations are pairwise distinct and
/// strictly increasing: if the counter starts at `start` and the `k`-th
/// allocation returns `start + k + 1` (which `generate_id` ensures), then the
/// resulting id sequence has no collisions.
pub proof fn lemma_allocated_ids_strictly_increasing(start: int, ids: Seq<int>)
    requires
        forall|k: int| 0 <= k < ids.len() ==> ids[k] == start + k + 1,
    ensures
        forall|i: int, j: int| 0 <= i < j < ids.len() ==> ids[i] < ids[j],
        forall|i: int, j: int| 0 <= i < ids.len() && 0 <= j < ids.len() && i != j ==> ids[i]
            != ids[j],
{
}

} // verus!
