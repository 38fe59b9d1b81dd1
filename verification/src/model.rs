//! Row types of the store: per-user game state and read-mostly master data.
//! All timestamps are epoch seconds; soft deletion is a nullable `deleted_at`
//! tombstone, never physical removal.
use vstd::prelude::*;

verus! {

/// A player: coin balance and activity timestamps. Never hard-deleted.
#[derive(Clone, Copy, Debug)]
pub struct User {
    pub id: i64,
    pub isu_coin: i64,
    pub last_get_reward_at: i64,
    pub last_activated_at: i64,
    pub registered_at: i64,
    pub created_at: i64,
    pub updated_at: i64,
    pub deleted_at: Option<i64>,
}

/// Device binding created at registration; authenticates viewer-id requests.
#[derive(Clone, Debug)]
pub struct UserDevice {
    pub id: i64,
    pub user_id: i64,
    pub platform_id: String,
    pub platform_type: i64,
    pub created_at: i64,
    pub updated_at: i64,
    pub deleted_at: Option<i64>,
}

/// A ban row; its existence makes every request of the user forbidden.
#[derive(Clone, Copy, Debug)]
pub struct UserBan {
    pub id: i64,
    pub user_id: i64,
    pub created_at: i64,
    pub updated_at: i64,
    pub deleted_at: Option<i64>,
}

/// An owned card instance with its current production rate and progress.
#[derive(Clone, Copy, Debug)]
pub struct UserCard {
    pub id: i64,
    pub user_id: i64,
    pub card_id: i64,
    pub amount_per_sec: i64,
    pub level: i64,
    pub total_exp: i64,
    pub created_at: i64,
    pub updated_at: i64,
    pub deleted_at: Option<i64>,
}

/// The active production deck: exactly three card-instance references.
#[derive(Clone, Copy, Debug)]
pub struct UserDeck {
    pub id: i64,
    pub user_id: i64,
    pub card_id1: i64,
    pub card_id2: i64,
    pub card_id3: i64,
    pub created_at: i64,
    pub updated_at: i64,
    pub deleted_at: Option<i64>,
}

/// Per-(user, master item) stock of enhancement materials.
#[derive(Clone, Copy, Debug)]
pub struct UserItem {
    pub id: i64,
    pub user_id: i64,
    pub item_type: i64,
    pub item_id: i64,
    pub amount: i64,
    pub created_at: i64,
    pub updated_at: i64,
    pub deleted_at: Option<i64>,
}

/// Per-(user, login-bonus master) progress through the reward sequence.
#[derive(Clone, Copy, Debug)]
pub struct UserLoginBonus {
    pub id: i64,
    pub user_id: i64,
    pub login_bonus_id: i64,
    pub last_reward_sequence: i64,
    pub loop_count: i64,
    pub created_at: i64,
    pub updated_at: i64,
    pub deleted_at: Option<i64>,
}

/// A grant sitting in the receive box; receipt tombstones it.
#[derive(Clone, Debug)]
pub struct UserPresent {
    pub id: i64,
    pub user_id: i64,
    pub sent_at: i64,
    pub item_type: i64,
    pub item_id: i64,
    pub amount: i64,
    pub present_message: String,
    pub created_at: i64,
    pub updated_at: i64,
    pub deleted_at: Option<i64>,
}

/// Idempotency guard: marks that a broadcast present was already granted.
#[derive(Clone, Copy, Debug)]
pub struct UserPresentAllReceivedHistory {
    pub id: i64,
    pub user_id: i64,
    pub present_all_id: i64,
    pub received_at: i64,
    pub created_at: i64,
    pub updated_at: i64,
    pub deleted_at: Option<i64>,
}

/// An issued session; at most one non-deleted session per user.
#[derive(Clone, Debug)]
pub struct Session {
    pub id: i64,
    pub user_id: i64,
    pub session_id: String,
    pub expired_at: i64,
    pub created_at: i64,
    pub updated_at: i64,
    pub deleted_at: Option<i64>,
}

/// A single-use credential gating one mutating action kind.
#[derive(Clone, Debug)]
pub struct UserOneTimeToken {
    pub id: i64,
    pub user_id: i64,
    pub token: String,
    pub token_type: i64,
    pub expired_at: i64,
    pub created_at: i64,
    pub updated_at: i64,
    pub deleted_at: Option<i64>,
}

/// An administrator account; the password field holds a bcrypt hash.
#[derive(Clone, Debug)]
pub struct AdminUser {
    pub id: i64,
    pub password: String,
    pub last_activated_at: i64,
    pub created_at: i64,
    pub updated_at: i64,
    pub deleted_at: Option<i64>,
}

/// Gacha banner master row with its active window and display order.
#[derive(Clone, Debug)]
pub struct GachaMaster {
    pub id: i64,
    pub name: String,
    pub start_at: i64,
    pub end_at: i64,
    pub display_order: i64,
    pub created_at: i64,
}

/// One entry of a gacha's weighted draw pool.
#[derive(Clone, Copy, Debug)]
pub struct GachaItemMaster {
    pub id: i64,
    pub gacha_id: i64,
    pub item_type: i64,
    pub item_id: i64,
    pub amount: i64,
    pub weight: i64,
    pub created_at: i64,
}

/// Item master row; the optional columns apply per item type.
#[derive(Clone, Debug)]
pub struct ItemMaster {
    pub id: i64,
    pub item_type: i64,
    pub name: String,
    pub description: String,
    pub amount_per_sec: Option<i64>,
    pub max_level: Option<i64>,
    pub max_amount_per_sec: Option<i64>,
    pub base_exp_per_level: Option<i64>,
    pub gained_exp: Option<i64>,
    pub shortening_min: Option<i64>,
}

/// Login bonus master: active window, column count and loop flag.
#[derive(Clone, Copy, Debug)]
pub struct LoginBonusMaster {
    pub id: i64,
    pub start_at: i64,
    pub end_at: i64,
    pub column_count: i64,
    pub looped: bool,
    pub created_at: i64,
}

/// The reward granted at one sequence position of a login bonus.
#[derive(Clone, Copy, Debug)]
pub struct LoginBonusRewardMaster {
    pub id: i64,
    pub login_bonus_id: i64,
    pub reward_sequence: i64,
    pub item_type: i64,
    pub item_id: i64,
    pub amount: i64,
    pub created_at: i64,
}

/// A broadcast present definition with its registration window.
#[derive(Clone, Debug)]
pub struct PresentAllMaster {
    pub id: i64,
    pub registered_start_at: i64,
    pub registered_end_at: i64,
    pub item_type: i64,
    pub item_id: i64,
    pub amount: i64,
    pub present_message: String,
    pub created_at: i64,
}

/// A master-data version row; `status == 1` marks the single active version.
#[derive(Clone, Debug)]
pub struct VersionMaster {
    pub id: i64,
    pub status: i64,
    pub master_version: String,
}

/// One-time-token type gating gacha draws.
pub const TOKEN_TYPE_GACHA: i64 = 1;

/// One-time-token type gating card leveling.
pub const TOKEN_TYPE_LEVELING: i64 = 2;


impl UserDevice {
    /// An exact copy of the row.
    pub fn clone_row(&self) -> (r: UserDevice)
        ensures
            r == *self,
    {
        UserDevice {
            id: self.id,
            user_id: self.user_id,
            platform_id: self.platform_id.clone(),
            platform_type: self.platform_type,
            created_at: self.created_at,
            updated_at: self.updated_at,
            deleted_at: self.deleted_at,
        }
    }
}

impl UserPresent {
    /// An exact copy of the row.
    pub fn clone_row(&self) -> (r: UserPresent)
        ensures
            r == *self,
    {
        UserPresent {
            id: self.id,
            user_id: self.user_id,
            sent_at: self.sent_at,
            item_type: self.item_type,
            item_id: self.item_id,
            amount: self.amount,
            present_message: self.present_message.clone(),
            created_at: self.created_at,
            updated_at: self.updated_at,
            deleted_at: self.deleted_at,
        }
    }
}

impl Session {
    /// An exact copy of the row.
    pub fn clone_row(&self) -> (r: Session)
        ensures
            r == *self,
    {
        Session {
            id: self.id,
            user_id: self.user_id,
            session_id: self.session_id.clone(),
            expired_at: self.expired_at,
            created_at: self.created_at,
            updated_at: self.updated_at,
            deleted_at: self.deleted_at,
        }
    }
}

impl UserOneTimeToken {
    /// An exact copy of the row.
    pub fn clone_row(&self) -> (r: UserOneTimeToken)
        ensures
            r == *self,
    {
        UserOneTimeToken {
            id: self.id,
            user_id: self.user_id,
            token: self.token.clone(),
            token_type: self.token_type,
            expired_at: self.expired_at,
            created_at: self.created_at,
            updated_at: self.updated_at,
            deleted_at: self.deleted_at,
        }
    }
}

impl GachaMaster {
    /// An exact copy of the row.
    pub fn clone_row(&self) -> (r: GachaMaster)
        ensures
            r == *self,
    {
        GachaMaster {
            id: self.id,
            name: self.name.clone(),
            start_at: self.start_at,
            end_at: self.end_at,
            display_order: self.display_order,
            created_at: self.created_at,
        }
    }
}

impl ItemMaster {
    /// An exact copy of the row.
    pub fn clone_row(&self) -> (r: ItemMaster)
        ensures
            r == *self,
    {
        ItemMaster {
            id: self.id,
            item_type: self.item_type,
            name: self.name.clone(),
            description: self.description.clone(),
            amount_per_sec: self.amount_per_sec,
            max_level: self.max_level,
            max_amount_per_sec: self.max_amount_per_sec,
            base_exp_per_level: self.base_exp_per_level,
            gained_exp: self.gained_exp,
            shortening_min: self.shortening_min,
        }
    }
}

impl PresentAllMaster {
    /// An exact copy of the row.
    pub fn clone_row(&self) -> (r: PresentAllMaster)
        ensures
            r == *self,
    {
        PresentAllMaster {
            id: self.id,
            registered_start_at: self.registered_start_at,
            registered_end_at: self.registered_end_at,
            item_type: self.item_type,
            item_id: self.item_id,
            amount: self.amount,
            present_message: self.present_message.clone(),
            created_at: self.created_at,
        }
    }
}

impl VersionMaster {
    /// An exact copy of the row.
    pub fn clone_row(&self) -> (r: VersionMaster)
        ensures
            r == *self,
    {
        VersionMaster {
            id: self.id,
            status: self.status,
            master_version: self.master_version.clone(),
        }
    }
}

impl AdminUser {
    /// An exact copy of the row.
    pub fn clone_row(&self) -> (r: AdminUser)
        ensures
            r == *self,
    {
        AdminUser {
            id: self.id,
            password: self.password.clone(),
            last_activated_at: self.last_activated_at,
            created_at: self.created_at,
            updated_at: self.updated_at,
            deleted_at: self.deleted_at,
        }
    }
}

/// A soft-deletable row is live while its tombstone is unset.
pub open spec fn live(deleted_at: Option<i64>) -> bool {
    deleted_at is None
}

} // verus!
