//! Administration: password-checked admin login with its own session table,
//! master-data browsing and upload (upsert by row id), user inspection and
//! banning.
use vstd::prelude::*;

use crate::Error;
use crate::external::generate_uuid;
use crate::external::bcrypt_accepts;
use crate::external::bcrypt_verify;
use crate::external::ts_ok;
use crate::model::GachaItemMaster;
use crate::model::GachaMaster;
use crate::model::ItemMaster;
use crate::model::LoginBonusMaster;
use crate::model::LoginBonusRewardMaster;
use crate::model::PresentAllMaster;
use crate::model::Session;
use crate::model::User;
use crate::model::UserBan;
use crate::model::UserCard;
use crate::model::UserDeck;
use crate::model::UserDevice;
use crate::model::UserItem;
use crate::model::UserLoginBonus;
use crate::model::UserPresent;
use crate::model::UserPresentAllReceivedHistory;
use crate::model::VersionMaster;
use crate::model::AdminUser;
use crate::state::CopyRow;
use crate::state::GameState;
use crate::state::copy_rows;
use crate::state::copy_table;
use crate::state::find_active_version;
use crate::state::find_user;
use crate::state::first_at;
use crate::state::first_idx;
use crate::state::generate_id;
use crate::state::lemma_first_idx_none;
use crate::state::lemma_first_idx_of;
use crate::state::masters_unchanged;
use crate::state::p_user;
use crate::state::session_tombstoned;
use crate::state::sm_active_version;
use crate::login::fresh_session;
use crate::login::state_unchanged;

verus! {

/// An admin login request: the account id and the plaintext password.
pub struct AdminLoginRequest {
    pub user_id: i64,
    pub password: String,
}

/// A successful admin login: the freshly issued admin session.
pub struct AdminLoginResponse {
    pub admin_session: Session,
}

/// The full master-data listing.
pub struct AdminListMasterResponse {
    pub version_master: Vec<VersionMaster>,
    pub items: Vec<ItemMaster>,
    pub gachas: Vec<GachaMaster>,
    pub gacha_items: Vec<GachaItemMaster>,
    pub present_alls: Vec<PresentAllMaster>,
    pub login_bonuses: Vec<LoginBonusMaster>,
    pub login_bonus_rewards: Vec<LoginBonusRewardMaster>,
}

/// The active version row after a master upload.
pub struct AdminUpdateMasterResponse {
    pub version_master: VersionMaster,
}

/// One user's full stored state.
pub struct AdminUserResponse {
    pub user: User,
    pub user_devices: Vec<UserDevice>,
    pub user_cards: Vec<UserCard>,
    pub user_decks: Vec<UserDeck>,
    pub user_items: Vec<UserItem>,
    pub user_login_bonuses: Vec<UserLoginBonus>,
    pub user_presents: Vec<UserPresent>,
    pub user_present_all_received_history: Vec<UserPresentAllReceivedHistory>,
}

/// The ban confirmation: the user as stored.
pub struct AdminBanUserResponse {
    pub user: User,
}

/// The password check against the account's stored bcrypt hash.
pub fn verify_password(hash: &String, pw: &String) -> (r: Result<(), Error>)
    ensures
        r is Ok <==> bcrypt_accepts(hash@, pw@),
        r is Err ==> r == Result::<(), Error>::Err(Error::Unauthorized),
{
    if bcrypt_verify(hash.as_str(), pw.as_str()) {
        Ok(())
    } else {
        Err(Error::Unauthorized)
    }
}

pub open spec fn p_admin_user(user_id: i64) -> spec_fn(AdminUser) -> bool {
    |x: AdminUser| x.id == user_id
}

/// The first admin account with this id.
fn find_admin_user(rows: &Vec<AdminUser>, user_id: i64) -> (r: Option<usize>)
    ensures
        match r {
            Some(i) => first_at(rows@, p_admin_user(user_id), i as int) && first_idx(
                rows@,
                p_admin_user(user_id),
            ) == Some(i as int),
            None => first_idx(rows@, p_admin_user(user_id)) is None && (forall|j: int|
                0 <= j < rows@.len() ==> !(#[trigger] p_admin_user(user_id)(rows@[j]))),
        },
{
    let ghost p = p_admin_user(user_id);
    let n = rows.len();
    let mut i: usize = 0;
    while i < n
        invariant
            n == rows@.len(),
            0 <= i <= n,
            p == p_admin_user(user_id),
            forall|j: int| 0 <= j < i ==> !p(rows@[j]),
        decreases n - i,
    {
        if rows[i].id == user_id {
            proof {
                assert(p(rows@[i as int]));
                lemma_first_idx_of(rows@, p, i as int);
            }
            return Some(i);
        }
        proof {
            assert(!p(rows@[i as int]));
        }
        i = i + 1;
    }
    proof {
        lemma_first_idx_none(rows@, p);
    }
    None
}

/// An admin account row after its activity stamp.
pub open spec fn admin_stamped(x: AdminUser, now: i64) -> AdminUser {
    AdminUser { last_activated_at: now, updated_at: now, ..x }
}

/// Log an administrator in: verify the password against the stored hash,
/// stamp the account, tombstone the previous live admin sessions, and issue
/// a fresh one.
#[verifier::loop_isolation(false)]
pub fn admin_login(s: &mut GameState, req: &AdminLoginRequest, now: i64) -> (r: Result<
    AdminLoginResponse,
    Error,
>)
    requires
        old(s).next_entity_id < i64::MAX,
        ts_ok(now as int),
    ensures
        first_idx(old(s).admin_users@, p_admin_user(req.user_id)) is None ==> r == Result::<
            AdminLoginResponse,
            Error,
        >::Err(Error::UserNotFound) && state_unchanged(*old(s), *final(s)),
        first_idx(old(s).admin_users@, p_admin_user(req.user_id)) matches Some(a) ==> ({
            let account = old(s).admin_users@[a];
            if !bcrypt_accepts(account.password@, req.password@) {
                r == Result::<AdminLoginResponse, Error>::Err(Error::Unauthorized)
                    && state_unchanged(*old(s), *final(s))
            } else {
                &&& r matches Ok(v)
                &&& final(s).admin_users@.len() == old(s).admin_users@.len()
                &&& (forall|j: int|
                    0 <= j < old(s).admin_users@.len() ==> final(s).admin_users@[j] == (if old(
                        s,
                    ).admin_users@[j].id == req.user_id {
                        admin_stamped(old(s).admin_users@[j], now)
                    } else {
                        old(s).admin_users@[j]
                    }))
                &&& final(s).admin_sessions@ == old(s).admin_sessions@.map(
                    |j: int, x: Session|
                        if x.user_id == req.user_id && x.deleted_at is None {
                            session_tombstoned(x, now)
                        } else {
                            x
                        },
                ).push(r->Ok_0.admin_session)
                &&& r->Ok_0.admin_session == fresh_session(
                    (old(s).next_entity_id + 1) as i64,
                    req.user_id,
                    r->Ok_0.admin_session.session_id,
                    now,
                )
                &&& r->Ok_0.admin_session.session_id@.len() == 36
                &&& final(s).next_entity_id == old(s).next_entity_id + 1
                &&& final(s).users@ == old(s).users@
                &&& final(s).sessions@ == old(s).sessions@
                &&& final(s).tokens@ == old(s).tokens@
                &&& final(s).user_devices@ == old(s).user_devices@
                &&& final(s).user_bans@ == old(s).user_bans@
                &&& final(s).user_cards@ == old(s).user_cards@
                &&& final(s).user_decks@ == old(s).user_decks@
                &&& final(s).user_items@ == old(s).user_items@
                &&& final(s).user_login_bonuses@ == old(s).user_login_bonuses@
                &&& final(s).user_presents@ == old(s).user_presents@
                &&& final(s).present_history@ == old(s).present_history@
                &&& masters_unchanged(*old(s), *final(s))
            }
        }),
{
    let user_id = req.user_id;
    let a = match find_admin_user(&s.admin_users, user_id) {
        Some(a) => a,
        None => {
            return Err(Error::UserNotFound);
        },
    };
    if let Err(e) = verify_password(&s.admin_users[a].password, &req.password) {
        return Err(e);
    }

    // stamp the account's activity
    let n = s.admin_users.len();
    let mut i: usize = 0;
    while i < n
        invariant
            n == s.admin_users@.len(),
            0 <= i <= n,
            forall|j: int|
                0 <= j < i ==> s.admin_users@[j] == (if old(s).admin_users@[j].id == user_id {
                    admin_stamped(old(s).admin_users@[j], now)
                } else {
                    old(s).admin_users@[j]
                }),
            forall|j: int| i <= j < n ==> s.admin_users@[j] == old(s).admin_users@[j],
            s.admin_sessions@ == old(s).admin_sessions@,
            s.next_entity_id == old(s).next_entity_id,
            s.users@ == old(s).users@,
            s.sessions@ == old(s).sessions@,
            s.tokens@ == old(s).tokens@,
            s.user_devices@ == old(s).user_devices@,
            s.user_bans@ == old(s).user_bans@,
            s.user_cards@ == old(s).user_cards@,
            s.user_decks@ == old(s).user_decks@,
            s.user_items@ == old(s).user_items@,
            s.user_login_bonuses@ == old(s).user_login_bonuses@,
            s.user_presents@ == old(s).user_presents@,
            s.present_history@ == old(s).present_history@,
            masters_unchanged(*old(s), *s),
        decreases n - i,
    {
        if s.admin_users[i].id == user_id {
            s.admin_users[i].last_activated_at = now;
            s.admin_users[i].updated_at = now;
        }
        i = i + 1;
    }

    // rotate the admin session
    let n2 = s.admin_sessions.len();
    let mut i2: usize = 0;
    while i2 < n2
        invariant
            n2 == s.admin_sessions@.len(),
            0 <= i2 <= n2,
            forall|j: int|
                0 <= j < i2 ==> s.admin_sessions@[j] == (if old(s).admin_sessions@[j].user_id
                    == user_id && old(s).admin_sessions@[j].deleted_at is None {
                    session_tombstoned(old(s).admin_sessions@[j], now)
                } else {
                    old(s).admin_sessions@[j]
                }),
            forall|j: int| i2 <= j < n2 ==> s.admin_sessions@[j] == old(s).admin_sessions@[j],
            s.next_entity_id == old(s).next_entity_id,
            s.admin_users@.len() == old(s).admin_users@.len(),
            forall|j: int|
                0 <= j < old(s).admin_users@.len() ==> s.admin_users@[j] == (if old(
                    s,
                ).admin_users@[j].id == user_id {
                    admin_stamped(old(s).admin_users@[j], now)
                } else {
                    old(s).admin_users@[j]
                }),
            s.users@ == old(s).users@,
            s.sessions@ == old(s).sessions@,
            s.tokens@ == old(s).tokens@,
            s.user_devices@ == old(s).user_devices@,
            s.user_bans@ == old(s).user_bans@,
            s.user_cards@ == old(s).user_cards@,
            s.user_decks@ == old(s).user_decks@,
            s.user_items@ == old(s).user_items@,
            s.user_login_bonuses@ == old(s).user_login_bonuses@,
            s.user_presents@ == old(s).user_presents@,
            s.present_history@ == old(s).present_history@,
            masters_unchanged(*old(s), *s),
        decreases n2 - i2,
    {
        if s.admin_sessions[i2].user_id == user_id && s.admin_sessions[i2].deleted_at.is_none() {
            s.admin_sessions[i2].deleted_at = Some(now);
        }
        i2 = i2 + 1;
    }

    let s_id = generate_id(s);
    let sess_id = generate_uuid();
    let sess = Session {
        id: s_id,
        user_id: user_id,
        session_id: sess_id,
        created_at: now,
        updated_at: now,
        expired_at: now + 86400,
        deleted_at: None,
    };
    s.admin_sessions.push(sess.clone_row());
    proof {
        assert(s.admin_sessions@ =~= old(s).admin_sessions@.map(
            |j: int, x: Session|
                if x.user_id == user_id && x.deleted_at is None {
                    session_tombstoned(x, now)
                } else {
                    x
                },
        ).push(sess));
    }
    Ok(AdminLoginResponse { admin_session: sess })
}

/// Log an administrator out: tombstone the live admin sessions carrying this
/// session id.
#[verifier::loop_isolation(false)]
pub fn admin_logout(s: &mut GameState, session_id: &String, now: i64)
    ensures
        final(s).admin_sessions@.len() == old(s).admin_sessions@.len(),
        forall|j: int|
            0 <= j < old(s).admin_sessions@.len() ==> final(s).admin_sessions@[j] == (if old(
                s,
            ).admin_sessions@[j].session_id@ == session_id@ && old(
                s,
            ).admin_sessions@[j].deleted_at is None {
                session_tombstoned(old(s).admin_sessions@[j], now)
            } else {
                old(s).admin_sessions@[j]
            }),
        final(s).next_entity_id == old(s).next_entity_id,
        final(s).users@ == old(s).users@,
        final(s).sessions@ == old(s).sessions@,
        final(s).tokens@ == old(s).tokens@,
        final(s).user_devices@ == old(s).user_devices@,
        final(s).user_bans@ == old(s).user_bans@,
        final(s).user_cards@ == old(s).user_cards@,
        final(s).user_decks@ == old(s).user_decks@,
        final(s).user_items@ == old(s).user_items@,
        final(s).user_login_bonuses@ == old(s).user_login_bonuses@,
        final(s).user_presents@ == old(s).user_presents@,
        final(s).present_history@ == old(s).present_history@,
        final(s).admin_users@ == old(s).admin_users@,
        masters_unchanged(*old(s), *final(s)),
{
    let n = s.admin_sessions.len();
    let mut i: usize = 0;
    while i < n
        invariant
            n == s.admin_sessions@.len(),
            0 <= i <= n,
            forall|j: int|
                0 <= j < i ==> s.admin_sessions@[j] == (if old(s).admin_sessions@[j].session_id@
                    == session_id@ && old(s).admin_sessions@[j].deleted_at is None {
                    session_tombstoned(old(s).admin_sessions@[j], now)
                } else {
                    old(s).admin_sessions@[j]
                }),
            forall|j: int| i <= j < n ==> s.admin_sessions@[j] == old(s).admin_sessions@[j],
            s.next_entity_id == old(s).next_entity_id,
            s.users@ == old(s).users@,
            s.sessions@ == old(s).sessions@,
            s.tokens@ == old(s).tokens@,
            s.user_devices@ == old(s).user_devices@,
            s.user_bans@ == old(s).user_bans@,
            s.user_cards@ == old(s).user_cards@,
            s.user_decks@ == old(s).user_decks@,
            s.user_items@ == old(s).user_items@,
            s.user_login_bonuses@ == old(s).user_login_bonuses@,
            s.user_presents@ == old(s).user_presents@,
            s.present_history@ == old(s).present_history@,
            s.admin_users@ == old(s).admin_users@,
            masters_unchanged(*old(s), *s),
        decreases n - i,
    {
        if s.admin_sessions[i].session_id == *session_id && s.admin_sessions[i].deleted_at.is_none() {
            s.admin_sessions[i].deleted_at = Some(now);
        }
        i = i + 1;
    }
}

/// The full master-data listing, as stored.
pub fn admin_list_master(s: &GameState) -> (r: AdminListMasterResponse)
    ensures
        r.version_master@ == s.version_masters@,
        r.items@ == s.item_masters@,
        r.gachas@ == s.gacha_masters@,
        r.gacha_items@ == s.gacha_item_masters@,
        r.present_alls@ == s.present_all_masters@,
        r.login_bonuses@ == s.login_bonus_masters@,
        r.login_bonus_rewards@ == s.login_bonus_reward_masters@,
{
    AdminListMasterResponse {
        version_master: copy_table(&s.version_masters),
        items: copy_table(&s.item_masters),
        gachas: copy_table(&s.gacha_masters),
        gacha_items: copy_rows(&s.gacha_item_masters),
        present_alls: copy_table(&s.present_all_masters),
        login_bonuses: copy_rows(&s.login_bonus_masters),
        login_bonus_rewards: copy_rows(&s.login_bonus_reward_masters),
    }
}

/// A master row keyed by its id column, as the upload's upsert addresses it.
pub trait MasterRow: CopyRow {
    spec fn spec_id(&self) -> i64;

    fn row_id(&self) -> (r: i64)
        ensures
            r == self.spec_id(),
    ;
}

impl MasterRow for VersionMaster {
    open spec fn spec_id(&self) -> i64 {
        self.id
    }

    fn row_id(&self) -> (r: i64)
        ensures
            r == self.spec_id(),
    {
        self.id
    }
}

impl MasterRow for ItemMaster {
    open spec fn spec_id(&self) -> i64 {
        self.id
    }

    fn row_id(&self) -> (r: i64)
        ensures
            r == self.spec_id(),
    {
        self.id
    }
}

impl MasterRow for GachaMaster {
    open spec fn spec_id(&self) -> i64 {
        self.id
    }

    fn row_id(&self) -> (r: i64)
        ensures
            r == self.spec_id(),
    {
        self.id
    }
}

impl MasterRow for GachaItemMaster {
    open spec fn spec_id(&self) -> i64 {
        self.id
    }

    fn row_id(&self) -> (r: i64)
        ensures
            r == self.spec_id(),
    {
        self.id
    }
}

impl MasterRow for PresentAllMaster {
    open spec fn spec_id(&self) -> i64 {
        self.id
    }

    fn row_id(&self) -> (r: i64)
        ensures
            r == self.spec_id(),
    {
        self.id
    }
}

impl MasterRow for LoginBonusMaster {
    open spec fn spec_id(&self) -> i64 {
        self.id
    }

    fn row_id(&self) -> (r: i64)
        ensures
            r == self.spec_id(),
    {
        self.id
    }
}

impl MasterRow for LoginBonusRewardMaster {
    open spec fn spec_id(&self) -> i64 {
        self.id
    }

    fn row_id(&self) -> (r: i64)
        ensures
            r == self.spec_id(),
    {
        self.id
    }
}

/// One upsert: rows sharing the incoming row's id are replaced; a new id is
/// appended.
pub open spec fn sp_upsert_one<T: MasterRow>(table: Seq<T>, x: T) -> Seq<T> {
    if exists|j: int| 0 <= j < table.len() && (#[trigger] table[j].spec_id()) == x.spec_id() {
        table.map(|j: int, y: T| if y.spec_id() == x.spec_id() {
            x
        } else {
            y
        })
    } else {
        table.push(x)
    }
}

/// The table after upserting the uploaded rows, in upload order.
pub open spec fn sp_upsert<T: MasterRow>(table: Seq<T>, rows: Seq<T>) -> Seq<T>
    decreases rows.len(),
{
    if rows.len() == 0 {
        table
    } else {
        sp_upsert_one(sp_upsert(table, rows.drop_last()), rows.last())
    }
}

/// Upsert the uploaded rows into a master table.
#[verifier::loop_isolation(false)]
fn upsert_rows<T: MasterRow>(table: &mut Vec<T>, rows: &Vec<T>)
    ensures
        final(table)@ == sp_upsert(old(table)@, rows@),
{
    let n = rows.len();
    proof {
        assert(rows@.take(0) =~= Seq::<T>::empty());
    }
    let mut k: usize = 0;
    while k < n
        invariant
            0 <= k <= n,
            table@ == sp_upsert(old(table)@, rows@.take(k as int)),
        decreases n - k,
    {
        proof {
            assert(rows@.take(k as int + 1).drop_last() =~= rows@.take(k as int));
            assert(rows@.take(k as int + 1).last() == rows@[k as int]);
        }
        let x = rows[k].copy_row();
        let x_id = x.row_id();
        let ghost pre = table@;

        // does any row carry this id?
        let m = table.len();
        let mut found = false;
        let mut i: usize = 0;
        while i < m
            invariant
                0 <= i <= m,
                m == table@.len(),
                table@ == pre,
                found <==> exists|j: int|
                    0 <= j < i && (#[trigger] table@[j].spec_id()) == x.spec_id(),
            decreases m - i,
        {
            if table[i].row_id() == x_id {
                found = true;
            }
            i = i + 1;
        }

        if found {
            let mut i2: usize = 0;
            while i2 < m
                invariant
                    0 <= i2 <= m,
                    m == table@.len(),
                    forall|j: int|
                        0 <= j < i2 ==> table@[j] == (if pre[j].spec_id() == x.spec_id() {
                            x
                        } else {
                            pre[j]
                        }),
                    forall|j: int| i2 <= j < m ==> table@[j] == pre[j],
                decreases m - i2,
            {
                if table[i2].row_id() == x_id {
                    let fresh = x.copy_row();
                    table[i2] = fresh;
                }
                i2 = i2 + 1;
            }
            proof {
                assert(table@ =~= sp_upsert_one(pre, x));
            }
        } else {
            table.push(x);
            proof {
                assert(!(exists|j: int|
                    0 <= j < pre.len() && (#[trigger] pre[j].spec_id()) == x.spec_id()));
                assert(table@ =~= sp_upsert_one(pre, x));
            }
        }
        k = k + 1;
    }
    proof {
        assert(rows@.take(n as int) =~= rows@);
    }
}

/// One master upload: the parsed rows per table, each optional.
pub struct MasterUpdates {
    pub version_masters: Option<Vec<VersionMaster>>,
    pub item_masters: Option<Vec<ItemMaster>>,
    pub gacha_masters: Option<Vec<GachaMaster>>,
    pub gacha_item_masters: Option<Vec<GachaItemMaster>>,
    pub present_all_masters: Option<Vec<PresentAllMaster>>,
    pub login_bonus_masters: Option<Vec<LoginBonusMaster>>,
    pub login_bonus_reward_masters: Option<Vec<LoginBonusRewardMaster>>,
}

/// The table an optional upload leaves behind.
pub open spec fn sp_upserted<T: MasterRow>(table: Seq<T>, upload: Option<Vec<T>>) -> Seq<T> {
    match upload {
        Some(rows) => sp_upsert(table, rows@),
        None => table,
    }
}

/// Apply a master upload in one transaction: upsert each supplied table by
/// row id, then return the active version row. With no active version row
/// after the upload the whole transaction rolls back: nothing at all is
/// changed.
pub fn admin_update_master(s: &mut GameState, updates: &MasterUpdates) -> (r: Result<
    AdminUpdateMasterResponse,
    Error,
>)
    ensures
        ({
            let vt = sp_upserted(old(s).version_masters@, updates.version_masters);
            &&& (r is Ok <==> exists|i: int|
                0 <= i < vt.len() && sm_active_version(#[trigger] vt[i]))
            &&& (r matches Ok(v) ==> {
                &&& final(s).version_masters@ == vt
                &&& final(s).item_masters@ == sp_upserted(
                    old(s).item_masters@,
                    updates.item_masters,
                )
                &&& final(s).gacha_masters@ == sp_upserted(
                    old(s).gacha_masters@,
                    updates.gacha_masters,
                )
                &&& final(s).gacha_item_masters@ == sp_upserted(
                    old(s).gacha_item_masters@,
                    updates.gacha_item_masters,
                )
                &&& final(s).present_all_masters@ == sp_upserted(
                    old(s).present_all_masters@,
                    updates.present_all_masters,
                )
                &&& final(s).login_bonus_masters@ == sp_upserted(
                    old(s).login_bonus_masters@,
                    updates.login_bonus_masters,
                )
                &&& final(s).login_bonus_reward_masters@ == sp_upserted(
                    old(s).login_bonus_reward_masters@,
                    updates.login_bonus_reward_masters,
                )
                &&& final(s).next_entity_id == old(s).next_entity_id
                &&& final(s).users@ == old(s).users@
                &&& final(s).sessions@ == old(s).sessions@
                &&& final(s).admin_sessions@ == old(s).admin_sessions@
                &&& final(s).tokens@ == old(s).tokens@
                &&& final(s).user_devices@ == old(s).user_devices@
                &&& final(s).user_bans@ == old(s).user_bans@
                &&& final(s).user_cards@ == old(s).user_cards@
                &&& final(s).user_decks@ == old(s).user_decks@
                &&& final(s).user_items@ == old(s).user_items@
                &&& final(s).user_login_bonuses@ == old(s).user_login_bonuses@
                &&& final(s).user_presents@ == old(s).user_presents@
                &&& final(s).present_history@ == old(s).present_history@
                &&& final(s).admin_users@ == old(s).admin_users@
                &&& exists|i: int|
                    {
                        &&& 0 <= i < vt.len()
                        &&& sm_active_version(#[trigger] vt[i])
                        &&& (forall|j: int| 0 <= j < i ==> !sm_active_version(vt[j]))
                        &&& v.version_master == vt[i]
                    }
            })
            &&& (r is Err ==> r == Result::<AdminUpdateMasterResponse, Error>::Err(
                Error::MasterVersionNotFound,
            ) && state_unchanged(*old(s), *final(s)))
        }),
{
    // the transaction's working copies; committed only when an active
    // version row survives the upload
    let mut version_masters = copy_table(&s.version_masters);
    let mut item_masters = copy_table(&s.item_masters);
    let mut gacha_masters = copy_table(&s.gacha_masters);
    let mut gacha_item_masters = copy_rows(&s.gacha_item_masters);
    let mut present_all_masters = copy_table(&s.present_all_masters);
    let mut login_bonus_masters = copy_rows(&s.login_bonus_masters);
    let mut login_bonus_reward_masters = copy_rows(&s.login_bonus_reward_masters);

    if let Some(rows) = &updates.version_masters {
        upsert_rows(&mut version_masters, rows);
    }
    if let Some(rows) = &updates.item_masters {
        upsert_rows(&mut item_masters, rows);
    }
    if let Some(rows) = &updates.gacha_masters {
        upsert_rows(&mut gacha_masters, rows);
    }
    if let Some(rows) = &updates.gacha_item_masters {
        upsert_rows(&mut gacha_item_masters, rows);
    }
    if let Some(rows) = &updates.present_all_masters {
        upsert_rows(&mut present_all_masters, rows);
    }
    if let Some(rows) = &updates.login_bonus_masters {
        upsert_rows(&mut login_bonus_masters, rows);
    }
    if let Some(rows) = &updates.login_bonus_reward_masters {
        upsert_rows(&mut login_bonus_reward_masters, rows);
    }

    let i = match find_active_version(&version_masters) {
        Some(i) => i,
        None => {
            return Err(Error::MasterVersionNotFound);
        },
    };
    let active = version_masters[i].clone_row();
    proof {
        let vt = sp_upserted(old(s).version_masters@, updates.version_masters);
        assert(version_masters@ == vt);
        assert(sm_active_version(vt[i as int]));
        assert(forall|j: int| 0 <= j < i as int ==> !sm_active_version(vt[j]));
    }

    // commit
    s.version_masters = version_masters;
    s.item_masters = item_masters;
    s.gacha_masters = gacha_masters;
    s.gacha_item_masters = gacha_item_masters;
    s.present_all_masters = present_all_masters;
    s.login_bonus_masters = login_bonus_masters;
    s.login_bonus_reward_masters = login_bonus_reward_masters;

    Ok(AdminUpdateMasterResponse { version_master: active })
}

/// A row predicate per user-scoped table of the inspection view.
pub open spec fn p_device_of_user(user_id: i64) -> spec_fn(UserDevice) -> bool {
    |x: UserDevice| x.user_id == user_id
}

pub open spec fn p_deck_of_user(user_id: i64) -> spec_fn(UserDeck) -> bool {
    |x: UserDeck| x.user_id == user_id
}

pub open spec fn p_bonus_of_user(user_id: i64) -> spec_fn(UserLoginBonus) -> bool {
    |x: UserLoginBonus| x.user_id == user_id
}

pub open spec fn p_present_of_user(user_id: i64) -> spec_fn(UserPresent) -> bool {
    |x: UserPresent| x.user_id == user_id
}

pub open spec fn p_history_of_user(user_id: i64) -> spec_fn(UserPresentAllReceivedHistory) -> bool {
    |x: UserPresentAllReceivedHistory| x.user_id == user_id
}

/// Inspect one user: every stored row of theirs, in table order.
#[verifier::loop_isolation(false)]
pub fn admin_user(s: &GameState, user_id: i64) -> (r: Result<AdminUserResponse, Error>)
    ensures
        first_idx(s.users@, p_user(user_id)) is None ==> r == Result::<
            AdminUserResponse,
            Error,
        >::Err(Error::UserNotFound),
        first_idx(s.users@, p_user(user_id)) matches Some(u) ==> ({
            &&& r matches Ok(v)
            &&& r->Ok_0.user == s.users@[u]
            &&& r->Ok_0.user_devices@ == s.user_devices@.filter(p_device_of_user(user_id))
            &&& r->Ok_0.user_cards@ == s.user_cards@.filter(
                crate::leveling::p_card_of_user(user_id),
            )
            &&& r->Ok_0.user_decks@ == s.user_decks@.filter(p_deck_of_user(user_id))
            &&& r->Ok_0.user_items@ == s.user_items@.filter(
                crate::leveling::p_item_of_user(user_id),
            )
            &&& r->Ok_0.user_login_bonuses@ == s.user_login_bonuses@.filter(
                p_bonus_of_user(user_id),
            )
            &&& r->Ok_0.user_presents@ == s.user_presents@.filter(p_present_of_user(user_id))
            &&& r->Ok_0.user_present_all_received_history@ == s.present_history@.filter(
                p_history_of_user(user_id),
            )
        }),
{
    proof {
        reveal(Seq::filter);
    }
    let u = match find_user(&s.users, user_id) {
        Some(u) => u,
        None => {
            return Err(Error::UserNotFound);
        },
    };

    let mut devices: Vec<UserDevice> = Vec::new();
    let n1 = s.user_devices.len();
    proof {
        assert(s.user_devices@.take(0).filter(p_device_of_user(user_id)) =~= Seq::<
            UserDevice,
        >::empty());
    }
    let mut i1: usize = 0;
    while i1 < n1
        invariant
            0 <= i1 <= n1,
            devices@ == s.user_devices@.take(i1 as int).filter(p_device_of_user(user_id)),
        decreases n1 - i1,
    {
        proof {
            reveal(Seq::filter);
            assert(s.user_devices@.take(i1 as int + 1).drop_last() =~= s.user_devices@.take(
                i1 as int,
            ));
            assert(s.user_devices@.take(i1 as int + 1).last() == s.user_devices@[i1 as int]);
        }
        if s.user_devices[i1].user_id == user_id {
            devices.push(s.user_devices[i1].clone_row());
        }
        i1 = i1 + 1;
    }
    proof {
        assert(s.user_devices@.take(n1 as int) =~= s.user_devices@);
    }

    let mut cards: Vec<UserCard> = Vec::new();
    let n2 = s.user_cards.len();
    proof {
        assert(s.user_cards@.take(0).filter(crate::leveling::p_card_of_user(user_id)) =~= Seq::<
            UserCard,
        >::empty());
    }
    let mut i2: usize = 0;
    while i2 < n2
        invariant
            0 <= i2 <= n2,
            cards@ == s.user_cards@.take(i2 as int).filter(crate::leveling::p_card_of_user(user_id)),
        decreases n2 - i2,
    {
        proof {
            reveal(Seq::filter);
            assert(s.user_cards@.take(i2 as int + 1).drop_last() =~= s.user_cards@.take(i2 as int));
            assert(s.user_cards@.take(i2 as int + 1).last() == s.user_cards@[i2 as int]);
        }
        if s.user_cards[i2].user_id == user_id {
            cards.push(s.user_cards[i2]);
        }
        i2 = i2 + 1;
    }
    proof {
        assert(s.user_cards@.take(n2 as int) =~= s.user_cards@);
    }

    let mut decks: Vec<UserDeck> = Vec::new();
    let n3 = s.user_decks.len();
    proof {
        assert(s.user_decks@.take(0).filter(p_deck_of_user(user_id)) =~= Seq::<UserDeck>::empty());
    }
    let mut i3: usize = 0;
    while i3 < n3
        invariant
            0 <= i3 <= n3,
            decks@ == s.user_decks@.take(i3 as int).filter(p_deck_of_user(user_id)),
        decreases n3 - i3,
    {
        proof {
            reveal(Seq::filter);
            assert(s.user_decks@.take(i3 as int + 1).drop_last() =~= s.user_decks@.take(i3 as int));
            assert(s.user_decks@.take(i3 as int + 1).last() == s.user_decks@[i3 as int]);
        }
        if s.user_decks[i3].user_id == user_id {
            decks.push(s.user_decks[i3]);
        }
        i3 = i3 + 1;
    }
    proof {
        assert(s.user_decks@.take(n3 as int) =~= s.user_decks@);
    }

    let mut items: Vec<UserItem> = Vec::new();
    let n4 = s.user_items.len();
    proof {
        assert(s.user_items@.take(0).filter(crate::leveling::p_item_of_user(user_id)) =~= Seq::<
            UserItem,
        >::empty());
    }
    let mut i4: usize = 0;
    while i4 < n4
        invariant
            0 <= i4 <= n4,
            items@ == s.user_items@.take(i4 as int).filter(crate::leveling::p_item_of_user(user_id)),
        decreases n4 - i4,
    {
        proof {
            reveal(Seq::filter);
            assert(s.user_items@.take(i4 as int + 1).drop_last() =~= s.user_items@.take(i4 as int));
            assert(s.user_items@.take(i4 as int + 1).last() == s.user_items@[i4 as int]);
        }
        if s.user_items[i4].user_id == user_id {
            items.push(s.user_items[i4]);
        }
        i4 = i4 + 1;
    }
    proof {
        assert(s.user_items@.take(n4 as int) =~= s.user_items@);
    }

    let mut bonuses: Vec<UserLoginBonus> = Vec::new();
    let n5 = s.user_login_bonuses.len();
    proof {
        assert(s.user_login_bonuses@.take(0).filter(p_bonus_of_user(user_id)) =~= Seq::<
            UserLoginBonus,
        >::empty());
    }
    let mut i5: usize = 0;
    while i5 < n5
        invariant
            0 <= i5 <= n5,
            bonuses@ == s.user_login_bonuses@.take(i5 as int).filter(p_bonus_of_user(user_id)),
        decreases n5 - i5,
    {
        proof {
            reveal(Seq::filter);
            assert(s.user_login_bonuses@.take(i5 as int + 1).drop_last()
                =~= s.user_login_bonuses@.take(i5 as int));
            assert(s.user_login_bonuses@.take(i5 as int + 1).last()
                == s.user_login_bonuses@[i5 as int]);
        }
        if s.user_login_bonuses[i5].user_id == user_id {
            bonuses.push(s.user_login_bonuses[i5]);
        }
        i5 = i5 + 1;
    }
    proof {
        assert(s.user_login_bonuses@.take(n5 as int) =~= s.user_login_bonuses@);
    }

    let mut presents: Vec<UserPresent> = Vec::new();
    let n6 = s.user_presents.len();
    proof {
        assert(s.user_presents@.take(0).filter(p_present_of_user(user_id)) =~= Seq::<
            UserPresent,
        >::empty());
    }
    let mut i6: usize = 0;
    while i6 < n6
        invariant
            0 <= i6 <= n6,
            presents@ == s.user_presents@.take(i6 as int).filter(p_present_of_user(user_id)),
        decreases n6 - i6,
    {
        proof {
            reveal(Seq::filter);
            assert(s.user_presents@.take(i6 as int + 1).drop_last() =~= s.user_presents@.take(
                i6 as int,
            ));
            assert(s.user_presents@.take(i6 as int + 1).last() == s.user_presents@[i6 as int]);
        }
        if s.user_presents[i6].user_id == user_id {
            presents.push(s.user_presents[i6].clone_row());
        }
        i6 = i6 + 1;
    }
    proof {
        assert(s.user_presents@.take(n6 as int) =~= s.user_presents@);
    }

    let mut history: Vec<UserPresentAllReceivedHistory> = Vec::new();
    let n7 = s.present_history.len();
    proof {
        assert(s.present_history@.take(0).filter(p_history_of_user(user_id)) =~= Seq::<
            UserPresentAllReceivedHistory,
        >::empty());
    }
    let mut i7: usize = 0;
    while i7 < n7
        invariant
            0 <= i7 <= n7,
            history@ == s.present_history@.take(i7 as int).filter(p_history_of_user(user_id)),
        decreases n7 - i7,
    {
        proof {
            reveal(Seq::filter);
            assert(s.present_history@.take(i7 as int + 1).drop_last() =~= s.present_history@.take(
                i7 as int,
            ));
            assert(s.present_history@.take(i7 as int + 1).last() == s.present_history@[i7 as int]);
        }
        if s.present_history[i7].user_id == user_id {
            history.push(s.present_history[i7]);
        }
        i7 = i7 + 1;
    }
    proof {
        assert(s.present_history@.take(n7 as int) =~= s.present_history@);
    }

    Ok(
        AdminUserResponse {
            user: s.users[u],
            user_devices: devices,
            user_cards: cards,
            user_decks: decks,
            user_items: items,
            user_login_bonuses: bonuses,
            user_presents: presents,
            user_present_all_received_history: history,
        },
    )
}

/// A ban row of this user already exists.
pub open spec fn p_ban_of_user(user_id: i64) -> spec_fn(UserBan) -> bool {
    |x: UserBan| x.user_id == user_id
}

/// Ban a user: create the ban row, or — when one already exists for the user
/// — refresh its update stamp. An id is drawn either way.
#[verifier::loop_isolation(false)]
pub fn admin_ban_user(s: &mut GameState, user_id: i64, now: i64) -> (r: Result<
    AdminBanUserResponse,
    Error,
>)
    requires
        old(s).next_entity_id < i64::MAX,
    ensures
        first_idx(old(s).users@, p_user(user_id)) is None ==> r == Result::<
            AdminBanUserResponse,
            Error,
        >::Err(Error::UserNotFound) && state_unchanged(*old(s), *final(s)),
        first_idx(old(s).users@, p_user(user_id)) matches Some(u) ==> ({
            &&& r matches Ok(v)
            &&& r->Ok_0.user == old(s).users@[u]
            &&& final(s).next_entity_id == old(s).next_entity_id + 1
            &&& (match first_idx(old(s).user_bans@, p_ban_of_user(user_id)) {
                Some(b) => final(s).user_bans@ == old(s).user_bans@.update(
                    b,
                    UserBan { updated_at: now, ..old(s).user_bans@[b] },
                ),
                None => final(s).user_bans@ == old(s).user_bans@.push(
                    UserBan {
                        id: (old(s).next_entity_id + 1) as i64,
                        user_id: user_id,
                        created_at: now,
                        updated_at: now,
                        deleted_at: None,
                    },
                ),
            })
            &&& final(s).users@ == old(s).users@
            &&& final(s).sessions@ == old(s).sessions@
            &&& final(s).admin_sessions@ == old(s).admin_sessions@
            &&& final(s).tokens@ == old(s).tokens@
            &&& final(s).user_devices@ == old(s).user_devices@
            &&& final(s).user_cards@ == old(s).user_cards@
            &&& final(s).user_decks@ == old(s).user_decks@
            &&& final(s).user_items@ == old(s).user_items@
            &&& final(s).user_login_bonuses@ == old(s).user_login_bonuses@
            &&& final(s).user_presents@ == old(s).user_presents@
            &&& final(s).present_history@ == old(s).present_history@
            &&& final(s).admin_users@ == old(s).admin_users@
            &&& masters_unchanged(*old(s), *final(s))
        }),
{
    let u = match find_user(&s.users, user_id) {
        Some(u) => u,
        None => {
            return Err(Error::UserNotFound);
        },
    };
    let user_row = s.users[u];

    let ban_id = generate_id(s);

    // upsert the ban row on the user key
    match find_ban_row(&s.user_bans, user_id) {
        Some(b) => {
            s.user_bans[b].updated_at = now;
            proof {
                assert(s.user_bans@ =~= old(s).user_bans@.update(
                    b as int,
                    UserBan { updated_at: now, ..old(s).user_bans@[b as int] },
                ));
            }
        },
        None => {
            s.user_bans.push(
                UserBan {
                    id: ban_id,
                    user_id: user_id,
                    created_at: now,
                    updated_at: now,
                    deleted_at: None,
                },
            );
        },
    }

    Ok(AdminBanUserResponse { user: user_row })
}

/// The first ban row of this user.
fn find_ban_row(rows: &Vec<UserBan>, user_id: i64) -> (r: Option<usize>)
    ensures
        match r {
            Some(i) => first_at(rows@, p_ban_of_user(user_id), i as int) && first_idx(
                rows@,
                p_ban_of_user(user_id),
            ) == Some(i as int),
            None => first_idx(rows@, p_ban_of_user(user_id)) is None,
        },
{
    let ghost p = p_ban_of_user(user_id);
    let n = rows.len();
    let mut i: usize = 0;
    while i < n
        invariant
            n == rows@.len(),
            0 <= i <= n,
            p == p_ban_of_user(user_id),
            forall|j: int| 0 <= j < i ==> !p(rows@[j]),
        decreases n - i,
    {
        if rows[i].user_id == user_id {
            proof {
                assert(p(rows@[i as int]));
                lemma_first_idx_of(rows@, p, i as int);
            }
            return Some(i);
        }
        proof {
            assert(!p(rows@[i as int]));
        }
        i = i + 1;
    }
    proof {
        lemma_first_idx_none(rows@, p);
    }
    None
}

} // verus!
