//! Server-side game-state engine: request admission (master-version, ban,
//! session and one-time-token checks) composed with transactional resource
//! mutation (login and daily-bonus processing, present distribution, item and
//! card grants, leveling, weighted gacha draws, and atomic id allocation).
//!
//! The relational store is modelled as an in-memory [`state::GameState`]; every
//! engine operation is a verified function over that state whose contract pins
//! down the rows it reads and writes. Process boundaries (HTTP, SQL transport)
//! live outside this crate and hand the engine plain values.
use vstd::prelude::*;

pub mod admin;
pub mod admission;
pub mod deck;
pub mod external;
pub mod gacha;
pub mod grant;
pub mod leveling;
pub mod login;
pub mod loginbonus;
pub mod model;
pub mod present;
pub mod response;
pub mod state;

verus! {

/// Error taxonomy: validation errors (bad request), auth errors, not-found
/// errors, conflicts (insufficient funds or stock), and consistency errors
/// (an already-consumed resource observed mid-transaction).
#[derive(Clone, Copy, Debug, PartialEq, Eq, Structural)]
pub enum Error {
    InvalidRequestBody,
    InvalidMasterVersion,
    InvalidItemType,
    InvalidToken,
    GetRequestTime,
    ExpiredSession,
    UserNotFound,
    UserDeviceNotFound,
    ItemNotFound,
    LoginBonusRewardNotFound,
    NoFormFile,
    Unauthorized,
    Forbidden,
    /// No active master-version row exists.
    MasterVersionNotFound,
    /// A gacha draw count other than 1 or 10 was requested.
    InvalidDrawCount,
    /// The user's coin balance does not cover the draw cost.
    InsufficientCoin,
    /// The requested gacha is not active (or does not exist).
    GachaNotFound,
    /// An active gacha has an empty item pool.
    GachaItemNotFound,
    /// A present to receive was observed already consumed mid-transaction.
    PresentAlreadyReceived,
    /// The target card is already at its maximum level.
    CardMaxLevel,
    /// A consumed amount exceeds the owned stock, or is negative.
    InsufficientItem,
    /// The target card does not exist for this user.
    CardNotFound,
    /// A deck update did not name exactly three owned cards.
    InvalidCardCount,
    /// The active deck references cards that do not all exist.
    InvalidCardIds,
    /// No active deck exists for the user.
    DeckNotFound,
    /// The present-receipt request carried an empty id list.
    EmptyPresentIds,
    /// A present listing asked for page zero.
    InvalidPage,
}

impl Error {
    /// The HTTP status class this error maps to.
    pub fn status_code(&self) -> (code: u16)
        ensures
            code == self.spec_status_code(),
    {
        match *self {
            Error::InvalidRequestBody => 400,
            Error::InvalidItemType => 400,
            Error::InvalidToken => 400,
            Error::NoFormFile => 400,
            Error::InvalidDrawCount => 400,
            Error::CardMaxLevel => 400,
            Error::InsufficientItem => 400,
            Error::InvalidCardCount => 400,
            Error::InvalidCardIds => 400,
            Error::InvalidPage => 400,
            Error::Forbidden => 403,
            Error::ExpiredSession => 401,
            Error::Unauthorized => 401,
            Error::UserNotFound => 404,
            Error::UserDeviceNotFound => 404,
            Error::ItemNotFound => 404,
            Error::LoginBonusRewardNotFound => 404,
            Error::MasterVersionNotFound => 404,
            Error::GachaNotFound => 404,
            Error::GachaItemNotFound => 404,
            Error::CardNotFound => 404,
            Error::DeckNotFound => 404,
            Error::InsufficientCoin => 409,
            Error::InvalidMasterVersion => 422,
            Error::EmptyPresentIds => 422,
            Error::PresentAlreadyReceived => 500,
            Error::GetRequestTime => 500,
        }
    }

    pub open spec fn spec_status_code(&self) -> u16 {
        match *self {
            Error::InvalidRequestBody => 400,
            Error::InvalidItemType => 400,
            Error::InvalidToken => 400,
            Error::NoFormFile => 400,
            Error::InvalidDrawCount => 400,
            Error::CardMaxLevel => 400,
            Error::InsufficientItem => 400,
            Error::InvalidCardCount => 400,
            Error::InvalidCardIds => 400,
            Error::InvalidPage => 400,
            Error::Forbidden => 403,
            Error::ExpiredSession => 401,
            Error::Unauthorized => 401,
            Error::UserNotFound => 404,
            Error::UserDeviceNotFound => 404,
            Error::ItemNotFound => 404,
            Error::LoginBonusRewardNotFound => 404,
            Error::MasterVersionNotFound => 404,
            Error::GachaNotFound => 404,
            Error::GachaItemNotFound => 404,
            Error::CardNotFound => 404,
            Error::DeckNotFound => 404,
            Error::InsufficientCoin => 409,
            Error::InvalidMasterVersion => 422,
            Error::EmptyPresentIds => 422,
            Error::PresentAlreadyReceived => 500,
            Error::GetRequestTime => 500,
        }
    }
}

/// The authoritative request time: epoch seconds, taken from a client-supplied
/// date header when present, else from the server clock. Business logic treats
/// it as the current time for the whole request.
#[derive(Clone, Copy, Debug)]
pub struct RequestTime(pub i64);

} // verus!
