//! Records exchanged with callers, error kinds, row status and paging.

use vstd::prelude::*;

verus! {

/// The default page size of a brand's product listing.
pub const MIN_ROWS: u32 = 20;

/// No listing returns more rows than this.
pub const MAX_ROWS: u32 = 100;

/// The kind that every error of the library maps to, for callers that branch
/// on kind rather than on message.
#[derive(Debug, Clone, Copy, PartialEq, Eq, Structural)]
pub enum ErrorKind {
    Validation,
    NotFound,
    Conflict,
    Unauthenticated,
    Forbidden,
    Internal,
}

/// Failures of authentication, token handling and operator management.
#[derive(Debug, Clone, Copy, PartialEq, Eq, Structural)]
pub enum AuthError {
    NoAuthHeaderError,
    InvalidAuthHeaderError,
    InvalidUserName,
    InvalidCredentials,
    EncryptError,
    JWTTokenError,
    JWTTokenCreationError,
    NoPermissionError,
    PasswordTooShort,
}

impl AuthError {
    pub open spec fn spec_kind(self) -> ErrorKind {
        match self {
            AuthError::NoAuthHeaderError => ErrorKind::Unauthenticated,
            AuthError::InvalidAuthHeaderError => ErrorKind::Unauthenticated,
            AuthError::JWTTokenError => ErrorKind::Unauthenticated,
            AuthError::InvalidUserName => ErrorKind::NotFound,
            AuthError::InvalidCredentials => ErrorKind::Unauthenticated,
            AuthError::NoPermissionError => ErrorKind::Forbidden,
            AuthError::PasswordTooShort => ErrorKind::Validation,
            AuthError::EncryptError => ErrorKind::Internal,
            AuthError::JWTTokenCreationError => ErrorKind::Internal,
        }
    }

    pub fn kind(&self) -> (r: ErrorKind)
        ensures
            r == self.spec_kind(),
    {
        match self {
            AuthError::NoAuthHeaderError => ErrorKind::Unauthenticated,
            AuthError::InvalidAuthHeaderError => ErrorKind::Unauthenticated,
            AuthError::JWTTokenError => ErrorKind::Unauthenticated,
            AuthError::InvalidUserName => ErrorKind::NotFound,
            AuthError::InvalidCredentials => ErrorKind::Unauthenticated,
            AuthError::NoPermissionError => ErrorKind::Forbidden,
            AuthError::PasswordTooShort => ErrorKind::Validation,
            AuthError::EncryptError => ErrorKind::Internal,
            AuthError::JWTTokenCreationError => ErrorKind::Internal,
        }
    }

    pub fn message(&self) -> &'static str {
        match self {
            AuthError::NoAuthHeaderError => "no auth header",
            AuthError::InvalidAuthHeaderError => "invalid auth header",
            AuthError::InvalidUserName => "invalid username",
            AuthError::InvalidCredentials => "invalid credentials (password)",
            AuthError::EncryptError => "could not hash password",
            AuthError::JWTTokenError => "jwt token not valid",
            AuthError::JWTTokenCreationError => "jwt token creation error",
            AuthError::NoPermissionError => "no permission",
            AuthError::PasswordTooShort => "password length must not be shorter than 12",
        }
    }
}

/// Failures of the catalog rules.
#[derive(Debug, Clone, Copy, PartialEq, Eq, Structural)]
pub enum CatalogError {
    EmptyBatch,
    EmptyName,
    EmptyTitle,
    NegativePrice,
    InvalidStatus,
    NameTaken,
    DuplicateSequence,
    NumbersExhausted,
    BrandIdsMismatch,
    BrandNotFound,
    BrandNameNotFound,
    ProductNotFound,
}

impl CatalogError {
    pub open spec fn spec_kind(self) -> ErrorKind {
        match self {
            CatalogError::EmptyBatch => ErrorKind::Validation,
            CatalogError::EmptyName => ErrorKind::Validation,
            CatalogError::EmptyTitle => ErrorKind::Validation,
            CatalogError::NegativePrice => ErrorKind::Validation,
            CatalogError::InvalidStatus => ErrorKind::Validation,
            CatalogError::NameTaken => ErrorKind::Conflict,
            CatalogError::DuplicateSequence => ErrorKind::Conflict,
            CatalogError::NumbersExhausted => ErrorKind::Conflict,
            CatalogError::BrandIdsMismatch => ErrorKind::Conflict,
            CatalogError::BrandNotFound => ErrorKind::NotFound,
            CatalogError::BrandNameNotFound => ErrorKind::NotFound,
            CatalogError::ProductNotFound => ErrorKind::NotFound,
        }
    }

    pub fn kind(&self) -> (r: ErrorKind)
        ensures
            r == self.spec_kind(),
    {
        match self {
            CatalogError::EmptyBatch => ErrorKind::Validation,
            CatalogError::EmptyName => ErrorKind::Validation,
            CatalogError::EmptyTitle => ErrorKind::Validation,
            CatalogError::NegativePrice => ErrorKind::Validation,
            CatalogError::InvalidStatus => ErrorKind::Validation,
            CatalogError::NameTaken => ErrorKind::Conflict,
            CatalogError::DuplicateSequence => ErrorKind::Conflict,
            CatalogError::NumbersExhausted => ErrorKind::Conflict,
            CatalogError::BrandIdsMismatch => ErrorKind::Conflict,
            CatalogError::BrandNotFound => ErrorKind::NotFound,
            CatalogError::BrandNameNotFound => ErrorKind::NotFound,
            CatalogError::ProductNotFound => ErrorKind::NotFound,
        }
    }

    pub fn message(&self) -> &'static str {
        match self {
            CatalogError::EmptyBatch => "empty brands",
            CatalogError::EmptyName => "name can't be empty",
            CatalogError::EmptyTitle => "title can't be empty",
            CatalogError::NegativePrice => "sell price must not be negative",
            CatalogError::InvalidStatus => "status must be 0 or 1",
            CatalogError::NameTaken => "brand name already exists",
            CatalogError::DuplicateSequence => "brand sequences must be unique",
            CatalogError::NumbersExhausted => "no id or sequence number left",
            CatalogError::BrandIdsMismatch => "brand ids not match",
            CatalogError::BrandNotFound => "brand does not exist",
            CatalogError::BrandNameNotFound => "brand name does not exist",
            CatalogError::ProductNotFound => "product does not exist",
        }
    }
}

/// Lifecycle of a catalog row: live, or soft-deleted.
#[derive(Debug, Clone, Copy, PartialEq, Eq, Structural)]
pub enum CommonStatus {
    Valid,
    Invalid,
}

impl CommonStatus {
    pub open spec fn spec_code(self) -> u8 {
        match self {
            CommonStatus::Valid => 0,
            CommonStatus::Invalid => 1,
        }
    }

    /// The number stored for this status.
    pub fn code(&self) -> (r: u8)
        ensures
            r == self.spec_code(),
    {
        match self {
            CommonStatus::Valid => 0,
            CommonStatus::Invalid => 1,
        }
    }
}

/// A page requested by a client: rows to skip and rows wanted.
#[derive(Debug, Clone, Copy, PartialEq, Eq, Structural)]
pub struct Paging {
    pub offset: Option<u32>,
    pub limit: Option<u32>,
}

pub open spec fn spec_clamped_limit(paging: Paging, default: u32) -> u32 {
    let wanted = match paging.limit {
        Some(l) => l,
        None => default,
    };
    if wanted < MAX_ROWS {
        wanted
    } else {
        MAX_ROWS
    }
}

pub open spec fn spec_offset(paging: Paging) -> u32 {
    match paging.offset {
        Some(o) => o,
        None => 0,
    }
}

impl Paging {
    /// Rows to skip: zero when none was asked for.
    pub fn start(&self) -> (r: u32)
        ensures
            r == spec_offset(*self),
    {
        match self.offset {
            Some(o) => o,
            None => 0,
        }
    }

    /// Rows to return: what was asked for, else `default`, and never more
    /// than `MAX_ROWS`.
    pub fn clamped_limit(&self, default: u32) -> (r: u32)
        ensures
            r == spec_clamped_limit(*self, default),
            r <= MAX_ROWS,
    {
        let wanted = match self.limit {
            Some(l) => l,
            None => default,
        };
        if wanted < MAX_ROWS {
            wanted
        } else {
            MAX_ROWS
        }
    }
}

/// The signed content of a session token.
#[derive(Debug, Clone)]
pub struct Claims {
    /// The operator's id, in decimal.
    pub sub: String,
    /// The operator's username.
    pub name: String,
    /// Expiry, in seconds since the Unix epoch.
    pub exp: u64,
}

#[derive(Debug, Clone)]
pub struct AdminLoginRequest {
    pub username: String,
    pub password: String,
}

#[derive(Debug, Clone)]
pub struct AdminLoginResponse {
    pub username: String,
    pub token: String,
    pub avatar: Option<String>,
}

/// An operator as stored: id, username and encoded password hash.
#[derive(Debug, Clone)]
pub struct AdminLoginUser {
    pub id: u64,
    pub username: String,
    pub password: String,
}

/// The identity that a valid session token carries.
#[derive(Debug, Clone)]
pub struct AdminUser {
    pub id: u64,
    pub username: String,
}

#[derive(Debug, Clone)]
pub struct UpdatePassword {
    pub old_password: String,
    pub new_password: String,
}

/// Checks a submitted record before it is written.
pub trait Validate {
    /// The outcome that the rules give for this record.
    spec fn validation(&self) -> Result<(), CatalogError>;

    fn validate(&self) -> (r: Result<(), CatalogError>)
        ensures
            r == self.validation(),
    ;
}

} // verus!
