//! Rows of the database tables, as the models are made from them.
use vstd::prelude::*;

verus! {

/// Access level of a user as the database stores it.
#[derive(Debug, Clone, Copy, PartialEq, Eq, Structural)]
pub enum Role {
    User,
    Admin,
}

/// A row of the `users` table.
pub struct UserRow {
    pub id: String,
    pub email: String,
    pub username: String,
    pub verified: bool,
    pub registered: bool,
    pub role: Role,
}

/// A row of the `files` table.
pub struct FileRow {
    pub id: String,
    pub name: String,
    pub original_name: String,
    pub uploader: String,
    pub hash: String,
    /// Upload time, in nanoseconds since the epoch.
    pub uploaded: i64,
    pub size: i64,
}

/// A row of the `albums` table.
pub struct AlbumRow {
    pub id: String,
    pub name: String,
    pub description: Option<String>,
    pub user_id: String,
    pub public: bool,
    /// Creation time, in nanoseconds since the epoch.
    pub created: i64,
}

/// A row of the `registration_keys` table.
pub struct RegistrationKeyRow {
    pub id: String,
    pub issuer: String,
    pub code: String,
    pub uses_left: Option<i32>,
    /// Expiry time, in nanoseconds since the epoch.
    pub expiry_date: Option<i64>,
}

} // verus!
