//! The data the API exchanges: forms, query parameters and responses.
use vstd::prelude::*;
use crate::internal::{can_have_thumbnail, is_image_extension_spec, thumbnail_dir, thumbnail_name, upper_extension};
use crate::entity::{AlbumRow, FileRow, RegistrationKeyRow, Role, UserRow};
use crate::multipart::File;
use crate::text::{chars_of, replace_all, replace_chars, string_of};

verus! {

/// HTTP status codes the responses use.
pub const STATUS_OK: u16 = 200;
pub const STATUS_BAD_REQUEST: u16 = 400;
pub const STATUS_UNAUTHORIZED: u16 = 401;
pub const STATUS_NOT_FOUND: u16 = 404;
pub const STATUS_INTERNAL_SERVER_ERROR: u16 = 500;

#[verifier::external_type_specification]
#[verifier::external_body]
pub struct ExJsonValue(serde_json::Value);

/// Standard message response.
///
/// Usually the only field will be `message`.
#[derive(Debug)]
pub struct MessageResponse {
    code: u16,
    /// Message
    message: String,
    /// Optional error (only on 500 errors)
    error: Option<String>,
    /// Optional data, can be any JSON object
    data: Option<std::collections::HashMap<String, serde_json::Value>>,
}

impl MessageResponse {
    pub closed spec fn spec_code(self) -> u16 {
        self.code
    }

    pub closed spec fn spec_message(self) -> Seq<char> {
        self.message@
    }

    pub closed spec fn spec_error(self) -> Option<Seq<char>> {
        match self.error {
            Some(e) => Some(e@),
            None => None,
        }
    }

    pub closed spec fn spec_has_data(self) -> bool {
        self.data is Some
    }

    /// The data attached to the response, if any.
    pub closed spec fn spec_data(self) -> Option<std::collections::HashMap<String, serde_json::Value>> {
        self.data
    }

    /// Create new message response
    pub fn new(code: u16, message: &str) -> (r: Self)
        ensures
            r.spec_code() == code,
            r.spec_message() == message@,
            r.spec_error() is None,
            !r.spec_has_data(),
            r.spec_data() is None,
    {
        MessageResponse { code, message: message.to_owned(), data: None, error: None }
    }

    /// Create new message response with data attached.
    pub fn new_with_data(
        code: u16,
        message: &str,
        data: std::collections::HashMap<String, serde_json::Value>,
    ) -> (r: Self)
        ensures
            r.spec_code() == code,
            r.spec_message() == message@,
            r.spec_error() is None,
            r.spec_has_data(),
            r.spec_data() == Some(data),
    {
        MessageResponse { code, message: message.to_owned(), data: Some(data), error: None }
    }

    /// New internal server error response
    pub fn internal_server_error(error: &str) -> (r: Self)
        ensures
            r.spec_code() == STATUS_INTERNAL_SERVER_ERROR,
            r.spec_message() == "There was a problem processing your request"@,
            r.spec_error() == Some(error@),
            !r.spec_has_data(),
    {
        let mut response = MessageResponse::new(
            STATUS_INTERNAL_SERVER_ERROR,
            "There was a problem processing your request",
        );
        response.error = Some(error.to_owned());
        response
    }

    /// Create new unauthorized error response
    pub fn unauthorized_error() -> (r: Self)
        ensures
            r.spec_code() == STATUS_UNAUTHORIZED,
            r.spec_message() == "You are not authorized to make this request"@,
            r.spec_error() is None,
            !r.spec_has_data(),
    {
        MessageResponse::new(STATUS_UNAUTHORIZED, "You are not authorized to make this request")
    }

    /// Create new bad request error response
    pub fn bad_request() -> (r: Self)
        ensures
            r.spec_code() == STATUS_BAD_REQUEST,
            r.spec_message() == "You sent an invalid request"@,
            r.spec_error() is None,
            !r.spec_has_data(),
    {
        MessageResponse::new(STATUS_BAD_REQUEST, "You sent an invalid request")
    }

    pub fn code(&self) -> (r: u16)
        ensures
            r == self.spec_code(),
    {
        self.code
    }

    pub fn message(&self) -> (r: &str)
        ensures
            r@ == self.spec_message(),
    {
        self.message.as_str()
    }

    pub fn error(&self) -> (r: Option<&str>)
        ensures
            match r {
                Some(e) => self.spec_error() == Some(e@),
                None => self.spec_error() is None,
            },
    {
        match &self.error {
            Some(e) => Some(e.as_str()),
            None => None,
        }
    }

    pub fn data(&self) -> (r: &Option<std::collections::HashMap<String, serde_json::Value>>)
        ensures
            *r == self.spec_data(),
            r is Some == self.spec_has_data(),
    {
        &self.data
    }
}

/// A page of items.
pub struct Page<T> {
    pub page: usize,
    pub pages: usize,
    pub items: Vec<T>,
}

/// The settings row of the database.
pub struct SettingsModel {
    pub one_row_enforce: bool,
    pub app_name: String,
    pub app_description: String,
    /// Theme color, by its stored value.
    pub color: String,
}

/// Public server configuration
pub struct AppInfo {
    /// App name
    pub app_name: String,
    /// App description
    pub app_description: String,
    /// Theme color of the Backpack instance
    pub color: String,
    /// Are registration keys enabled?
    pub invite_only: bool,
    /// Is SMTP (email verification) enabled on the server?
    pub smtp: bool,
    /// Git tag (version) or commit hash
    pub git_version: String,
    /// Amount of files uploaded.
    pub uploaded_files: usize,
}

impl AppInfo {
    /// The public information of a server with the given settings; `git_version`
    /// is the version the server was built from.
    pub fn new(
        settings_model: SettingsModel,
        invite_only: bool,
        smtp: bool,
        uploaded_files: usize,
        git_version: &str,
    ) -> (r: Self)
        ensures
            r.app_name == settings_model.app_name,
            r.app_description == settings_model.app_description,
            r.color@ == settings_model.color@,
            r.invite_only == invite_only,
            r.smtp == smtp,
            r.git_version@ == git_version@,
            r.uploaded_files == uploaded_files,
    {
        Self {
            app_name: settings_model.app_name,
            app_description: settings_model.app_description,
            color: settings_model.color.clone(),
            invite_only,
            smtp,
            git_version: git_version.to_owned(),
            uploaded_files,
        }
    }
}

/// User access level (user, admin).
#[derive(Debug, Clone, Copy, PartialEq, Eq, Structural)]
pub enum UserRole {
    User,
    Admin,
}

/// Rank of a role: an admin ranks above a user.
pub open spec fn role_rank(role: UserRole) -> int {
    match role {
        UserRole::User => 0,
        UserRole::Admin => 1,
    }
}

impl UserRole {
    /// Whether this role ranks below `other` (users rank below admins).
    pub fn is_below(&self, other: &UserRole) -> (r: bool)
        ensures
            r == (role_rank(*self) < role_rank(*other)),
    {
        match (self, other) {
            (UserRole::User, UserRole::Admin) => true,
            _ => false,
        }
    }
}

/// Whether an authenticated user may use a route: the token may come from an
/// application only where the route allows that, and the user's role must
/// reach the route's role.
pub fn auth_allows(
    user_role: UserRole,
    required: UserRole,
    from_application: bool,
    allow_application: bool,
) -> (r: bool)
    ensures
        r == !((from_application && !allow_application) || role_rank(user_role) < role_rank(
            required,
        )),
{
    !((from_application && !allow_application) || user_role.is_below(&required))
}

pub struct UserData {
    pub id: String,
    pub username: String,
    /// This will not be present if accessed by another user.
    pub email: Option<String>,
    /// This will not be present if accessed by another user.
    pub verified: Option<bool>,
    /// Has the user already verified with a registration key?
    pub registered: Option<bool>,
    pub role: UserRole,
}

pub struct UserCreateForm {
    pub username: String,
    pub email: String,
    pub password: String,
    /// Required when creating a user with password.
    pub registration_key: Option<String>,
}

/// Used when registering an existing account with a registration key.
pub struct RegistrationParams {
    /// This doesn't have to be provided if an admin is calling this route.
    pub key: Option<String>,
}

pub struct UserDeleteForm {
    /// This is required if a password has been set prior.
    pub password: Option<String>,
}

pub struct UpdateUserSettings {
    pub email: Option<String>,
    pub username: Option<String>,
    pub new_password: Option<String>,
    /// This is required if a password has been set prior.
    pub current_password: Option<String>,
}

pub struct BasicAuthForm {
    pub auth: String,
    pub password: String,
}

/// OAuth redirect request parameters.
pub struct OAuthRequest {
    pub code: String,
    pub state: String,
}

/// OAuth providers a user can sign in with.
#[derive(Debug, Clone, Copy, PartialEq, Eq, Structural)]
pub enum OAuthProvider {
    Google,
    Github,
    Discord,
}

pub struct OAuthLoginQuery {
    pub provider: OAuthProvider,
    pub redirect: Option<String>,
    pub include_token: bool,
}

pub struct LoginRedirectUrl {
    pub url: String,
}

/// Unlink an OAuth method.
pub struct UnlinkAuthMethod {
    pub method: OAuthProvider,
    /// Password required if present.
    pub password: Option<String>,
}

/// Enabled authorization methods.
pub struct AuthMethods {
    /// Is password authentication enabled.
    pub password: bool,
    /// Google username (email before the @).
    pub google: Option<String>,
    /// Cached github username.
    pub github: Option<String>,
    /// Cached discord tag.
    pub discord: Option<String>,
}

impl AuthMethods {
    /// Get the amount of enabled auth methods.
    pub fn enabled_methods(&self) -> (r: u8)
        ensures
            r == (if self.password { 1int } else { 0 }) + (if self.google is Some { 1int } else { 0 })
                + (if self.github is Some { 1int } else { 0 }) + (if self.discord is Some { 1int } else { 0 }),
    {
        (self.password as u8) + (self.google.is_some() as u8) + (self.github.is_some() as u8) + (
        self.discord.is_some() as u8)
    }
}

pub struct ApplicationData {
    pub id: String,
    pub name: String,
    pub user_id: String,
    /// Only sent when the token is originally created.
    pub token: Option<String>,
}

pub struct TokenResponse {
    pub token: String,
}

pub struct ApplicationCreateForm {
    pub name: String,
}

pub struct TokenData {
    pub id: i32,
    pub name: String,
    pub user_id: i32,
    /// Only sent when the token is originally created.
    pub token: Option<String>,
}

pub struct TokenCreateForm {
    pub name: String,
}

pub struct TokenQuery {
    pub id: i32,
}

pub struct FileQuery {
    /// Filename search
    pub search: Option<String>,
    /// File uploader ID
    pub user: Option<String>,
}

pub struct AlbumData {
    pub id: String,
    pub name: String,
    /// Optional album description
    pub description: Option<String>,
    /// User who created the album.
    pub user_id: String,
    /// Is the album public.
    pub public: bool,
    /// Date of album creation, in nanoseconds since the epoch.
    pub created: i64,
}

pub struct AlbumDelete {
    pub delete_files: Option<bool>,
}

pub struct RegistrationKeyData {
    pub id: String,
    /// Admin which issued this registration key.
    pub issuer: String,
    /// Registration key.
    pub code: String,
    /// Amount of uses left.
    pub uses_left: Option<i32>,
    /// Key invalidation date, in nanoseconds since the epoch.
    pub expiry_date: Option<i64>,
}

pub struct RegistrationKeyParams {
    /// Maximum amount of key uses.
    pub uses: Option<i32>,
    /// Expiration in milliseconds from creation date.
    pub expiration: Option<i64>,
}

pub struct RegisterKeyCreateData {
    pub max_uses: i32,
}

pub struct FileStats {
    pub usage: i64,
}

/// Upload a file
pub struct UploadFile {
    pub upload_file: File,
}

pub struct FileData {
    pub id: String,
    pub uploader: String,
    pub name: String,
    pub original_name: String,
    pub url: Option<String>,
    pub thumbnail_url: Option<String>,
    pub hash: String,
    /// Upload time, in nanoseconds since the epoch.
    pub uploaded: i64,
    pub size: i64,
}

/// The text of the path `root` with `name` pushed onto it, as `PathBuf::push`
/// joins them and `Path::display` shows the result.
pub uninterp spec fn pushed_path(root: Seq<char>, name: Seq<char>) -> Seq<char>;

/// `PathBuf::push` of `name` onto the path `root`, shown as text.
#[verifier::external_body]
fn push_path(root: &str, name: &str) -> (r: String)
    ensures
        r@ == pushed_path(root@, name@),
{
    let mut path = std::path::PathBuf::from(root);
    path.push(name);
    path.as_path().display().to_string()
}

/// A path with its backslashes turned into slashes.
pub open spec fn forward_slashes(s: Seq<char>) -> Seq<char> {
    replace_all(s, seq!['\\'], seq!['/'])
}

/// Every backslash of a path turned into a slash (`str::replace`).
pub fn to_forward_slashes(s: &str) -> (r: String)
    ensures
        r@ == forward_slashes(s@),
{
    let chars = chars_of(s);
    let from: Vec<char> = vec!['\\'];
    let to: Vec<char> = vec!['/'];
    proof {
        assert(from@ == seq!['\\']);
        assert(to@ == seq!['/']);
    }
    string_of(&replace_chars(&chars, &from, &to))
}

impl FileData {
    /// Computes and sets the URL based on a root storage path
    pub fn set_url(&mut self, root_path: &str)
        ensures
            final(self).url matches Some(u) && u@ == forward_slashes(
                pushed_path(root_path@, old(self).name@),
            ),
            final(self).name == old(self).name,
            final(self).thumbnail_url == old(self).thumbnail_url,
            final(self).id == old(self).id,
            final(self).uploader == old(self).uploader,
            final(self).original_name == old(self).original_name,
            final(self).hash == old(self).hash,
            final(self).uploaded == old(self).uploaded,
            final(self).size == old(self).size,
    {
        let pushed = push_path(root_path, self.name.as_str());
        self.url = Some(to_forward_slashes(pushed.as_str()));
    }

    /// Computes and sets the URL of the thumbnail based on root storage path.
    /// This will only set if a valid image or extension was sent
    pub fn set_thumbnail_url(&mut self, root_path: &str)
        ensures
            is_image_extension_spec(upper_extension(old(self).name@)) ==> (final(self).thumbnail_url matches Some(u)
                && u@ == forward_slashes(pushed_path(root_path@, thumbnail_dir() + old(self).name@))),
            !is_image_extension_spec(upper_extension(old(self).name@)) ==> final(self).thumbnail_url
                == old(self).thumbnail_url,
            final(self).name == old(self).name,
            final(self).url == old(self).url,
            final(self).id == old(self).id,
            final(self).uploader == old(self).uploader,
            final(self).original_name == old(self).original_name,
            final(self).hash == old(self).hash,
            final(self).uploaded == old(self).uploaded,
            final(self).size == old(self).size,
    {
        if can_have_thumbnail(self.name.as_str()) {
            let thumb = thumbnail_name(self.name.as_str());
            let pushed = push_path(root_path, thumb.as_str());
            self.thumbnail_url = Some(to_forward_slashes(pushed.as_str()));
        }
    }
}

/// The most tokens a user may hold.
pub const TOKEN_LIMIT: i64 = 5;

/// The answer to a request to create a token when the user holds `count`
/// tokens already: refused above the limit.
pub fn token_limit_error(count: i64) -> (r: Option<MessageResponse>)
    ensures
        count > TOKEN_LIMIT ==> (r matches Some(m) && m.spec_error() is None && m.spec_data() is None && m.spec_code() == STATUS_BAD_REQUEST
            && m.spec_message() == "The token limit per user is 5"@),
        count <= TOKEN_LIMIT ==> r is None,
{
    if count > TOKEN_LIMIT {
        Some(MessageResponse::new(STATUS_BAD_REQUEST, "The token limit per user is 5"))
    } else {
        None
    }
}

/// The answer to a token name that is too long (over 32 bytes) or too short
/// (under 4 bytes); `None` when the name is acceptable.
pub fn token_name_error(name: &str) -> (r: Option<MessageResponse>)
    ensures
        vstd::utf8::encode_utf8(name@).len() > 32 ==> (r matches Some(m) && m.spec_error() is None && m.spec_data() is None && m.spec_code()
            == STATUS_BAD_REQUEST && m.spec_message()
            == "Token name too long (maximum 32 characters)"@),
        vstd::utf8::encode_utf8(name@).len() < 4 ==> (r matches Some(m) && m.spec_error() is None && m.spec_data() is None && m.spec_code()
            == STATUS_BAD_REQUEST && m.spec_message()
            == "Token name too short (maximum 4 characters)"@),
        4 <= vstd::utf8::encode_utf8(name@).len() <= 32 ==> r is None,
{
    let len = name.as_bytes().len();
    if len > 32 {
        Some(MessageResponse::new(STATUS_BAD_REQUEST, "Token name too long (maximum 32 characters)"))
    } else if len < 4 {
        Some(MessageResponse::new(STATUS_BAD_REQUEST, "Token name too short (maximum 4 characters)"))
    } else {
        None
    }
}

/// The answer when a token of that name exists already.
pub fn token_exists_error() -> (r: MessageResponse)
    ensures
        r.spec_code() == STATUS_BAD_REQUEST,
        r.spec_message() == "A token with that name already exists"@,
        r.spec_error() is None,
        r.spec_data() is None,
{
    MessageResponse::new(STATUS_BAD_REQUEST, "A token with that name already exists")
}

} // verus!

verus! {

pub open spec fn auth_allows_spec(
    user_role: UserRole,
    required: UserRole,
    from_application: bool,
    allow_application: bool,
) -> bool {
    !((from_application && !allow_application) || role_rank(user_role) < role_rank(required))
}

/// A greater role reaches whatever a lesser role reaches: an admin passes
/// every check a user passes.
pub proof fn lemma_admin_reaches_user_routes(
    required: UserRole,
    from_application: bool,
    allow_application: bool,
)
    ensures
        auth_allows_spec(UserRole::User, required, from_application, allow_application)
            ==> auth_allows_spec(UserRole::Admin, required, from_application, allow_application),
{
}

/// A token from an application never passes a route that refuses them.
pub proof fn lemma_application_refused(user_role: UserRole, required: UserRole)
    ensures
        !auth_allows_spec(user_role, required, true, false),
{
}

} // verus!

verus! {

/// Answer to a user account that was created.
pub fn user_created_response() -> (r: MessageResponse)
    ensures
        r.spec_code() == STATUS_OK,
        r.spec_message() == "User has successfully been created"@,
        r.spec_error() is None,
        r.spec_data() is None,
{
    MessageResponse::new(STATUS_OK, "User has successfully been created")
}

/// Answer to a user that was verified by code.
pub fn user_verified_response() -> (r: MessageResponse)
    ensures
        r.spec_code() == STATUS_OK,
        r.spec_message() == "User has been verified"@,
        r.spec_error() is None,
        r.spec_data() is None,
{
    MessageResponse::new(STATUS_OK, "User has been verified")
}

/// Answer to a user that was deleted.
pub fn user_deleted_response() -> (r: MessageResponse)
    ensures
        r.spec_code() == STATUS_OK,
        r.spec_message() == "User has been deleted"@,
        r.spec_error() is None,
        r.spec_data() is None,
{
    MessageResponse::new(STATUS_OK, "User has been deleted")
}

/// Answer to a verification mail sent again to `email`.
pub fn verification_resent_response(email: &str) -> (r: MessageResponse)
    ensures
        r.spec_code() == STATUS_OK,
        r.spec_message() == "Verification email resent to "@ + email@,
        r.spec_error() is None,
        r.spec_data() is None,
{
    let mut message = "Verification email resent to ".to_owned();
    message.append(email);
    MessageResponse::new(STATUS_OK, message.as_str())
}

/// Answer to an album that was deleted.
pub fn album_deleted_response(name: &str) -> (r: MessageResponse)
    ensures
        r.spec_code() == STATUS_OK,
        r.spec_message() == "Successfully deleted album: "@ + name@,
        r.spec_error() is None,
        r.spec_data() is None,
{
    let mut message = "Successfully deleted album: ".to_owned();
    message.append(name);
    MessageResponse::new(STATUS_OK, message.as_str())
}

/// Answer to a path that names nothing the server has.
pub fn not_found_response() -> (r: MessageResponse)
    ensures
        r.spec_code() == STATUS_NOT_FOUND,
        r.spec_message() == "Resource was not found!"@,
        r.spec_error() is None,
        r.spec_data() is None,
{
    MessageResponse::new(STATUS_NOT_FOUND, "Resource was not found!")
}

/// Whether deleting an album also deletes its files: only when asked to.
pub fn album_delete_files(query: &AlbumDelete) -> (r: bool)
    ensures
        r == (query.delete_files == Some(true)),
{
    match query.delete_files {
        Some(v) => v,
        None => false,
    }
}

/// Message of an upload that was already there.
pub fn upload_conflict_message() -> (r: String)
    ensures
        r@ == "File was already uploaded"@,
{
    "File was already uploaded".to_owned()
}

} // verus!

verus! {

impl From<Role> for UserRole {
    fn from(role: Role) -> (r: UserRole) {
        match role {
            Role::Admin => UserRole::Admin,
            Role::User => UserRole::User,
        }
    }
}

impl vstd::std_specs::convert::FromSpecImpl<Role> for UserRole {
    open spec fn obeys_from_spec() -> bool {
        true
    }

    open spec fn from_spec(role: Role) -> UserRole {
        match role {
            Role::Admin => UserRole::Admin,
            Role::User => UserRole::User,
        }
    }
}

impl From<UserRow> for UserData {
    fn from(user: UserRow) -> (r: UserData) {
        let role = UserRole::from(user.role);
        UserData {
            id: user.id,
            username: user.username,
            email: Some(user.email),
            verified: Some(user.verified),
            registered: Some(user.registered),
            role,
        }
    }
}

impl vstd::std_specs::convert::FromSpecImpl<UserRow> for UserData {
    open spec fn obeys_from_spec() -> bool {
        true
    }

    open spec fn from_spec(user: UserRow) -> UserData {
        UserData {
            id: user.id,
            username: user.username,
            email: Some(user.email),
            verified: Some(user.verified),
            registered: Some(user.registered),
            role: match user.role {
                Role::Admin => UserRole::Admin,
                Role::User => UserRole::User,
            },
        }
    }
}

impl From<FileRow> for FileData {
    fn from(file: FileRow) -> (r: FileData) {
        FileData {
            id: file.id,
            uploader: file.uploader,
            name: file.name,
            original_name: file.original_name,
            hash: file.hash,
            uploaded: file.uploaded,
            size: file.size,
            url: None,
            thumbnail_url: None,
        }
    }
}

impl vstd::std_specs::convert::FromSpecImpl<FileRow> for FileData {
    open spec fn obeys_from_spec() -> bool {
        true
    }

    /// The URLs are not stored: the route that answers with the file fills them in.
    open spec fn from_spec(file: FileRow) -> FileData {
        FileData {
            id: file.id,
            uploader: file.uploader,
            name: file.name,
            original_name: file.original_name,
            hash: file.hash,
            uploaded: file.uploaded,
            size: file.size,
            url: None,
            thumbnail_url: None,
        }
    }
}

impl From<AlbumRow> for AlbumData {
    fn from(album: AlbumRow) -> (r: AlbumData) {
        AlbumData {
            id: album.id,
            name: album.name,
            description: album.description,
            user_id: album.user_id,
            created: album.created,
            public: album.public,
        }
    }
}

impl vstd::std_specs::convert::FromSpecImpl<AlbumRow> for AlbumData {
    open spec fn obeys_from_spec() -> bool {
        true
    }

    open spec fn from_spec(album: AlbumRow) -> AlbumData {
        AlbumData {
            id: album.id,
            name: album.name,
            description: album.description,
            user_id: album.user_id,
            created: album.created,
            public: album.public,
        }
    }
}

impl From<RegistrationKeyRow> for RegistrationKeyData {
    fn from(model: RegistrationKeyRow) -> (r: RegistrationKeyData) {
        RegistrationKeyData {
            id: model.id,
            code: model.code,
            expiry_date: model.expiry_date,
            issuer: model.issuer,
            uses_left: model.uses_left,
        }
    }
}

impl vstd::std_specs::convert::FromSpecImpl<RegistrationKeyRow> for RegistrationKeyData {
    open spec fn obeys_from_spec() -> bool {
        true
    }

    open spec fn from_spec(model: RegistrationKeyRow) -> RegistrationKeyData {
        RegistrationKeyData {
            id: model.id,
            code: model.code,
            expiry_date: model.expiry_date,
            issuer: model.issuer,
            uses_left: model.uses_left,
        }
    }
}

} // verus!

verus! {

/// An album is answered with every field of its row: id, name, description,
/// owner, visibility and creation time.
pub proof fn lemma_album_data_keeps_row(album: AlbumRow)
    ensures
        ({
            let a = <AlbumData as vstd::std_specs::convert::FromSpec<AlbumRow>>::from_spec(album);
            &&& a.id == album.id
            &&& a.name == album.name
            &&& a.description == album.description
            &&& a.user_id == album.user_id
            &&& a.public == album.public
            &&& a.created == album.created
        }),
        forall|r: AlbumData| #[trigger] call_ensures(AlbumData::from, (album,), r) ==> {
            &&& r.id == album.id
            &&& r.name == album.name
            &&& r.description == album.description
            &&& r.user_id == album.user_id
            &&& r.public == album.public
            &&& r.created == album.created
        },
{
}

/// A user is answered with the fields of its row: id, username, and the
/// email, verification, registration and role it has.
pub proof fn lemma_user_data_keeps_row(user: UserRow)
    ensures
        forall|r: UserData| #[trigger] call_ensures(UserData::from, (user,), r) ==> {
            &&& r.id == user.id
            &&& r.username == user.username
            &&& r.email == Some(user.email)
            &&& r.verified == Some(user.verified)
            &&& r.registered == Some(user.registered)
            &&& (user.role == Role::Admin <==> r.role == UserRole::Admin)
        },
{
}

/// A file is answered with the fields of its row, and without URLs until the
/// route that answers sets them.
pub proof fn lemma_file_data_keeps_row(file: FileRow)
    ensures
        forall|r: FileData| #[trigger] call_ensures(FileData::from, (file,), r) ==> {
            &&& r.id == file.id
            &&& r.uploader == file.uploader
            &&& r.name == file.name
            &&& r.original_name == file.original_name
            &&& r.hash == file.hash
            &&& r.uploaded == file.uploaded
            &&& r.size == file.size
            &&& r.url is None
            &&& r.thumbnail_url is None
        },
{
}

/// A registration key is answered with every field of its row.
pub proof fn lemma_registration_key_data_keeps_row(model: RegistrationKeyRow)
    ensures
        forall|r: RegistrationKeyData| #[trigger] call_ensures(RegistrationKeyData::from, (model,), r) ==> {
            &&& r.id == model.id
            &&& r.code == model.code
            &&& r.expiry_date == model.expiry_date
            &&& r.issuer == model.issuer
            &&& r.uses_left == model.uses_left
        },
{
}

} // verus!
