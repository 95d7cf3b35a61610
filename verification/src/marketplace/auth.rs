//! Users, roles and their permissions, logins and sessions, and API keys
//! kept as SHA-256 digests. Instants are milliseconds since the Unix epoch
//! (UTC), except in token claims, which count seconds.

use sha2::Digest;
use vstd::prelude::*;
use vstd::string::StringSliceAdditionalSpecFns;
use crate::clock::{new_uuid_string, utc_now_millis};
use crate::keyed::KeyedList;
use crate::text::{concat, opt_chars, owned, replace_all, replaced, str_eq};
use crate::wasm_error::{WasmError, WasmResult};

verus! {

/// `jsonwebtoken::EncodingKey`, held opaquely.
#[verifier::external_type_specification]
#[verifier::external_body]
pub struct ExEncodingKey(jsonwebtoken::EncodingKey);

/// `jsonwebtoken::DecodingKey`, held opaquely.
#[verifier::external_type_specification]
#[verifier::external_body]
pub struct ExDecodingKey(jsonwebtoken::DecodingKey);

/// The HMAC signing key holding the bytes `secret`.
pub uninterp spec fn hmac_encoding_key(secret: Seq<u8>) -> jsonwebtoken::EncodingKey;

/// `jsonwebtoken::EncodingKey::from_secret`: an HMAC signing key holding a
/// copy of `secret`, the same key for the same bytes. The opaque key is
/// named, not described.
#[verifier::external_body]
fn encoding_key_from_secret(secret: &[u8]) -> (k: jsonwebtoken::EncodingKey)
    ensures
        k == hmac_encoding_key(secret@),
{
    jsonwebtoken::EncodingKey::from_secret(secret)
}

/// The HMAC verifying key holding the bytes `secret`.
pub uninterp spec fn hmac_decoding_key(secret: Seq<u8>) -> jsonwebtoken::DecodingKey;

/// `jsonwebtoken::DecodingKey::from_secret`: an HMAC verifying key holding a
/// copy of `secret`, the same key for the same bytes. The opaque key is
/// named, not described.
#[verifier::external_body]
fn decoding_key_from_secret(secret: &[u8]) -> (k: jsonwebtoken::DecodingKey)
    ensures
        k == hmac_decoding_key(secret@),
{
    jsonwebtoken::DecodingKey::from_secret(secret)
}

/// The lowercase hexadecimal SHA-256 digest of `bytes`.
pub uninterp spec fn sha256_hex_of(bytes: Seq<u8>) -> Seq<char>;

/// `sha2::Sha256::digest`, written as lowercase hexadecimal: the digest of
/// `bytes`, 32 bytes, so 64 hexadecimal digits.
#[verifier::external_body]
fn sha256_hex(bytes: &[u8]) -> (h: String)
    ensures
        h@ == sha256_hex_of(bytes@),
        h@.len() == 64,
{
    format!("{:x}", sha2::Sha256::digest(bytes))
}

/// What a user may do in the marketplace.
#[derive(Debug, Clone, Copy, PartialEq, Eq, Hash, Structural)]
pub enum Permission {
    ReadPlugins,
    PublishPlugins,
    UpdatePlugins,
    DeletePlugins,
    ManageUsers,
    ManageSystem,
    ViewStats,
    ManageReviews,
}

/// A user's role.
#[derive(Debug, Clone, Copy, PartialEq, Eq, Structural)]
pub enum UserRole {
    User,
    Developer,
    Admin,
    SuperAdmin,
}

/// Where a user account is.
#[derive(Debug, Clone, Copy, PartialEq, Eq, Structural)]
pub enum AccountStatus {
    Active,
    Suspended,
    Deleted,
    PendingVerification,
}

/// A marketplace user.
#[derive(Debug, Clone)]
pub struct User {
    pub id: String,
    pub username: String,
    pub email: String,
    pub display_name: String,
    pub avatar_url: Option<String>,
    pub role: UserRole,
    pub status: AccountStatus,
    pub created_at: i64,
    pub last_login: Option<i64>,
    pub email_verified: bool,
    pub two_factor_enabled: bool,
}

/// An API key; only the digest of its value is kept.
#[derive(Debug, Clone)]
pub struct ApiKey {
    pub id: String,
    pub name: String,
    pub key_hash: String,
    pub user_id: String,
    pub scopes: Vec<Permission>,
    pub created_at: i64,
    pub expires_at: Option<i64>,
    pub last_used: Option<i64>,
    pub enabled: bool,
}

/// The claims a login token carries; instants in seconds.
#[derive(Debug, Clone)]
pub struct Claims {
    pub sub: String,
    pub username: String,
    pub role: UserRole,
    pub permissions: Vec<Permission>,
    pub iat: i64,
    pub exp: i64,
}

/// A login session.
#[derive(Debug, Clone)]
pub struct Session {
    pub id: String,
    pub user_id: String,
    pub created_at: i64,
    pub expires_at: i64,
    pub ip_address: String,
    pub user_agent: String,
}

/// The permissions of each role.
pub open spec fn role_permissions(role: UserRole) -> Seq<Permission> {
    match role {
        UserRole::User => seq![Permission::ReadPlugins],
        UserRole::Developer => seq![
            Permission::ReadPlugins,
            Permission::PublishPlugins,
            Permission::UpdatePlugins,
            Permission::ViewStats,
        ],
        UserRole::Admin => seq![
            Permission::ReadPlugins,
            Permission::PublishPlugins,
            Permission::UpdatePlugins,
            Permission::DeletePlugins,
            Permission::ManageReviews,
            Permission::ViewStats,
        ],
        UserRole::SuperAdmin => seq![
            Permission::ReadPlugins,
            Permission::PublishPlugins,
            Permission::UpdatePlugins,
            Permission::DeletePlugins,
            Permission::ManageUsers,
            Permission::ManageSystem,
            Permission::ManageReviews,
            Permission::ViewStats,
        ],
    }
}

/// The rank of a role: each role has every permission of the roles below it.
pub open spec fn role_rank(role: UserRole) -> int {
    match role {
        UserRole::User => 0,
        UserRole::Developer => 1,
        UserRole::Admin => 2,
        UserRole::SuperAdmin => 3,
    }
}

/// A higher role has every permission of a lower one.
pub proof fn lemma_roles_nested(lower: UserRole, higher: UserRole, p: Permission)
    requires
        role_rank(lower) <= role_rank(higher),
        role_permissions(lower).contains(p),
    ensures
        role_permissions(higher).contains(p),
{
    let lp = role_permissions(lower);
    let hp = role_permissions(higher);
    let k = choose|k: int| 0 <= k < lp.len() && lp[k] == p;
    match higher {
        UserRole::SuperAdmin => {
            match p {
                Permission::ReadPlugins => assert(hp[0] == p),
                Permission::PublishPlugins => assert(hp[1] == p),
                Permission::UpdatePlugins => assert(hp[2] == p),
                Permission::DeletePlugins => assert(hp[3] == p),
                Permission::ManageUsers => assert(hp[4] == p),
                Permission::ManageSystem => assert(hp[5] == p),
                Permission::ManageReviews => assert(hp[6] == p),
                Permission::ViewStats => assert(hp[7] == p),
            }
        },
        UserRole::Admin => {
            match p {
                Permission::ReadPlugins => assert(hp[0] == p),
                Permission::PublishPlugins => assert(hp[1] == p),
                Permission::UpdatePlugins => assert(hp[2] == p),
                Permission::DeletePlugins => assert(hp[3] == p),
                Permission::ManageReviews => assert(hp[4] == p),
                Permission::ViewStats => assert(hp[5] == p),
                _ => {},
            }
        },
        UserRole::Developer => {
            match p {
                Permission::ReadPlugins => assert(hp[0] == p),
                Permission::PublishPlugins => assert(hp[1] == p),
                Permission::UpdatePlugins => assert(hp[2] == p),
                Permission::ViewStats => assert(hp[3] == p),
                _ => {},
            }
        },
        UserRole::User => {
            assert(hp[0] == p);
        },
    }
}

/// Whether `key` is the form of API key made from the random identifier
/// `uuid`: `df_` then the identifier without its dashes.
pub open spec fn api_key_form(key: Seq<char>, uuid: Seq<char>) -> bool {
    key == "df_"@ + replaced(uuid, "-"@, ""@)
}

/// Seconds in a day.
pub const DAY_SECS: i64 = 86_400i64;

/// Users, API keys and sessions, with the keys that sign login tokens.
pub struct AuthService {
    encoding_key: jsonwebtoken::EncodingKey,
    decoding_key: jsonwebtoken::DecodingKey,
    users: KeyedList<User>,
    api_keys: KeyedList<ApiKey>,
    sessions: KeyedList<Session>,
}

/// A user, with texts as character sequences.
pub struct UserView {
    pub id: Seq<char>,
    pub username: Seq<char>,
    pub email: Seq<char>,
    pub display_name: Seq<char>,
    pub avatar_url: Option<Seq<char>>,
    pub role: UserRole,
    pub status: AccountStatus,
    pub created_at: i64,
    pub last_login: Option<i64>,
    pub email_verified: bool,
    pub two_factor_enabled: bool,
}

impl User {
    /// The user with texts as character sequences.
    pub open spec fn view(self) -> UserView {
        UserView {
            id: self.id@,
            username: self.username@,
            email: self.email@,
            display_name: self.display_name@,
            avatar_url: opt_chars(self.avatar_url),
            role: self.role,
            status: self.status,
            created_at: self.created_at,
            last_login: self.last_login,
            email_verified: self.email_verified,
            two_factor_enabled: self.two_factor_enabled,
        }
    }

    /// A copy of the user.
    pub fn duplicate(&self) -> (r: Self)
        ensures
            r.view() == self.view(),
            r.display_name@ == self.display_name@,
    {
        User {
            id: self.id.clone(),
            username: self.username.clone(),
            email: self.email.clone(),
            display_name: self.display_name.clone(),
            avatar_url: match &self.avatar_url {
                Some(a) => Some(a.clone()),
                None => None,
            },
            role: self.role,
            status: self.status,
            created_at: self.created_at,
            last_login: self.last_login,
            email_verified: self.email_verified,
            two_factor_enabled: self.two_factor_enabled,
        }
    }
}

/// A copy of a list of permissions.
fn copy_permissions(p: &Vec<Permission>) -> (r: Vec<Permission>)
    ensures
        r@ == p@,
{
    let mut r: Vec<Permission> = Vec::new();
    let mut i: usize = 0;
    while i < p.len()
        invariant
            i <= p@.len(),
            r@ == p@.subrange(0, i as int),
        decreases p.len() - i,
    {
        r.push(p[i]);
        i = i + 1;
        assert(r@ =~= p@.subrange(0, i as int));
    }
    assert(p@.subrange(0, i as int) =~= p@);
    r
}

impl AuthService {
    /// The maps keep their keys distinct, and each user is filed under their
    /// own identifier.
    pub closed spec fn wf(self) -> bool {
        &&& self.users.wf()
        &&& self.api_keys.wf()
        &&& self.sessions.wf()
        &&& forall|k: Seq<char>| #[trigger] self.users.map().contains_key(k) ==> self.users.map()[k].id@ == k
    }

    /// The users by identifier.
    pub closed spec fn users(self) -> Map<Seq<char>, UserView> {
        self.users.map().map_values(|u: User| u.view())
    }

    /// The API keys by identifier.
    pub closed spec fn api_keys(self) -> Map<Seq<char>, ApiKey> {
        self.api_keys.map()
    }

    /// The sessions by identifier.
    pub closed spec fn sessions(self) -> Map<Seq<char>, Session> {
        self.sessions.map()
    }

    /// Whether some user has the name `username`.
    pub open spec fn username_taken(self, username: Seq<char>) -> bool {
        exists|k: Seq<char>| #[trigger] self.users().contains_key(k) && self.users()[k].username == username
    }

    /// Whether some user has the address `email`.
    pub open spec fn email_taken(self, email: Seq<char>) -> bool {
        exists|k: Seq<char>| #[trigger] self.users().contains_key(k) && self.users()[k].email == email
    }

    /// A service signing tokens with `jwt_secret`, with no user, key or
    /// session.
    pub fn new(jwt_secret: &str) -> (s: Self)
        ensures
            s.wf(),
            s.spec_encoding_key() == hmac_encoding_key(vstd::utf8::encode_utf8(jwt_secret@)),
            s.spec_decoding_key() == hmac_decoding_key(vstd::utf8::encode_utf8(jwt_secret@)),
            s.users() == Map::<Seq<char>, UserView>::empty(),
            s.api_keys() == Map::<Seq<char>, ApiKey>::empty(),
            s.sessions() == Map::<Seq<char>, Session>::empty(),
    {
        let secret = jwt_secret.as_bytes();
        let s = AuthService {
            encoding_key: encoding_key_from_secret(secret),
            decoding_key: decoding_key_from_secret(secret),
            users: KeyedList::new(),
            api_keys: KeyedList::new(),
            sessions: KeyedList::new(),
        };
        assert(s.users() =~= Map::<Seq<char>, UserView>::empty());
        s
    }

    /// The key login tokens are signed with.
    pub closed spec fn spec_encoding_key(self) -> jsonwebtoken::EncodingKey {
        self.encoding_key
    }

    /// The key login tokens are verified with.
    pub closed spec fn spec_decoding_key(self) -> jsonwebtoken::DecodingKey {
        self.decoding_key
    }

    /// The key login tokens are signed with.
    pub fn encoding_key(&self) -> (k: &jsonwebtoken::EncodingKey)
        ensures
            *k == self.spec_encoding_key(),
    {
        &self.encoding_key
    }

    /// The key login tokens are verified with.
    pub fn decoding_key(&self) -> (k: &jsonwebtoken::DecodingKey)
        ensures
            *k == self.spec_decoding_key(),
    {
        &self.decoding_key
    }

    /// The identifier of the user named `username`, or of the one with
    /// `email` when `by_email`, if any.
    fn find_user(&self, name_or_email: &str, by_email: bool) -> (r: Option<String>)
        requires
            self.wf(),
        ensures
            match r {
                Some(id) => self.users().contains_key(id@) && (if by_email {
                    self.users()[id@].email == name_or_email@
                } else {
                    self.users()[id@].username == name_or_email@
                }),
                None => if by_email {
                    !self.email_taken(name_or_email@)
                } else {
                    !self.username_taken(name_or_email@)
                },
            },
    {
        let n = self.users.entry_count();
        let mut i: usize = 0;
        proof {
            self.users.lemma_model();
        }
        while i < n
            invariant
                self.wf(),
                n == self.users.entries().len(),
                i <= n,
                forall|j: int| 0 <= j < i ==> !user_matches(#[trigger] self.users.entries()[j].1, name_or_email@, by_email),
            decreases n - i,
        {
            let (k, u) = self.users.entry_at(i);
            let hit = if by_email {
                str_eq(u.email.as_str(), name_or_email)
            } else {
                str_eq(u.username.as_str(), name_or_email)
            };
            assert(hit == user_matches(self.users.entries()[i as int].1, name_or_email@, by_email));
            if hit {
                proof {
                    self.users.lemma_model();
                    assert(self.users.map()[self.users.entries()[i as int].0@] == self.users.entries()[i as int].1);
                }
                return Some(k.clone());
            }
            i = i + 1;
        }
        proof {
            self.users.lemma_model();
            if by_email && self.email_taken(name_or_email@) || !by_email && self.username_taken(name_or_email@) {
                let k = choose|k: Seq<char>| #[trigger] self.users().contains_key(k) && (if by_email {
                    self.users()[k].email == name_or_email@
                } else {
                    self.users()[k].username == name_or_email@
                });
                assert(self.users.key_order().contains(k));
                let j = choose|j: int| 0 <= j < self.users.key_order().len() && self.users.key_order()[j] == k;
                assert(self.users.entries()[j].0@ == k);
                assert(self.users.map()[k] == self.users.entries()[j].1);
                assert(user_matches(self.users.entries()[j].1, name_or_email@, by_email));
            }
        }
        None
    }

    /// Registers a user, pending verification, with the basic role: an error
    /// when the name or the address is taken, the name checked first.
    pub fn register_user(&mut self, username: String, email: String, password: String, display_name: String) -> (r: WasmResult<User>)
        requires
            old(self).wf(),
        ensures
            final(self).wf(),
            old(self).username_taken(username@) ==> (r matches Err(WasmError::PluginExecution(m)) && m@ == "用户名已存在"@
                && final(self).users() == old(self).users()),
            !old(self).username_taken(username@) && old(self).email_taken(email@) ==> (r matches Err(
                WasmError::PluginExecution(m),
            ) && m@ == "邮箱已存在"@ && final(self).users() == old(self).users()),
            !old(self).username_taken(username@) && !old(self).email_taken(email@) ==> (r matches Ok(u) && u.username@
                == username@ && u.email@ == email@ && u.display_name@ == display_name@ && u.role == UserRole::User
                && u.status == AccountStatus::PendingVerification && u.last_login is None && !u.email_verified
                && !u.two_factor_enabled && u.avatar_url is None && u.created_at >= 0
                && final(self).users() == old(self).users().insert(u.id@, u.view())),
    {
        if self.find_user(username.as_str(), false).is_some() {
            return Err(WasmError::PluginExecution(String::from_str("用户名已存在")));
        }
        if self.find_user(email.as_str(), true).is_some() {
            return Err(WasmError::PluginExecution(String::from_str("邮箱已存在")));
        }
        let user = User {
            id: new_uuid_string(),
            username,
            email,
            display_name,
            avatar_url: None,
            role: UserRole::User,
            status: AccountStatus::PendingVerification,
            created_at: utc_now_millis(),
            last_login: None,
            email_verified: false,
            two_factor_enabled: false,
        };
        let stored = user.duplicate();
        self.users.insert(user.id.clone(), stored);
        assert(self.users() =~= old(self).users().insert(user.id@, user.view()));
        assert forall|k: Seq<char>| #[trigger] self.users.map().contains_key(k) implies self.users.map()[k].id@ == k by {
            if k != user.id@ {
                assert(old(self).users.map().contains_key(k));
            }
        }
        Ok(user)
    }

    /// The first step of a login: finds the user named `username`, checks
    /// the account is active and stamps the login time. The token is signed
    /// from `claims_for` by the caller, and the session opened with
    /// `open_session`. An error when there is no such user or the account is
    /// not active.
    pub fn begin_login(&mut self, username: &str) -> (r: WasmResult<User>)
        requires
            old(self).wf(),
        ensures
            final(self).wf(),
            !old(self).username_taken(username@) ==> (r matches Err(WasmError::PluginExecution(m)) && m@
                == "用户名或密码错误"@ && final(self).users() == old(self).users()),
            r is Ok ==> (r matches Ok(u) && u.username@ == username@ && u.status == AccountStatus::Active
                && u.last_login is Some && old(self).users().contains_key(u.id@)
                && final(self).users() == old(self).users().insert(u.id@, u.view())),
            r matches Err(WasmError::PluginExecution(m)) && m@ == "账户已被暂停或删除"@ ==> final(self).users()
                == old(self).users(),
    {
        let id = match self.find_user(username, false) {
            None => {
                return Err(WasmError::PluginExecution(String::from_str("用户名或密码错误")));
            },
            Some(id) => id,
        };
        let user = match self.users.remove(id.as_str()) {
            Some(u) => u,
            None => {
                return Err(WasmError::PluginExecution(String::from_str("用户名或密码错误")));
            },
        };
        let mut user = user;
        if user.status != AccountStatus::Active {
            self.users.insert(id, user);
            assert(self.users() =~= old(self).users());
            assert forall|k: Seq<char>| #[trigger] self.users.map().contains_key(k) implies self.users.map()[k].id@ == k by {
                assert(old(self).users.map().contains_key(k));
            }
            return Err(WasmError::PluginExecution(String::from_str("账户已被暂停或删除")));
        }
        user.last_login = Some(utc_now_millis());
        let out = user.duplicate();
        self.users.insert(id, user);
        assert(self.users() =~= old(self).users().insert(out.id@, out.view()));
        assert forall|k: Seq<char>| #[trigger] self.users.map().contains_key(k) implies self.users.map()[k].id@ == k by {
            if k != out.id@ {
                assert(old(self).users.map().contains_key(k));
            }
        }
        Ok(out)
    }

    /// Opens a session of 24 hours for `user_id` from `ip_address` with
    /// `user_agent`, returning its identifier.
    pub fn open_session(&mut self, user_id: &str, ip_address: String, user_agent: String) -> (id: String)
        requires
            old(self).wf(),
        ensures
            final(self).wf(),
            final(self).users() == old(self).users(),
            final(self).sessions().contains_key(id@),
            final(self).sessions()[id@].user_id@ == user_id@,
            final(self).sessions()[id@].expires_at == later_ms(final(self).sessions()[id@].created_at, 86_400_000int),
    {
        let now = utc_now_millis();
        let session = Session {
            id: new_uuid_string(),
            user_id: owned(user_id),
            created_at: now,
            expires_at: if now <= i64::MAX - 24 * 3_600_000 { now + 24 * 3_600_000 } else { i64::MAX },
            ip_address,
            user_agent,
        };
        let id = session.id.clone();
        self.sessions.insert(session.id.clone(), session);
        id
    }

    /// The claims of a token for `user` issued at `now_secs`: the user's
    /// identifier, name, role and its permissions, valid for 24 hours.
    pub fn claims_for(&self, user: &User, now_secs: i64) -> (c: Claims)
        ensures
            c.sub@ == user.id@,
            c.username@ == user.username@,
            c.role == user.role,
            c.permissions@ == role_permissions(user.role),
            c.iat == now_secs,
            c.exp == later_secs(now_secs, DAY_SECS as int),
    {
        Claims {
            sub: user.id.clone(),
            username: user.username.clone(),
            role: user.role,
            permissions: self.get_user_permissions(&user.role),
            iat: now_secs,
            exp: if now_secs <= i64::MAX - DAY_SECS { now_secs + DAY_SECS } else { i64::MAX },
        }
    }

    /// The permissions of `role`.
    pub fn get_user_permissions(&self, role: &UserRole) -> (p: Vec<Permission>)
        ensures
            p@ == role_permissions(*role),
    {
        let p = match role {
            UserRole::User => vec![Permission::ReadPlugins],
            UserRole::Developer => vec![
                Permission::ReadPlugins,
                Permission::PublishPlugins,
                Permission::UpdatePlugins,
                Permission::ViewStats,
            ],
            UserRole::Admin => vec![
                Permission::ReadPlugins,
                Permission::PublishPlugins,
                Permission::UpdatePlugins,
                Permission::DeletePlugins,
                Permission::ManageReviews,
                Permission::ViewStats,
            ],
            UserRole::SuperAdmin => vec![
                Permission::ReadPlugins,
                Permission::PublishPlugins,
                Permission::UpdatePlugins,
                Permission::DeletePlugins,
                Permission::ManageUsers,
                Permission::ManageSystem,
                Permission::ManageReviews,
                Permission::ViewStats,
            ],
        };
        assert(p@ =~= role_permissions(*role));
        p
    }

    /// The digest under which an API key's value is kept.
    pub fn hash_api_key(&self, key: &str) -> (h: String)
        ensures
            h@ == sha256_hex_of(key.spec_bytes()),
    {
        sha256_hex(key.as_bytes())
    }

    /// Creates an enabled API key named `name` for `user_id` with `scopes`,
    /// returning its value, `df_` followed by a random identifier without
    /// dashes, and its record, which keeps only the value's digest.
    pub fn create_api_key(&mut self, user_id: String, name: String, scopes: Vec<Permission>, expires_at: Option<i64>) -> (r: WasmResult<(String, ApiKey)>)
        requires
            old(self).wf(),
        ensures
            final(self).wf(),
            final(self).users() == old(self).users(),
            r matches Ok((value, key)) && (exists|uuid: Seq<char>| api_key_form(value@, uuid)) && key.key_hash@
                == sha256_hex_of(vstd::utf8::encode_utf8(value@)),
            r matches Ok((value, key)) && key.user_id@ == user_id@ && key.name@ == name@ && key.scopes@ == scopes@
                && key.enabled && key.expires_at == expires_at && key.last_used is None
                && final(self).api_keys().contains_key(key.id@),
    {
        let uuid = new_uuid_string();
        let bare = replace_all(uuid.as_str(), "-", "");
        let value = concat("df_", bare.as_str());
        let key_hash = self.hash_api_key(value.as_str());
        let api_key = ApiKey {
            id: new_uuid_string(),
            name,
            key_hash,
            user_id,
            scopes,
            created_at: utc_now_millis(),
            expires_at,
            last_used: None,
            enabled: true,
        };
        let stored = ApiKey {
            id: api_key.id.clone(),
            name: api_key.name.clone(),
            key_hash: api_key.key_hash.clone(),
            user_id: api_key.user_id.clone(),
            scopes: copy_permissions(&api_key.scopes),
            created_at: api_key.created_at,
            expires_at: api_key.expires_at,
            last_used: api_key.last_used,
            enabled: api_key.enabled,
        };
        self.api_keys.insert(api_key.id.clone(), stored);
        assert(api_key_form(value@, uuid@));
        Ok((value, api_key))
    }

    /// The identifier of the enabled key whose digest is `key_hash`, if any.
    fn find_api_key(&self, key_hash: &str) -> (r: Option<String>)
        requires
            self.wf(),
        ensures
            match r {
                Some(id) => self.api_keys().contains_key(id@) && self.api_keys()[id@].key_hash@ == key_hash@
                    && self.api_keys()[id@].enabled,
                None => forall|k: Seq<char>| #[trigger] self.api_keys().contains_key(k) ==> !(self.api_keys()[k].key_hash@
                    == key_hash@ && self.api_keys()[k].enabled),
            },
    {
        let n = self.api_keys.entry_count();
        let mut i: usize = 0;
        proof {
            self.api_keys.lemma_model();
        }
        while i < n
            invariant
                self.wf(),
                n == self.api_keys.entries().len(),
                i <= n,
                forall|j: int| 0 <= j < i ==> !(#[trigger] self.api_keys.entries()[j].1.key_hash@ == key_hash@
                    && self.api_keys.entries()[j].1.enabled),
            decreases n - i,
        {
            let (k, a) = self.api_keys.entry_at(i);
            if str_eq(a.key_hash.as_str(), key_hash) && a.enabled {
                proof {
                    self.api_keys.lemma_model();
                    assert(self.api_keys.map()[self.api_keys.entries()[i as int].0@] == self.api_keys.entries()[i as int].1);
                }
                return Some(k.clone());
            }
            i = i + 1;
        }
        proof {
            self.api_keys.lemma_model();
            assert forall|k: Seq<char>| #[trigger] self.api_keys().contains_key(k) implies !(self.api_keys()[k].key_hash@
                == key_hash@ && self.api_keys()[k].enabled) by {
                assert(self.api_keys.key_order().contains(k));
                let j = choose|j: int| 0 <= j < self.api_keys.key_order().len() && self.api_keys.key_order()[j] == k;
                assert(self.api_keys.entries()[j].0@ == k);
                assert(self.api_keys.map()[k] == self.api_keys.entries()[j].1);
            }
        }
        None
    }

    /// Checks the API key value `key` at `now`: an error when no enabled key
    /// has its digest, when that key has expired, or when its user is
    /// unknown; otherwise the key's use is stamped and its user and scopes
    /// returned.
    pub fn verify_api_key_at(&mut self, key: &str, now: i64) -> (r: WasmResult<(User, Vec<Permission>)>)
        requires
            old(self).wf(),
        ensures
            final(self).wf(),
            final(self).users() == old(self).users(),
            (forall|k: Seq<char>| #[trigger] old(self).api_keys().contains_key(k) ==> !(old(self).api_keys()[k].key_hash@
                == sha256_hex_of(key.spec_bytes()) && old(self).api_keys()[k].enabled)) ==> (r matches Err(
                WasmError::PluginExecution(m),
            ) && m@ == "无效的API密钥"@),
            r matches Ok((u, scopes)) ==> exists|k: Seq<char>| #[trigger] old(self).api_keys().contains_key(k)
                && old(self).api_keys()[k].key_hash@ == sha256_hex_of(key.spec_bytes()) && old(self).api_keys()[k].enabled
                && (old(self).api_keys()[k].expires_at matches Some(e) ==> now <= e) && old(self).users().contains_key(
                old(self).api_keys()[k].user_id@,
            ) && u.view() == old(self).users()[old(self).api_keys()[k].user_id@] && scopes@ == old(self).api_keys()[k].scopes@,
    {
        let key_hash = self.hash_api_key(key);
        let id = match self.find_api_key(key_hash.as_str()) {
            None => {
                return Err(WasmError::PluginExecution(String::from_str("无效的API密钥")));
            },
            Some(id) => id,
        };
        let api_key = match self.api_keys.remove(id.as_str()) {
            Some(a) => a,
            None => {
                return Err(WasmError::PluginExecution(String::from_str("无效的API密钥")));
            },
        };
        let mut api_key = api_key;
        match api_key.expires_at {
            Some(e) => {
                if now > e {
                    self.api_keys.insert(id, api_key);
                    return Err(WasmError::PluginExecution(String::from_str("API密钥已过期")));
                }
            },
            None => {},
        }
        api_key.last_used = Some(now);
        let scopes = copy_permissions(&api_key.scopes);
        let user = match self.users.get(api_key.user_id.as_str()) {
            Some(u) => u.duplicate(),
            None => {
                self.api_keys.insert(id, api_key);
                return Err(WasmError::PluginExecution(String::from_str("用户不存在")));
            },
        };
        proof {
            assert(old(self).api_keys().contains_key(id@));
        }
        self.api_keys.insert(id, api_key);
        Ok((user, scopes))
    }

    /// Checks the API key value `key` at the current time.
    pub fn verify_api_key(&mut self, key: &str) -> (r: WasmResult<(User, Vec<Permission>)>)
        requires
            old(self).wf(),
        ensures
            final(self).wf(),
            final(self).users() == old(self).users(),
            (forall|k: Seq<char>| #[trigger] old(self).api_keys().contains_key(k) ==> !(old(self).api_keys()[k].key_hash@
                == sha256_hex_of(key.spec_bytes()) && old(self).api_keys()[k].enabled)) ==> r is Err,
    {
        let now = utc_now_millis();
        self.verify_api_key_at(key, now)
    }

    /// Whether `required` is among `user_permissions`.
    pub fn check_permission(&self, user_permissions: &[Permission], required: Permission) -> (b: bool)
        ensures
            b == user_permissions@.contains(required),
    {
        let mut i: usize = 0;
        while i < user_permissions.len()
            invariant
                i <= user_permissions@.len(),
                forall|k: int| 0 <= k < i ==> user_permissions@[k] != required,
            decreases user_permissions.len() - i,
        {
            if user_permissions[i] == required {
                assert(user_permissions@[i as int] == required);
                return true;
            }
            i = i + 1;
        }
        false
    }
}

/// Whether `u` has the name, or with `by_email` the address, `s`.
pub open spec fn user_matches(u: User, s: Seq<char>, by_email: bool) -> bool {
    if by_email { u.email@ == s } else { u.username@ == s }
}

/// `t` moved `span` milliseconds later, stopping at the latest instant.
pub open spec fn later_ms(t: i64, span: int) -> i64 {
    if t + span <= i64::MAX { (t + span) as i64 } else { i64::MAX }
}

/// `t` moved `span` seconds later, stopping at the latest instant.
pub open spec fn later_secs(t: i64, span: int) -> i64 {
    if t + span <= i64::MAX { (t + span) as i64 } else { i64::MAX }
}

} // verus!
