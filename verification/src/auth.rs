//! Sign-in: Argon2id password hashes, the answers to login, password
//! change and "who am I" requests, and the first administrator account.

use argon2::password_hash::rand_core::RngCore;
use argon2::password_hash::{PasswordHasher, PasswordVerifier};
use vstd::prelude::*;
use vstd::utf8::encode_utf8;

use crate::error::{ApiError, STATUS_BAD_REQUEST, STATUS_INTERNAL_SERVER_ERROR, STATUS_UNAUTHORIZED};
use crate::text::push_char;

verus! {

/// The error of the `password-hash` crate.
#[verifier::external_type_specification]
#[verifier::external_body]
pub struct ExPasswordHashError(argon2::password_hash::Error);

/// A login request.
#[derive(Debug)]
pub struct LoginRequest {
    pub username: String,
    pub password: String,
}

/// A password change request.
#[derive(Debug)]
pub struct ChangePasswordRequest {
    pub current_password: String,
    pub new_password: String,
}

/// The signed-in user as answered.
#[derive(Debug)]
pub struct UserResponse {
    pub id: i64,
    pub username: String,
}

/// A stored user.
#[derive(Debug)]
pub struct UserRow {
    pub id: i64,
    pub username: String,
    pub password_hash: String,
}

/// The PHC string that Argon2id with default parameters makes of a
/// password with a B64 salt, or none when the salt or the hashing is refused.
pub uninterp spec fn argon2_phc(password: Seq<char>, salt: Seq<char>) -> Option<Seq<char>>;

/// Whether a PHC string parses and the password matches it under Argon2.
pub uninterp spec fn argon2_verifies(phc: Seq<char>, password: Seq<char>) -> bool;

/// A character of the standard Base64 alphabet.
pub open spec fn b64_char(c: char) -> bool {
    ('A' <= c <= 'Z') || ('a' <= c <= 'z') || ('0' <= c <= '9') || c == '+' || c == '/'
}

/// The canonical unpadded B64 text of sixteen bytes: 22 characters of the
/// standard alphabet, the last of which carries only two bits (so it is
/// `A`, `Q`, `g` or `w`).
pub open spec fn b64_of_sixteen_bytes(s: Seq<char>) -> bool {
    &&& s.len() == 22
    &&& forall|i: int| 0 <= i < 22 ==> b64_char(#[trigger] s[i])
    &&& (s[21] == 'A' || s[21] == 'Q' || s[21] == 'g' || s[21] == 'w')
}

/// A password that Argon2 accepts: at most `u32::MAX` bytes of UTF-8.
pub open spec fn hashable_password(password: Seq<char>) -> bool {
    encode_utf8(password).len() <= 0xFFFF_FFFF
}

/// A fresh random B64 salt (`SaltString::generate` with the operating
/// system's generator): sixteen random bytes in canonical unpadded B64.
/// Which bytes is not promised.
#[verifier::external_body]
fn generate_salt() -> (salt: String)
    ensures
        b64_of_sixteen_bytes(salt@),
{
    argon2::password_hash::SaltString::generate(&mut argon2::password_hash::rand_core::OsRng).as_str().to_owned()
}

/// Hashes `password` with `salt` by `Argon2::default().hash_password` and
/// renders the PHC string. The result is named [`argon2_phc`]. The call
/// succeeds when the salt is the B64 text of sixteen bytes (which
/// `SaltString::from_b64` accepts and which decodes to a long enough salt)
/// and the password is not longer than Argon2 allows, and fails on a
/// longer password; as the crate's documentation shows, a hash made this
/// way verifies the password.
#[verifier::external_body]
fn hash_with_salt(password: &str, salt: &str) -> (r: Result<String, argon2::password_hash::Error>)
    ensures
        match r {
            Ok(h) => argon2_phc(password@, salt@) == Some(h@) && argon2_verifies(h@, password@),
            Err(_) => argon2_phc(password@, salt@) is None,
        },
        b64_of_sixteen_bytes(salt@) && hashable_password(password@) ==> r is Ok,
        !hashable_password(password@) ==> r is Err,
{
    let salt = argon2::password_hash::SaltString::from_b64(salt)?;
    Ok(argon2::Argon2::default().hash_password(password.as_bytes(), &salt)?.to_string())
}

/// Parses the PHC string (`PasswordHash::new`) and checks the password
/// against it (`Argon2::default().verify_password`); false when either
/// fails. The result is named [`argon2_verifies`].
#[verifier::external_body]
fn verify_password(hash: &str, password: &str) -> (r: bool)
    ensures
        r == argon2_verifies(hash@, password@),
{
    match argon2::password_hash::PasswordHash::new(hash) {
        Ok(parsed) => argon2::Argon2::default().verify_password(password.as_bytes(), &parsed).is_ok(),
        Err(_) => false,
    }
}

/// Nine random bytes from the operating system's generator
/// (`OsRng::fill_bytes`). Nothing is promised of their values.
#[verifier::external_body]
fn random_bytes() -> (bytes: [u8; 9]) {
    let mut bytes = [0u8; 9];
    argon2::password_hash::rand_core::OsRng.fill_bytes(&mut bytes);
    bytes
}

/// Hashes a password with a fresh random salt: the PHC string that the
/// B64 text of some sixteen bytes gives, which verifies the password. It
/// succeeds exactly when Argon2 accepts the password's length.
pub fn hash_password(password: &str) -> (r: Result<String, argon2::password_hash::Error>)
    ensures
        r is Ok <==> hashable_password(password@),
        r matches Ok(h) ==> (exists|salt: Seq<char>|
            b64_of_sixteen_bytes(salt) && #[trigger] argon2_phc(password@, salt) == Some(h@)) && argon2_verifies(
            h@,
            password@,
        ),
{
    let salt = generate_salt();
    let r = hash_with_salt(password, salt.as_str());
    proof {
        if r is Ok {
            assert(argon2_phc(password@, salt@) == Some(r->Ok_0@));
        }
    }
    r
}

/// The lower-case hexadecimal digit of `d` (`d < 16`).
pub open spec fn hex_digit(d: u8) -> char {
    (if d < 10 { d + 48 } else { d + 87 }) as u8 as char
}

/// Each byte as two lower-case hexadecimal digits.
pub open spec fn hex_of(bytes: Seq<u8>) -> Seq<char>
    decreases bytes.len(),
{
    if bytes.len() == 0 {
        Seq::empty()
    } else {
        hex_of(bytes.drop_last()) + seq![hex_digit(bytes.last() / 16), hex_digit(bytes.last() % 16)]
    }
}

fn hex_char(d: u8) -> (c: char)
    requires
        d < 16,
    ensures
        c == hex_digit(d),
{
    let v: u8 = if d < 10 { d + 48 } else { d + 87 };
    v as char
}

/// The bytes written in lower-case hexadecimal, two digits per byte.
pub fn hex_string(bytes: &[u8]) -> (r: String)
    ensures
        r@ == hex_of(bytes@),
{
    let mut r = String::new();
    let mut i: usize = 0;
    assert(bytes@.take(0) =~= Seq::<u8>::empty());
    while i < bytes.len()
        invariant
            i <= bytes@.len(),
            r@ == hex_of(bytes@.take(i as int)),
        decreases bytes.len() - i,
    {
        let b = bytes[i];
        assert(bytes@.take(i + 1).drop_last() =~= bytes@.take(i as int));
        assert(bytes@.take(i + 1).last() == b);
        push_char(&mut r, hex_char(b / 16));
        push_char(&mut r, hex_char(b % 16));
        assert(r@ =~= hex_of(bytes@.take(i + 1)));
        i += 1;
    }
    assert(bytes@.take(bytes@.len() as int) =~= bytes@);
    r
}

/// A random initial password: nine random bytes in hexadecimal.
pub fn generate_password() -> (r: String)
    ensures
        exists|b: Seq<u8>| b.len() == 9 && r@ == #[trigger] hex_of(b),
{
    let bytes = random_bytes();
    let r = hex_string(&bytes);
    assert(bytes@.len() == 9);
    r
}

/// The answer to a login, from the stored user looked up by name (`Err`
/// when the lookup failed): an unknown user and a wrong password are
/// answered alike, with 401 "账号或密码错误".
pub fn login_user(lookup: Result<Option<UserRow>, ()>, password: &str) -> (r: Result<UserResponse, ApiError>)
    ensures
        match lookup {
            Err(_) => r matches Err(e) && e.is(STATUS_INTERNAL_SERVER_ERROR, "登录失败，请稍后重试"@),
            Ok(None) => r matches Err(e) && e.is(STATUS_UNAUTHORIZED, "账号或密码错误"@),
            Ok(Some(u)) => if argon2_verifies(u.password_hash@, password@) {
                r matches Ok(resp) && resp.id == u.id && resp.username@ == u.username@
            } else {
                r matches Err(e) && e.is(STATUS_UNAUTHORIZED, "账号或密码错误"@)
            },
        },
{
    match lookup {
        Err(()) => Err(ApiError::internal("登录失败，请稍后重试".to_owned())),
        Ok(None) => {
            // Hash once anyway, so that the answer takes as long as for a known user.
            let _ = hash_password(password);
            Err(ApiError::unauthorized("账号或密码错误".to_owned()))
        },
        Ok(Some(user)) => {
            if !verify_password(user.password_hash.as_str(), password) {
                return Err(ApiError::unauthorized("账号或密码错误".to_owned()));
            }
            Ok(UserResponse { id: user.id, username: user.username })
        },
    }
}

/// The error of a sign-in that could not be recorded in the session.
pub fn login_failed() -> (e: ApiError)
    ensures
        e.is(STATUS_INTERNAL_SERVER_ERROR, "登录失败，请稍后重试"@),
{
    ApiError::internal("登录失败，请稍后重试".to_owned())
}

/// The signed-in user's id from the session (`Err` when the session could
/// not be read).
pub fn require_user(read: Result<Option<i64>, ()>) -> (r: Result<i64, ApiError>)
    ensures
        match read {
            Err(_) => r matches Err(e) && e.is(STATUS_INTERNAL_SERVER_ERROR, "认证状态读取失败"@),
            Ok(None) => r matches Err(e) && e.is(STATUS_UNAUTHORIZED, "未登录"@),
            Ok(Some(id)) => r == Ok::<i64, ApiError>(id),
        },
{
    match read {
        Err(()) => Err(ApiError::internal("认证状态读取失败".to_owned())),
        Ok(None) => Err(ApiError::unauthorized("未登录".to_owned())),
        Ok(Some(id)) => Ok(id),
    }
}

/// A new password must not be empty.
pub fn check_new_password(new_password: &str) -> (r: Result<(), ApiError>)
    ensures
        r is Ok <==> new_password@.len() > 0,
        r matches Err(e) ==> e.is(STATUS_BAD_REQUEST, "新密码不能为空"@),
{
    if crate::text::chars_of(new_password).len() == 0 {
        return Err(ApiError::bad_request("新密码不能为空".to_owned()));
    }
    Ok(())
}

/// The hash to store for a new password, from the user's stored hash
/// (`Err` when the lookup failed): the current password must match it.
/// A hash given back verifies the new password.
pub fn next_password_hash(lookup: Result<Option<String>, ()>, current_password: &str, new_password: &str) -> (r: Result<
    String,
    ApiError,
>)
    ensures
        match lookup {
            Err(_) => r matches Err(e) && e.is(STATUS_INTERNAL_SERVER_ERROR, "修改密码失败，请稍后重试"@),
            Ok(None) => r matches Err(e) && e.is(STATUS_UNAUTHORIZED, "未登录"@),
            Ok(Some(stored)) => if argon2_verifies(stored@, current_password@) {
                if hashable_password(new_password@) {
                    r matches Ok(h) && argon2_verifies(h@, new_password@) && exists|salt: Seq<char>|
                        b64_of_sixteen_bytes(salt) && #[trigger] argon2_phc(new_password@, salt) == Some(h@)
                } else {
                    r matches Err(e) && e.is(STATUS_INTERNAL_SERVER_ERROR, "修改密码失败，请稍后重试"@)
                }
            } else {
                r matches Err(e) && e.is(STATUS_UNAUTHORIZED, "当前密码错误"@)
            },
        },
{
    let stored = match lookup {
        Err(()) => {
            return Err(ApiError::internal("修改密码失败，请稍后重试".to_owned()));
        },
        Ok(None) => {
            return Err(ApiError::unauthorized("未登录".to_owned()));
        },
        Ok(Some(h)) => h,
    };
    if !verify_password(stored.as_str(), current_password) {
        return Err(ApiError::unauthorized("当前密码错误".to_owned()));
    }
    match hash_password(new_password) {
        Ok(h) => Ok(h),
        Err(_) => Err(ApiError::internal("修改密码失败，请稍后重试".to_owned())),
    }
}

/// The error of a password change that could not be stored.
pub fn change_password_failed() -> (e: ApiError)
    ensures
        e.is(STATUS_INTERNAL_SERVER_ERROR, "修改密码失败，请稍后重试"@),
{
    ApiError::internal("修改密码失败，请稍后重试".to_owned())
}

/// The error of a sign-out that could not clear the session.
pub fn logout_failed() -> (e: ApiError)
    ensures
        e.is(STATUS_INTERNAL_SERVER_ERROR, "登出失败，请稍后重试"@),
{
    ApiError::internal("登出失败，请稍后重试".to_owned())
}

/// The answer to "who am I", from the signed-in user's stored row (`Err`
/// when the lookup failed).
pub fn me_response(lookup: Result<Option<UserRow>, ()>) -> (r: Result<UserResponse, ApiError>)
    ensures
        match lookup {
            Err(_) => r matches Err(e) && e.is(STATUS_INTERNAL_SERVER_ERROR, "获取用户信息失败"@),
            Ok(None) => r matches Err(e) && e.is(STATUS_UNAUTHORIZED, "未登录"@),
            Ok(Some(u)) => r matches Ok(resp) && resp.id == u.id && resp.username@ == u.username@,
        },
{
    match lookup {
        Err(()) => Err(ApiError::internal("获取用户信息失败".to_owned())),
        Ok(None) => Err(ApiError::unauthorized("未登录".to_owned())),
        Ok(Some(u)) => Ok(UserResponse { id: u.id, username: u.username }),
    }
}

/// The first administrator to create.
#[derive(Debug)]
pub struct AdminSeed {
    pub username: String,
    pub password: String,
    /// The password was generated here (and is shown once).
    pub generated: bool,
}

/// The first administrator, when no user exists yet: the configured name
/// (`admin` by default) and the configured password, else a generated one.
pub fn admin_seed(user_count: i64, username: Option<String>, password: Option<String>) -> (r: Option<AdminSeed>)
    ensures
        user_count > 0 <==> r is None,
        r matches Some(s) ==> {
            &&& s.username@ == match username {
                Some(u) => u@,
                None => "admin"@,
            }
            &&& match password {
                Some(p) => s.password@ == p@ && !s.generated,
                None => s.generated && exists|b: Seq<u8>| b.len() == 9 && s.password@ == #[trigger] hex_of(b),
            }
        },
{
    if user_count > 0 {
        return None;
    }
    let username = match username {
        Some(u) => u,
        None => "admin".to_owned(),
    };
    let (password, generated) = match password {
        Some(p) => (p, false),
        None => (generate_password(), true),
    };
    Some(AdminSeed { username, password, generated })
}


/// A UTF-8 text is at most four bytes per character.
proof fn lemma_utf8_length(chars: Seq<char>)
    ensures
        encode_utf8(chars).len() <= 4 * chars.len(),
    decreases chars.len(),
{
    if chars.len() > 0 {
        lemma_utf8_length(chars.drop_first());
    }
}

/// Hexadecimal text has two digits per byte.
proof fn lemma_hex_length(bytes: Seq<u8>)
    ensures
        hex_of(bytes).len() == 2 * bytes.len(),
    decreases bytes.len(),
{
    if bytes.len() > 0 {
        lemma_hex_length(bytes.drop_last());
    }
}

/// The first administrator with the hash to store.
#[derive(Debug)]
pub struct AdminAccount {
    pub seed: AdminSeed,
    pub password_hash: String,
}

/// The first administrator to store, when no user exists yet: the
/// account of [`admin_seed`] with its password hashed. Hashing succeeds
/// for a generated password, and for a configured one that Argon2 accepts.
pub fn seed_admin_account(
    user_count: i64,
    username: Option<String>,
    password: Option<String>,
) -> (r: Option<Result<AdminAccount, argon2::password_hash::Error>>)
    ensures
        user_count > 0 <==> r is None,
        r matches Some(Err(_)) ==> password matches Some(p) && !hashable_password(p@),
        r matches Some(Ok(a)) ==> {
            &&& a.seed.username@ == match username {
                Some(u) => u@,
                None => "admin"@,
            }
            &&& match password {
                Some(p) => a.seed.password@ == p@ && !a.seed.generated,
                None => a.seed.generated && exists|b: Seq<u8>| b.len() == 9 && a.seed.password@ == #[trigger] hex_of(b),
            }
            &&& argon2_verifies(a.password_hash@, a.seed.password@)
        },
        user_count <= 0 && (password matches Some(p) ==> hashable_password(p@)) ==> r matches Some(Ok(_)),
{
    let ghost configured = password;
    let seed = match admin_seed(user_count, username, password) {
        Some(s) => s,
        None => {
            return None;
        },
    };
    proof {
        if configured is None {
            let b = choose|b: Seq<u8>| b.len() == 9 && seed.password@ == #[trigger] hex_of(b);
            lemma_hex_length(b);
            lemma_utf8_length(seed.password@);
        }
    }
    match hash_password(seed.password.as_str()) {
        Ok(h) => Some(Ok(AdminAccount { seed, password_hash: h })),
        Err(e) => Some(Err(e)),
    }
}

} // verus!
