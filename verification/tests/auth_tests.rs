use dockrs::auth::seed_admin_account;
use dockrs::auth::{
    admin_seed, check_new_password, generate_password, hash_password, hex_string, login_user, me_response,
    next_password_hash, require_user, UserRow,
};

fn user(password: &str) -> UserRow {
    UserRow { id: 7, username: "admin".to_owned(), password_hash: hash_password(password).unwrap() }
}

#[test]
fn hashes_are_argon2id_phc_strings_that_verify() {
    let h = hash_password("hunter42").unwrap();
    assert!(h.starts_with("$argon2id$"));
    let again = hash_password("hunter42").unwrap();
    assert_ne!(h, again);
    let ok = login_user(Ok(Some(UserRow { id: 1, username: "u".to_owned(), password_hash: h })), "hunter42");
    assert_eq!(ok.unwrap().id, 1);
}

#[test]
fn unknown_users_and_wrong_passwords_are_refused_alike() {
    let unknown = login_user(Ok(None), "whatever").unwrap_err();
    let wrong = login_user(Ok(Some(user("right"))), "wrong").unwrap_err();
    assert_eq!(unknown.status, 401);
    assert_eq!(unknown.status, wrong.status);
    assert_eq!(unknown.msg, "账号或密码错误");
    assert_eq!(unknown.msg, wrong.msg);
    let broken = login_user(
        Ok(Some(UserRow { id: 1, username: "u".to_owned(), password_hash: "not a hash".to_owned() })),
        "x",
    )
    .unwrap_err();
    assert_eq!(broken.msg, "账号或密码错误");
    let down = login_user(Err(()), "x").unwrap_err();
    assert_eq!(down.status, 500);
    assert_eq!(down.msg, "登录失败，请稍后重试");
}

#[test]
fn a_correct_password_signs_in() {
    let r = login_user(Ok(Some(user("s3cret"))), "s3cret").unwrap();
    assert_eq!(r.id, 7);
    assert_eq!(r.username, "admin");
}

#[test]
fn sessions_without_a_user_are_refused() {
    assert_eq!(require_user(Ok(Some(3))).unwrap(), 3);
    let e = require_user(Ok(None)).unwrap_err();
    assert_eq!(e.status, 401);
    assert_eq!(e.msg, "未登录");
    let e = require_user(Err(())).unwrap_err();
    assert_eq!(e.status, 500);
    assert_eq!(e.msg, "认证状态读取失败");
}

#[test]
fn password_changes_check_the_current_password() {
    assert_eq!(check_new_password("").unwrap_err().msg, "新密码不能为空");
    assert!(check_new_password(" ").is_ok());
    let stored = hash_password("old").unwrap();
    let e = next_password_hash(Ok(Some(stored)), "bad", "new").unwrap_err();
    assert_eq!(e.status, 401);
    assert_eq!(e.msg, "当前密码错误");
    let e = next_password_hash(Ok(None), "old", "new").unwrap_err();
    assert_eq!(e.msg, "未登录");
    let e = next_password_hash(Err(()), "old", "new").unwrap_err();
    assert_eq!(e.msg, "修改密码失败，请稍后重试");
}

#[test]
fn a_changed_password_signs_in() {
    let stored = hash_password("old").unwrap();
    let fresh = next_password_hash(Ok(Some(stored)), "old", "new").unwrap();
    let signed_in = login_user(Ok(Some(UserRow { id: 2, username: "u".to_owned(), password_hash: fresh })), "new");
    assert!(signed_in.is_ok());
}

#[test]
fn who_am_i_answers_the_stored_user() {
    let r = me_response(Ok(Some(UserRow { id: 9, username: "ops".to_owned(), password_hash: String::new() }))).unwrap();
    assert_eq!((r.id, r.username.as_str()), (9, "ops"));
    assert_eq!(me_response(Ok(None)).unwrap_err().msg, "未登录");
    assert_eq!(me_response(Err(())).unwrap_err().msg, "获取用户信息失败");
}

#[test]
fn bytes_are_written_in_lower_case_hex() {
    assert_eq!(hex_string(&[0x00, 0x0f, 0xa5, 0xff]), "000fa5ff");
    assert_eq!(hex_string(&[]), "");
    let p = generate_password();
    assert_eq!(p.len(), 18);
    assert!(p.chars().all(|c| c.is_ascii_digit() || ('a'..='f').contains(&c)));
}

#[test]
fn the_first_administrator_is_seeded_once() {
    assert!(admin_seed(1, None, None).is_none());
    let s = admin_seed(0, None, Some("pw".to_owned())).unwrap();
    assert_eq!(s.username, "admin");
    assert_eq!(s.password, "pw");
    assert!(!s.generated);
    let s = admin_seed(0, Some("root".to_owned()), None).unwrap();
    assert_eq!(s.username, "root");
    assert!(s.generated);
    assert_eq!(s.password.len(), 18);
}

#[test]
fn the_first_administrator_gets_a_verifying_hash() {
    assert!(seed_admin_account(3, None, None).is_none());
    let account = seed_admin_account(0, None, Some("pw".to_owned())).unwrap().unwrap();
    assert_eq!(account.seed.username, "admin");
    let signed_in = login_user(
        Ok(Some(UserRow { id: 1, username: account.seed.username.clone(), password_hash: account.password_hash })),
        "pw",
    );
    assert!(signed_in.is_ok());
}
