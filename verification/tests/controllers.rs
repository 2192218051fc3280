use registry::auth::{AuthCheck, Credentials, Forbidden};
use registry::controllers::user::me::{
    confirm_user_email, decimal_chars, me, parse_i32, regenerate_token_and_send,
    update_email_notifications, update_user, CrateEmailNotifications, CrateOwnerRow, UserError,
};
use registry::controllers::util::verify_origin;

// ---------------------------------------------------------------------------
// Who may list their tokens
// ---------------------------------------------------------------------------

/// The answer of the registry to a `GET` of one of the paths that only the
/// signed-in user may read in their browser.
fn get(path: &str, credentials: Credentials) -> Result<i32, Forbidden> {
    assert!(path.starts_with("/api/v1/me"));
    AuthCheck::only_cookie().check(&credentials)
}

#[test]
fn list_logged_out() {
    let anon = Credentials::Anonymous;
    assert_eq!(get("/api/v1/me/tokens", anon), Err(Forbidden));
}

#[test]
fn list_with_api_token_is_forbidden() {
    let token = Credentials::Token { user_id: 1 };
    assert_eq!(get("/api/v1/me/tokens", token), Err(Forbidden));
}

#[test]
fn list_with_cookie_is_allowed() {
    let user = Credentials::Cookie { user_id: 7 };
    assert_eq!(get("/api/v1/me/tokens", user), Ok(7));
}

#[test]
fn default_check_takes_tokens_too() {
    let check = AuthCheck::default();
    assert_eq!(check.check(&Credentials::Token { user_id: 3 }), Ok(3));
    assert_eq!(check.check(&Credentials::Cookie { user_id: 4 }), Ok(4));
    assert_eq!(check.check(&Credentials::Anonymous), Err(Forbidden));
}

// ---------------------------------------------------------------------------
// Origins
// ---------------------------------------------------------------------------

fn bytes(values: &[&str]) -> Vec<Vec<u8>> {
    values.iter().map(|value| value.as_bytes().to_vec()).collect()
}

#[test]
fn requests_without_origin_are_accepted() {
    assert!(verify_origin(&bytes(&[]), &bytes(&["https://crates.io"])).is_ok());
    assert!(verify_origin(&bytes(&[]), &bytes(&[])).is_ok());
}

#[test]
fn allowed_origins_are_accepted() {
    let allowed = bytes(&["https://crates.io", "http://localhost:8888"]);
    assert!(verify_origin(&bytes(&["https://crates.io"]), &allowed).is_ok());
    assert!(verify_origin(&bytes(&["http://localhost:8888", "https://crates.io"]), &allowed).is_ok());
}

#[test]
fn first_foreign_origin_is_refused() {
    let allowed = bytes(&["https://crates.io"]);
    let origins = bytes(&["https://crates.io", "https://evil.example", "https://worse.example"]);
    match verify_origin(&origins, &allowed) {
        Err(bad) => assert_eq!(bad.origin, b"https://evil.example".to_vec()),
        Ok(()) => panic!("accepted"),
    }
    match verify_origin(&bytes(&["https://crates.io/"]), &allowed) {
        Err(bad) => assert_eq!(bad.origin, b"https://crates.io/".to_vec()),
        Ok(()) => panic!("accepted"),
    }
    assert!(verify_origin(&bytes(&["https://crates.io"]), &bytes(&[])).is_err());
}

// ---------------------------------------------------------------------------
// Numbers in paths
// ---------------------------------------------------------------------------

#[test]
fn decimal_chars_prints_as_std_does() {
    for n in [0, 1, 9, 10, 11, 99, 100, 12345, -1, -9, -10, -12345, i32::MAX, i32::MIN, i32::MIN + 1]
    {
        let text: String = decimal_chars(n).iter().collect();
        assert_eq!(text, n.to_string());
    }
    assert_eq!(decimal_chars(-2147483648), "-2147483648".chars().collect::<Vec<char>>());
}

#[test]
fn parse_i32_reads_as_std_does() {
    let texts = [
        "0", "7", "007", "+7", "-7", "-0", "+0", "2147483647", "2147483648", "-2147483648",
        "-2147483649", "99999999999999999999999", "-99999999999999999999999", "", "+", "-", "--1",
        "+-1", "1 ", " 1", "1a", "a", "12_3", "0x10", "1.0", "\u{661}", "00000000000000000000012",
    ];
    for text in texts {
        assert_eq!(parse_i32(text), text.parse::<i32>().ok(), "{:?}", text);
    }
    assert_eq!(parse_i32("-2147483648"), Some(i32::MIN));
    assert_eq!(parse_i32("2147483647"), Some(i32::MAX));
    assert_eq!(parse_i32("2147483648"), None);
}

// ---------------------------------------------------------------------------
// The endpoints
// ---------------------------------------------------------------------------

#[test]
fn me_tells_what_the_store_holds() {
    let answer = me(
        Some("a@example.com".to_string()),
        Some(true),
        false,
        vec![(2, "serde".to_string(), true), (1, "rand".to_string(), false)],
    );
    assert_eq!(answer.email, Some("a@example.com".to_string()));
    assert!(answer.email_verified);
    assert!(answer.email_verification_sent);
    assert_eq!(answer.owned_crates.len(), 2);
    assert_eq!(answer.owned_crates[0].id, 2);
    assert_eq!(answer.owned_crates[0].name, "serde");
    assert!(answer.owned_crates[0].email_notifications);
    assert_eq!(answer.owned_crates[1].id, 1);
    assert_eq!(answer.owned_crates[1].name, "rand");
    assert!(!answer.owned_crates[1].email_notifications);
}

#[test]
fn me_counts_a_verification_as_sent_only_where_it_was() {
    let unverified = me(Some("a@example.com".to_string()), Some(false), true, Vec::new());
    assert!(!unverified.email_verified);
    assert!(unverified.email_verification_sent);
    let untold = me(Some("a@example.com".to_string()), Some(false), false, Vec::new());
    assert!(!untold.email_verified);
    assert!(!untold.email_verification_sent);
    let nothing = me(None, None, false, Vec::new());
    assert_eq!(nothing.email, None);
    assert!(!nothing.email_verified);
    assert!(!nothing.email_verification_sent);
    assert!(nothing.owned_crates.is_empty());
}

#[test]
fn update_user_stores_the_trimmed_address() {
    assert_eq!(
        update_user(42, "42", Some(Some("  a@example.com\n".to_string()))),
        Ok("a@example.com".to_string())
    );
    assert_eq!(
        update_user(-3, "-3", Some(Some("a b@example.com".to_string()))),
        Ok("a b@example.com".to_string())
    );
}

#[test]
fn update_user_turns_down_what_it_must() {
    let address = || Some(Some("a@example.com".to_string()));
    assert_eq!(update_user(42, "43", address()), Err(UserError::UserMismatch));
    assert_eq!(update_user(42, "042", address()), Err(UserError::UserMismatch));
    assert_eq!(update_user(42, "+42", address()), Err(UserError::UserMismatch));
    assert_eq!(update_user(42, "abc", None), Err(UserError::UserMismatch));
    assert_eq!(update_user(42, "42", None), Err(UserError::InvalidJson));
    assert_eq!(update_user(42, "42", Some(None)), Err(UserError::EmptyEmail));
    assert_eq!(update_user(42, "42", Some(Some(String::new()))), Err(UserError::EmptyEmail));
    assert_eq!(
        update_user(42, "42", Some(Some(" \t\u{a0}\n".to_string()))),
        Err(UserError::EmptyEmail)
    );
}

#[test]
fn confirm_user_email_needs_a_row() {
    assert_eq!(confirm_user_email(0), Err(UserError::TokenNotFound));
    assert_eq!(confirm_user_email(1), Ok(()));
    assert_eq!(confirm_user_email(2), Ok(()));
}

#[test]
fn regenerate_token_needs_the_sender_in_the_path() {
    assert_eq!(regenerate_token_and_send(42, "42"), Ok(()));
    assert_eq!(regenerate_token_and_send(42, "042"), Ok(()));
    assert_eq!(regenerate_token_and_send(42, "+42"), Ok(()));
    assert_eq!(regenerate_token_and_send(42, "43"), Err(UserError::UserMismatch));
    assert_eq!(regenerate_token_and_send(42, "-42"), Err(UserError::UserMismatch));
    assert_eq!(regenerate_token_and_send(42, "forty-two"), Err(UserError::InvalidUserId));
    assert_eq!(regenerate_token_and_send(42, ""), Err(UserError::InvalidUserId));
    assert_eq!(regenerate_token_and_send(42, "4294967338"), Err(UserError::InvalidUserId));
}

#[test]
fn error_messages() {
    assert_eq!(UserError::UserMismatch.message(), "current user does not match requested user");
    assert_eq!(UserError::InvalidUserId.message(), "invalid user_id");
    assert_eq!(UserError::InvalidJson.message(), "invalid json request");
    assert_eq!(UserError::EmptyEmail.message(), "empty email rejected");
    assert_eq!(UserError::TokenNotFound.message(), "Email belonging to token not found.");
}

fn row(crate_id: i32, email_notifications: bool) -> CrateOwnerRow {
    CrateOwnerRow { crate_id, owner_id: 9, owner_kind: 0, email_notifications }
}

fn wish(id: i32, email_notifications: bool) -> CrateEmailNotifications {
    CrateEmailNotifications { id, email_notifications }
}

#[test]
fn email_notifications_follow_the_request() {
    let owned = vec![row(1, true), row(2, true), row(3, false)];
    let updates = vec![wish(2, false), wish(3, true), wish(4, true)];
    assert_eq!(
        update_email_notifications(&updates, &owned),
        vec![row(1, true), row(2, false), row(3, true)]
    );
}

#[test]
fn email_notifications_take_the_last_word() {
    let owned = vec![row(1, true)];
    let updates = vec![wish(1, false), wish(1, true), wish(1, false)];
    assert_eq!(update_email_notifications(&updates, &owned), vec![row(1, false)]);
    assert_eq!(update_email_notifications(&Vec::new(), &owned), vec![row(1, true)]);
    assert_eq!(update_email_notifications(&updates, &Vec::new()), Vec::new());
}
