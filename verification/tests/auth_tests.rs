use collab_board::auth::password_verdict;
use collab_board::auth::{
    bearer_token, check_password, login_account, session_account, session_user, signup_outcome,
    SignupOutcome,
};
use collab_board::error::{DbFailure, Status};
use collab_board::ident::Oid;
use collab_board::records::{Session, SignupData, User};

fn db_failure(code: Option<i32>) -> DbFailure {
    DbFailure { write_error_code: code, message: "boom".to_string() }
}

fn sample_user(hash: &str) -> User {
    User {
        id: Oid { value: 7 },
        username: "ada".to_string(),
        first_name: "Ada".to_string(),
        last_name: "Lovelace".to_string(),
        profile_picture_url: None,
        email: "ada@example.com".to_string(),
        password_hash: hash.to_string(),
    }
}

#[test]
fn bearer_token_is_read_after_prefix() {
    let t = bearer_token(Some(b"Bearer abc-123")).unwrap();
    assert_eq!(t, "abc-123");
    let empty = bearer_token(Some(b"Bearer ")).unwrap();
    assert_eq!(empty, "");
}

#[test]
fn bearer_token_refusals() {
    for h in [&b"Basic abc"[..], &b"bearer abc"[..], &b"Bearer"[..], &b"Bearer \x01x"[..], &b"Bearer \xc3\xa9"[..]] {
        let e = bearer_token(Some(h)).unwrap_err();
        assert_eq!(e.status, Status::Unauthorized);
        assert_eq!(e.message, "Missing or invalid token");
    }
    let e = bearer_token(None).unwrap_err();
    assert_eq!(e.status, Status::Unauthorized);
}

#[test]
fn bearer_token_keeps_tabs() {
    let t = bearer_token(Some(b"Bearer a\tb")).unwrap();
    assert_eq!(t, "a\tb");
}

#[test]
fn session_lookup_outcomes() {
    let e = session_user(Err(db_failure(None))).unwrap_err();
    assert_eq!((e.status, e.message.as_str()), (Status::Unauthorized, "Session lookup failed"));
    let e = session_user(Ok(None)).unwrap_err();
    assert_eq!((e.status, e.message.as_str()), (Status::Unauthorized, "Session not found"));
    let s = Session { id: Oid { value: 1 }, session_id: "tok".to_string(), user_id: Oid { value: 9 } };
    assert_eq!(session_user(Ok(Some(s))).unwrap(), Oid { value: 9 });
}

#[test]
fn account_lookup_outcomes() {
    let e = session_account(Err(db_failure(None))).unwrap_err();
    assert_eq!((e.status, e.message.as_str()), (Status::InternalServerError, "User lookup failed"));
    let e = session_account(Ok(None)).unwrap_err();
    assert_eq!((e.status, e.message.as_str()), (Status::Unauthorized, "User not found"));
    assert_eq!(session_account(Ok(Some(sample_user("h")))).unwrap().username, "ada");
}

#[test]
fn login_lookup_outcomes() {
    let e = login_account(Err(db_failure(None))).unwrap_err();
    assert_eq!((e.status, e.message.as_str()), (Status::Unauthorized, "Login failed"));
    let e = login_account(Ok(None)).unwrap_err();
    assert_eq!((e.status, e.message.as_str()), (Status::Unauthorized, "Invalid credentials"));
}

#[test]
fn malformed_hash_is_refused() {
    let e = check_password("secret", "not a phc string").unwrap_err();
    assert_eq!((e.status, e.message.as_str()), (Status::Unauthorized, "Hash parse failed"));
}

#[test]
fn registered_password_logs_in_and_others_do_not() {
    let data = SignupData {
        username: "ada".to_string(),
        email: "ada@example.com".to_string(),
        password: "correct horse".to_string(),
        first_name: "Ada".to_string(),
        last_name: "Lovelace".to_string(),
        profile_picture_url: Some("http://pic".to_string()),
    };
    let user = User::register(data).unwrap();
    assert_eq!(user.username, "ada");
    assert_eq!(user.profile_picture_url.as_deref(), Some("http://pic"));
    assert!(user.password_hash.starts_with("$argon2id$"));
    assert_ne!(user.password_hash, "correct horse");
    assert!(check_password("correct horse", &user.password_hash).is_ok());
    let e = check_password("wrong", &user.password_hash).unwrap_err();
    assert_eq!((e.status, e.message.as_str()), (Status::Unauthorized, "Invalid credentials"));
}

#[test]
fn issued_token_authenticates() {
    let s = Session::open(Oid { value: 3 });
    assert_eq!(s.user_id, Oid { value: 3 });
    assert_eq!(s.session_id.len(), 36);
    let header = format!("Bearer {}", s.session_id);
    assert_eq!(bearer_token(Some(header.as_bytes())).unwrap(), s.session_id);
    for (i, c) in s.session_id.chars().enumerate() {
        if i == 8 || i == 13 || i == 18 || i == 23 {
            assert_eq!(c, '-');
        } else {
            assert!(c.is_ascii_digit() || ('a'..='f').contains(&c));
        }
    }
    let chars: Vec<char> = s.session_id.chars().collect();
    assert_eq!(chars[14], '4');
    assert!(['8', '9', 'a', 'b'].contains(&chars[19]));
    let other = Session::open(Oid { value: 3 });
    assert_ne!(other.session_id, s.session_id);
}

#[test]
fn whoami_hides_password_hash() {
    let shown = sample_user("$argon2id$secret").redacted();
    assert_eq!(shown.password_hash, "");
    assert_eq!(shown.email, "ada@example.com");
    assert_eq!(shown.id, Oid { value: 7 });
}

#[test]
fn signup_outcomes() {
    assert_eq!(signup_outcome(&Ok(())), SignupOutcome::Created);
    assert_eq!(signup_outcome(&Err(db_failure(Some(11000)))), SignupOutcome::Conflict);
    assert_eq!(signup_outcome(&Err(db_failure(Some(121)))), SignupOutcome::Failed);
    assert_eq!(signup_outcome(&Err(db_failure(None))), SignupOutcome::Failed);
    assert!(db_failure(Some(11000)).is_duplicate_key_error());
    assert!(!db_failure(None).is_duplicate_key_error());
}

#[test]
fn password_verdicts() {
    let e = password_verdict(false, true).unwrap_err();
    assert_eq!(e.message, "Hash parse failed");
    let e = password_verdict(true, false).unwrap_err();
    assert_eq!((e.status, e.message.as_str()), (Status::Unauthorized, "Invalid credentials"));
    assert!(password_verdict(true, true).is_ok());
}

#[test]
fn signup_account_from_hash() {
    let data = || SignupData {
        username: "u".to_string(),
        email: "e".to_string(),
        password: "p".to_string(),
        first_name: "f".to_string(),
        last_name: "l".to_string(),
        profile_picture_url: None,
    };
    let u = User::from_signup(Oid { value: 5 }, data(), Some("$h".to_string())).unwrap();
    assert_eq!((u.id, u.password_hash.as_str(), u.username.as_str()), (Oid { value: 5 }, "$h", "u"));
    let e = User::from_signup(Oid { value: 5 }, data(), None).unwrap_err();
    assert_eq!((e.status, e.message.as_str()), (Status::InternalServerError, "Hash error"));
}

#[test]
fn whoami_after_signup_and_login_steps() {
    let data = SignupData {
        username: "grace".to_string(),
        email: "grace@example.com".to_string(),
        password: "hopper".to_string(),
        first_name: "Grace".to_string(),
        last_name: "Hopper".to_string(),
        profile_picture_url: None,
    };
    let stored = User::register(data).unwrap();
    let found = login_account(Ok(Some(stored.clone()))).unwrap();
    assert!(check_password("hopper", &found.password_hash).is_ok());
    let session = Session::open(found.id);
    let header = format!("Bearer {}", session.session_id);
    let token = bearer_token(Some(header.as_bytes())).unwrap();
    assert_eq!(token, session.session_id);
    let uid = session_user(Ok(Some(session))).unwrap();
    assert_eq!(uid, stored.id);
    let shown = session_account(Ok(Some(stored))).unwrap().redacted();
    assert_eq!((shown.username.as_str(), shown.email.as_str(), shown.password_hash.as_str()), ("grace", "grace@example.com", ""));
}

#[test]
fn empty_password_registers() {
    let data = SignupData {
        username: "x".to_string(),
        email: "x@example.com".to_string(),
        password: String::new(),
        first_name: String::new(),
        last_name: String::new(),
        profile_picture_url: None,
    };
    let u = User::register(data).unwrap();
    assert!(check_password("", &u.password_hash).is_ok());
}
