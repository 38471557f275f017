use chrono::{DateTime, Utc};
use os_watchdog::auth::{
    api_change_password, api_login, auth_middleware, bearer_token, change_password_at, check_login,
    check_written, decide_access, log_in, login_at, open_path, password_update, renew_session, session_can_start,
    session_end, session_token, user_query, Access, ChangePasswordRequest, LoginRequest,
    UserLookup, UserRecord, Written, SELECT_USER, UPDATE_PASSWORD,
};
use os_watchdog::clock::{TIMESTAMP_MAX, TIMESTAMP_MIN};
use os_watchdog::crypto::{hash_password, verify_password};
use os_watchdog::db::{Db, Param};
use os_watchdog::token::{issue_token, read_token, Claims};

const NOW: i64 = 4_000_000_000;

fn request(password: &str) -> LoginRequest {
    LoginRequest { username: String::from("ann"), password: String::from(password) }
}

fn record(password: &str, must_change_password: bool) -> UserLookup {
    UserLookup::Found(UserRecord { password_hash: hash_password(password), must_change_password })
}

fn claims(must_change_password: bool) -> Claims {
    Claims { sub: String::from("ann"), exp: 4_102_444_800, must_change_password }
}

#[test]
fn a_session_lasts_a_day() {
    assert_eq!(session_end(1_700_000_000), 1_700_086_400);
    let now = DateTime::<Utc>::from_timestamp(1_700_000_000, 0).unwrap();
    let end = now.checked_add_signed(chrono::Duration::hours(24)).unwrap();
    assert_eq!(session_end(1_700_000_000), end.timestamp() as usize);
}

#[test]
fn dates_have_a_first_and_a_last_second() {
    assert_eq!(DateTime::<Utc>::MAX_UTC.timestamp(), TIMESTAMP_MAX);
    assert_eq!(DateTime::<Utc>::MIN_UTC.timestamp(), TIMESTAMP_MIN);
    assert!(session_can_start(TIMESTAMP_MIN));
    assert!(!session_can_start(TIMESTAMP_MIN - 1));
    assert!(session_can_start(TIMESTAMP_MAX - 86_400));
    assert_eq!(session_end(TIMESTAMP_MAX - 86_400), TIMESTAMP_MAX as usize);
    assert!(!session_can_start(TIMESTAMP_MAX - 86_399));
    assert!(!session_can_start(TIMESTAMP_MAX));
    assert!(!session_can_start(TIMESTAMP_MAX + 1));
    assert!(!session_can_start(i64::MAX));
    assert!(!session_can_start(i64::MIN));
}

#[test]
fn a_log_in_hands_out_a_token() {
    let answer = log_in("ann", true, NOW).unwrap();
    assert!(answer.must_change_password);
    let found = read_token(&answer.token).unwrap();
    assert_eq!(found.sub, "ann");
    assert_eq!(found.exp, 4_000_086_400);
    assert!(found.must_change_password);
    assert_eq!(answer.token, session_token("ann", true, NOW).unwrap());
    assert_ne!(answer.token, session_token("ann", false, NOW).unwrap());
}

#[test]
fn a_session_starts_now() {
    let before = Utc::now().timestamp();
    let answer = api_login(&record("pw", true), &request("pw")).unwrap().unwrap();
    let after = Utc::now().timestamp();
    assert!(answer.must_change_password);
    let found = read_token(&answer.token).unwrap();
    assert_eq!(found.sub, "ann");
    assert!(found.must_change_password);
    assert!(found.exp >= (before + 86_400) as usize);
    assert!(found.exp <= (after + 86_400) as usize);
}

#[test]
fn a_log_in_can_be_refused() {
    let e = api_login(&UserLookup::Unavailable, &request("pw")).unwrap().unwrap_err();
    assert_eq!(e.status, 500);
    assert_eq!(e.message, "DB unavailable");
    let e = api_login(&UserLookup::Missing, &request("pw")).unwrap().unwrap_err();
    assert_eq!(e.status, 401);
    assert_eq!(e.message, "Invalid username or password");
    let e = api_login(&record("pw", false), &request("wrong")).unwrap().unwrap_err();
    assert_eq!(e.status, 401);
    assert_eq!(e.message, "Invalid username or password");
    assert_eq!(check_login(&record("pw", true), &request("pw")).unwrap(), true);
    assert_eq!(check_login(&record("pw", false), &request("pw")).unwrap(), false);
}

#[test]
fn a_user_is_looked_up_by_name() {
    let query = user_query("ann");
    assert_eq!(query.sql, SELECT_USER);
    assert_eq!(query.sql, "SELECT password_hash, must_change_password FROM users WHERE username = ?1");
    assert_eq!(query.params.len(), 1);
    assert!(matches!(&query.params[0], Param::Text(name) if name == "ann"));
}

#[test]
fn a_new_password_logs_in() {
    let req = ChangePasswordRequest { new_password: String::from("new") };
    let update = password_update(&claims(true), &req);
    assert_eq!(update.sql, UPDATE_PASSWORD);
    assert!(matches!(&update.params[1], Param::Text(name) if name == "ann"));
    let hash = match &update.params[0] {
        Param::Text(hash) => hash.clone(),
        _ => panic!("no hash"),
    };
    assert!(verify_password(&hash, "new"));
    let found = UserLookup::Found(UserRecord { password_hash: hash, must_change_password: false });
    assert!(api_login(&found, &request("new")).unwrap().is_ok());
    assert!(api_login(&found, &request("old")).unwrap().is_err());
}

#[test]
fn after_a_change_the_token_asks_for_none() {
    let answer = renew_session(&claims(true), NOW).unwrap();
    assert!(answer.success);
    let found = read_token(&answer.token).unwrap();
    assert_eq!(found.sub, "ann");
    assert_eq!(found.exp, 4_000_086_400);
    assert!(!found.must_change_password);
    let answer = api_change_password(&claims(true), Written::Done).unwrap().unwrap();
    assert!(answer.success);
    assert!(!read_token(&answer.token).unwrap().must_change_password);
}

#[test]
fn a_change_can_be_refused() {
    let e = api_change_password(&claims(true), Written::Unavailable).unwrap().unwrap_err();
    assert_eq!((e.status, e.message.as_str()), (500, "DB unavailable"));
    let e = api_change_password(&claims(true), Written::Failed).unwrap().unwrap_err();
    assert_eq!((e.status, e.message.as_str()), (500, "Failed to update password"));
    assert!(check_written(Written::Done, "x").is_ok());
    assert_eq!(check_written(Written::Failed, "x").unwrap_err().message, "x");
}

#[test]
fn open_paths_need_no_token() {
    assert!(open_path("/"));
    assert!(open_path("/api/login"));
    assert!(!open_path("/api/login/"));
    assert!(matches!(auth_middleware("/", None), Access::Open));
    assert!(matches!(auth_middleware("/api/login", Some("Bearer x")), Access::Open));
}

#[test]
fn other_paths_need_a_token() {
    assert!(matches!(auth_middleware("/api/nodes", None), Access::Refused(401)));
    assert!(matches!(auth_middleware("/api/nodes", Some("Bearer x")), Access::Refused(401)));
    let token = issue_token(&claims(false)).unwrap();
    assert!(matches!(auth_middleware("/api/nodes", Some(token.as_str())), Access::Refused(401)));
    let header = format!("bearer {}", token);
    assert!(matches!(auth_middleware("/api/nodes", Some(header.as_str())), Access::Refused(401)));
    let header = format!("Bearer {}", token);
    assert!(matches!(
        auth_middleware("/api/nodes", Some(header.as_str())),
        Access::Granted(c) if c.sub == "ann"
    ));
}

#[test]
fn the_password_is_changed_first() {
    let header = format!("Bearer {}", issue_token(&claims(true)).unwrap());
    assert!(matches!(auth_middleware("/api/nodes", Some(header.as_str())), Access::Refused(403)));
    assert!(matches!(
        auth_middleware("/api/change_password", Some(header.as_str())),
        Access::Granted(c) if c.must_change_password
    ));
    assert!(matches!(decide_access("/api/metrics", Some(claims(true))), Access::Refused(403)));
    assert!(matches!(decide_access("/api/metrics", Some(claims(false))), Access::Granted(_)));
    assert!(matches!(decide_access("/api/metrics", None), Access::Refused(401)));
    assert!(matches!(decide_access("/", None), Access::Open));
}

#[test]
fn the_header_carries_the_token() {
    assert_eq!(bearer_token(Some("Bearer abc")), Some("abc"));
    assert_eq!(bearer_token(Some("Bearer ")), Some(""));
    assert_eq!(bearer_token(Some("Basic abc")), None);
    assert_eq!(bearer_token(None), None);
}

#[test]
fn the_default_admin_logs_in_and_must_change_the_password() {
    let mut db = Db::new();
    db.executed(true);
    db.executed(true);
    db.executed(true);
    db.executed(true);
    db.counted(Some(0));
    let insert = db.statement().unwrap();
    let (hash, must) = match (&insert.params[1], &insert.params[2]) {
        (Param::Text(hash), Param::Flag(must)) => (hash.clone(), *must),
        _ => panic!("no hash"),
    };
    let found = UserLookup::Found(UserRecord { password_hash: hash, must_change_password: must });
    let req = LoginRequest { username: String::from("admin"), password: String::from("admin") };
    let answer = api_login(&found, &req).unwrap().unwrap();
    let header = format!("Bearer {}", answer.token);
    assert!(matches!(auth_middleware("/api/nodes", Some(header.as_str())), Access::Refused(403)));
}

#[test]
fn there_is_no_answer_past_the_last_date() {
    let found = record("pw", true);
    assert!(login_at(&found, &request("pw"), TIMESTAMP_MAX).is_none());
    assert!(login_at(&found, &request("wrong"), TIMESTAMP_MAX).unwrap().is_err());
    let answer = login_at(&found, &request("pw"), NOW).unwrap().unwrap();
    assert!(answer.must_change_password);
    assert_eq!(answer.token, session_token("ann", true, NOW).unwrap());
    assert!(change_password_at(&claims(true), Written::Done, TIMESTAMP_MAX).is_none());
    assert!(change_password_at(&claims(true), Written::Failed, TIMESTAMP_MAX).unwrap().is_err());
    let answer = change_password_at(&claims(true), Written::Done, NOW).unwrap().unwrap();
    assert_eq!(answer.token, session_token("ann", false, NOW).unwrap());
}

#[test]
fn a_log_in_opens_paths() {
    for must_change in [false, true] {
        let answer = log_in("ann", must_change, NOW).unwrap();
        let header = format!("Bearer {}", answer.token);
        let header = Some(header.as_str());
        assert!(matches!(auth_middleware("/", header), Access::Open));
        match auth_middleware("/api/change_password", header) {
            Access::Granted(c) => {
                assert_eq!(c.sub, "ann");
                assert_eq!(c.exp, 4_000_086_400);
                assert_eq!(c.must_change_password, must_change);
            }
            _ => panic!("refused"),
        }
        let other = auth_middleware("/api/metrics", header);
        assert_eq!(matches!(other, Access::Refused(403)), must_change);
        assert_eq!(matches!(other, Access::Granted(_)), !must_change);
    }
}
