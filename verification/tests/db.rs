use os_watchdog::crypto::verify_password;
use os_watchdog::db::{
    Db, Param, Setup, Statement, ADD_SSH_PORT, COUNT_USERS, CREATE_METRICS, CREATE_NODES,
    CREATE_USERS, INSERT_USER,
};

#[test]
fn a_database_is_brought_up_step_by_step() {
    let mut db = Db::new();
    for (sql, ok) in
        [(CREATE_USERS, true), (CREATE_NODES, true), (ADD_SSH_PORT, false), (CREATE_METRICS, true)]
    {
        let statement = db.statement().unwrap();
        assert_eq!(statement.sql, sql);
        assert!(statement.params.is_empty());
        db.executed(ok);
    }
    assert_eq!(db.statement().unwrap().sql, COUNT_USERS);
    db.counted(Some(1));
    assert_eq!(db.setup, Setup::Ready { admin_created: false });
    assert!(db.statement().is_none());
}

#[test]
fn without_users_the_default_one_is_created() {
    let mut db = Db { setup: Setup::Count };
    db.counted(Some(0));
    let statement = db.statement().unwrap();
    assert_eq!(statement.sql, INSERT_USER);
    assert_eq!(statement.params.len(), 3);
    assert!(matches!(&statement.params[0], Param::Text(name) if name == "admin"));
    assert!(matches!(&statement.params[1], Param::Text(hash) if verify_password(hash, "admin")));
    assert!(matches!(&statement.params[2], Param::Flag(true)));
    db.executed(true);
    assert_eq!(db.setup, Setup::Ready { admin_created: true });
}

#[test]
fn a_failed_step_ends_it() {
    for setup in [Setup::Users, Setup::Nodes, Setup::Metrics, Setup::Admin] {
        let mut db = Db { setup };
        db.executed(false);
        assert_eq!(db.setup, Setup::Failed);
        assert!(db.statement().is_none());
    }
    let mut db = Db { setup: Setup::Count };
    db.counted(None);
    assert_eq!(db.setup, Setup::Failed);
}

#[test]
fn metrics_are_pruned_after_six_hours() {
    let statement = Db::prune_metrics();
    assert_eq!(statement.sql, "DELETE FROM metrics WHERE timestamp <= datetime('now', '-6 hours')");
    assert!(statement.params.is_empty());
}

#[test]
fn parameters_keep_their_order() {
    let s = Statement::new("x").bind_text("a").bind_integer(-3).bind_optional(&None).bind_optional(
        &Some(String::from("b")),
    );
    assert_eq!(s.sql, "x");
    assert!(matches!(&s.params[0], Param::Text(t) if t == "a"));
    assert!(matches!(&s.params[1], Param::Integer(-3)));
    assert!(matches!(&s.params[2], Param::Null));
    assert!(matches!(&s.params[3], Param::Text(t) if t == "b"));
}

#[test]
fn the_statements_are_sql() {
    let conn = rusqlite::Connection::open_in_memory().unwrap();
    let mut db = Db::new();
    while db.setup != Setup::Count {
        let ok = conn.execute(&db.statement().unwrap().sql, []).is_ok();
        assert_eq!(ok, db.setup != Setup::SshPort);
        db.executed(ok);
    }
    let count: i32 = conn.query_row(&db.statement().unwrap().sql, [], |row| row.get(0)).unwrap();
    db.counted(Some(count));
    assert_eq!(db.setup, Setup::Admin);
    assert!(conn.execute(&Db::prune_metrics().sql, []).is_ok());
}
