//! The database: statements and their parameters as plain values, and the steps
//! that bring a database up.

use crate::crypto::{accepts, hash_password};
use vstd::prelude::*;
use vstd::string::*;
use vstd::utf8::{is_ascii_chars, is_ascii_chars_encode_utf8};

verus! {

/// A parameter of a statement.
#[derive(Debug, Clone)]
pub enum Param {
    Null,
    Integer(i64),
    Text(String),
    Blob(Vec<u8>),
    Flag(bool),
}

/// A `Param` with its contents as sequences.
pub enum ParamView {
    Null,
    Integer(int),
    Text(Seq<char>),
    Blob(Seq<u8>),
    Flag(bool),
}

impl View for Param {
    type V = ParamView;

    open spec fn view(&self) -> ParamView {
        match self {
            Param::Null => ParamView::Null,
            Param::Integer(n) => ParamView::Integer(*n as int),
            Param::Text(s) => ParamView::Text(s@),
            Param::Blob(b) => ParamView::Blob(b@),
            Param::Flag(b) => ParamView::Flag(*b),
        }
    }
}

/// An SQL statement with the parameters that its placeholders stand for.
#[derive(Debug, Clone)]
pub struct Statement {
    pub sql: String,
    pub params: Vec<Param>,
}

/// The parameters of a statement with their contents as sequences.
pub open spec fn param_views(params: Seq<Param>) -> Seq<ParamView> {
    Seq::new(params.len(), |i: int| params[i]@)
}

/// A text or null.
pub open spec fn optional_text(text: Option<String>) -> ParamView {
    match text {
        Some(s) => ParamView::Text(s@),
        None => ParamView::Null,
    }
}

impl Statement {
    /// The statement has this text and these parameters.
    pub open spec fn reads(self, sql: Seq<char>, params: Seq<ParamView>) -> bool {
        self.sql@ == sql && param_views(self.params@) == params
    }

    /// A statement without parameters.
    pub fn new(sql: &str) -> (r: Statement)
        ensures
            r.reads(sql@, Seq::empty()),
    {
        let r = Statement { sql: sql.to_owned(), params: Vec::new() };
        proof {
            assert(param_views(r.params@) =~= Seq::<ParamView>::empty());
        }
        r
    }

    /// Adds a parameter behind the others.
    pub fn bind(self, param: Param) -> (r: Statement)
        ensures
            r.reads(self.sql@, param_views(self.params@).push(param@)),
    {
        let mut params = self.params;
        let ghost before = params@;
        params.push(param);
        proof {
            assert(param_views(params@) =~= param_views(before).push(param@));
        }
        Statement { sql: self.sql, params }
    }

    /// Adds a text behind the other parameters.
    pub fn bind_text(self, text: &str) -> (r: Statement)
        ensures
            r.reads(self.sql@, param_views(self.params@).push(ParamView::Text(text@))),
    {
        self.bind(Param::Text(text.to_owned()))
    }

    /// Adds a text, or null where there is none, behind the other parameters.
    pub fn bind_optional(self, text: &Option<String>) -> (r: Statement)
        ensures
            r.reads(self.sql@, param_views(self.params@).push(optional_text(*text))),
    {
        match text {
            Some(s) => self.bind(Param::Text(s.clone())),
            None => self.bind(Param::Null),
        }
    }

    /// Adds a number behind the other parameters.
    pub fn bind_integer(self, n: i64) -> (r: Statement)
        ensures
            r.reads(self.sql@, param_views(self.params@).push(ParamView::Integer(n as int))),
    {
        self.bind(Param::Integer(n))
    }
}

pub const CREATE_USERS: &'static str = "CREATE TABLE IF NOT EXISTS users (
                id INTEGER PRIMARY KEY AUTOINCREMENT,
                username TEXT UNIQUE NOT NULL,
                password_hash TEXT NOT NULL,
                must_change_password BOOLEAN NOT NULL DEFAULT 0
            )";

pub const CREATE_NODES: &'static str = "CREATE TABLE IF NOT EXISTS nodes (
                id INTEGER PRIMARY KEY AUTOINCREMENT,
                ip TEXT NOT NULL,
                port INTEGER NOT NULL,
                ssh_port INTEGER NOT NULL DEFAULT 22,
                hostname TEXT,
                group_name TEXT,
                auth_type TEXT NOT NULL,
                auth_data BLOB NOT NULL
            )";

pub const ADD_SSH_PORT: &'static str = "ALTER TABLE nodes ADD COLUMN ssh_port INTEGER NOT NULL DEFAULT 22";

pub const CREATE_METRICS: &'static str = "CREATE TABLE IF NOT EXISTS metrics (
                id INTEGER PRIMARY KEY AUTOINCREMENT,
                node_id INTEGER NOT NULL,
                timestamp DATETIME DEFAULT CURRENT_TIMESTAMP,
                cpu_usage REAL,
                mem_total INTEGER,
                mem_used INTEGER,
                power_w REAL,
                FOREIGN KEY(node_id) REFERENCES nodes(id)
            )";

pub const COUNT_USERS: &'static str = "SELECT COUNT(*) FROM users";

pub const INSERT_USER: &'static str = "INSERT INTO users (username, password_hash, must_change_password) VALUES (?1, ?2, ?3)";

pub const PRUNE_METRICS: &'static str = "DELETE FROM metrics WHERE timestamp <= datetime('now', '-6 hours')";

/// What is said once the default user has been created.
pub const ADMIN_CREATED: &'static str = "Default admin user created. Please login and change password.";

/// How far a database has been brought up.
#[derive(Debug, Clone, Copy, PartialEq, Eq, Structural)]
pub enum Setup {
    /// The table of users is to be created.
    Users,
    /// The table of nodes is to be created.
    Nodes,
    /// A table of nodes from before there was an SSH port is to get one.
    SshPort,
    /// The table of metrics is to be created.
    Metrics,
    /// The users are to be counted.
    Count,
    /// There is no user: the default one is to be created.
    Admin,
    /// The database can be used.
    Ready { admin_created: bool },
    /// A step failed.
    Failed,
}

impl Setup {
    /// The step is a statement whose result is only whether it succeeded.
    pub open spec fn executes(self) -> bool {
        self is Users || self is Nodes || self is SshPort || self is Metrics || self is Admin
    }

    /// What comes after a statement. All but the addition of the SSH port, which
    /// fails where the column is already there, must succeed.
    pub open spec fn after_execute(self, succeeded: bool) -> Setup {
        if self is SshPort {
            Setup::Metrics
        } else if !succeeded {
            Setup::Failed
        } else {
            match self {
                Setup::Users => Setup::Nodes,
                Setup::Nodes => Setup::SshPort,
                Setup::Metrics => Setup::Count,
                Setup::Admin => Setup::Ready { admin_created: true },
                other => other,
            }
        }
    }

    /// What comes after the count of users, which is missing where the query
    /// failed.
    pub open spec fn after_count(count: Option<i32>) -> Setup {
        match count {
            Some(n) => if n == 0 {
                Setup::Admin
            } else {
                Setup::Ready { admin_created: false }
            },
            None => Setup::Failed,
        }
    }
}

/// How the steps of bringing a database up turn out.
pub struct SetupOutcomes {
    pub users: bool,
    pub nodes: bool,
    pub ssh_port: bool,
    pub metrics: bool,
    pub count: Option<i32>,
    pub admin: bool,
}

/// Where the steps end.
pub open spec fn setup_end(outcomes: SetupOutcomes) -> Setup {
    let users = Setup::Users.after_execute(outcomes.users);
    let nodes = if users is Nodes {
        users.after_execute(outcomes.nodes)
    } else {
        users
    };
    let ssh_port = if nodes is SshPort {
        nodes.after_execute(outcomes.ssh_port)
    } else {
        nodes
    };
    let metrics = if ssh_port is Metrics {
        ssh_port.after_execute(outcomes.metrics)
    } else {
        ssh_port
    };
    let count = if metrics is Count {
        Setup::after_count(outcomes.count)
    } else {
        metrics
    };
    if count is Admin {
        count.after_execute(outcomes.admin)
    } else {
        count
    }
}

/// Bringing a database up ends with a usable database exactly if every table
/// could be created and there is a user: one that was there, or the default one,
/// which is created exactly if there was none. Whether the SSH port had to be
/// added makes no difference.
pub proof fn law_ready_database_has_users(outcomes: SetupOutcomes)
    ensures
        setup_end(outcomes) is Ready || setup_end(outcomes) is Failed,
        setup_end(outcomes) is Ready <==> {
            &&& outcomes.users
            &&& outcomes.nodes
            &&& outcomes.metrics
            &&& outcomes.count is Some
            &&& outcomes.count != Some(0i32) || outcomes.admin
        },
        setup_end(outcomes) matches Setup::Ready { admin_created } ==> admin_created == (
        outcomes.count == Some(0i32)),
{
}

/// The statement that creates the default user `admin`, with the password
/// `admin` that is to be changed.
pub open spec fn creates_admin(statement: Statement) -> bool {
    &&& statement.sql@ == INSERT_USER@
    &&& statement.params@.len() == 3
    &&& statement.params@[0]@ == ParamView::Text("admin"@)
    &&& statement.params@[1]@ is Text
    &&& accepts(statement.params@[1]@->Text_0, "admin"@)
    &&& statement.params@[2]@ == ParamView::Flag(true)
}

fn admin_statement() -> (r: Statement)
    ensures
        creates_admin(r),
{
    proof {
        reveal_strlit("admin");
        assert(is_ascii_chars("admin"@));
        is_ascii_chars_encode_utf8("admin"@);
    }
    let hash = hash_password("admin");
    let r = Statement::new(INSERT_USER).bind_text("admin").bind_text(hash.as_str()).bind(
        Param::Flag(true),
    );
    proof {
        assert(param_views(r.params@).len() == r.params@.len());
        assert(param_views(r.params@)[0] == r.params@[0]@);
        assert(param_views(r.params@)[1] == r.params@[1]@);
        assert(param_views(r.params@)[2] == r.params@[2]@);
    }
    r
}

/// A database that is being brought up.
#[derive(Debug, Clone)]
pub struct Db {
    pub setup: Setup,
}

impl Db {
    /// A database of which nothing has been done yet.
    pub fn new() -> (r: Db)
        ensures
            r.setup == Setup::Users,
    {
        Db { setup: Setup::Users }
    }

    /// The statement of the step that comes next, if there is one.
    pub fn statement(&self) -> (r: Option<Statement>)
        ensures
            match self.setup {
                Setup::Users => r matches Some(s) && s.reads(CREATE_USERS@, Seq::empty()),
                Setup::Nodes => r matches Some(s) && s.reads(CREATE_NODES@, Seq::empty()),
                Setup::SshPort => r matches Some(s) && s.reads(ADD_SSH_PORT@, Seq::empty()),
                Setup::Metrics => r matches Some(s) && s.reads(CREATE_METRICS@, Seq::empty()),
                Setup::Count => r matches Some(s) && s.reads(COUNT_USERS@, Seq::empty()),
                Setup::Admin => r matches Some(s) && creates_admin(s),
                Setup::Ready { .. } => r is None,
                Setup::Failed => r is None,
            },
    {
        match self.setup {
            Setup::Users => Some(Statement::new(CREATE_USERS)),
            Setup::Nodes => Some(Statement::new(CREATE_NODES)),
            Setup::SshPort => Some(Statement::new(ADD_SSH_PORT)),
            Setup::Metrics => Some(Statement::new(CREATE_METRICS)),
            Setup::Count => Some(Statement::new(COUNT_USERS)),
            Setup::Admin => Some(admin_statement()),
            Setup::Ready { .. } => None,
            Setup::Failed => None,
        }
    }

    /// Takes note of how the statement of the current step went.
    pub fn executed(&mut self, succeeded: bool)
        requires
            old(self).setup.executes(),
        ensures
            final(self).setup == old(self).setup.after_execute(succeeded),
    {
        self.setup = match self.setup {
            Setup::SshPort => Setup::Metrics,
            Setup::Users if succeeded => Setup::Nodes,
            Setup::Nodes if succeeded => Setup::SshPort,
            Setup::Metrics if succeeded => Setup::Count,
            Setup::Admin if succeeded => Setup::Ready { admin_created: true },
            _ => Setup::Failed,
        };
    }

    /// Takes note of how many users there are, or that counting them failed.
    pub fn counted(&mut self, count: Option<i32>)
        requires
            old(self).setup is Count,
        ensures
            final(self).setup == Setup::after_count(count),
    {
        self.setup = match count {
            Some(n) => if n == 0 {
                Setup::Admin
            } else {
                Setup::Ready { admin_created: false }
            },
            None => Setup::Failed,
        };
    }

    /// The statement that removes metrics of more than six hours ago.
    pub fn prune_metrics() -> (r: Statement)
        ensures
            r.reads(PRUNE_METRICS@, Seq::empty()),
    {
        Statement::new(PRUNE_METRICS)
    }
}

/// The model of a parameter is the parameter, with its contents.
pub proof fn law_param_view(n: i64, text: String, bytes: Vec<u8>, flag: bool)
    ensures
        Param::Null@ == ParamView::Null,
        Param::Integer(n)@ == ParamView::Integer(n as int),
        Param::Text(text)@ == ParamView::Text(text@),
        Param::Blob(bytes)@ == ParamView::Blob(bytes@),
        Param::Flag(flag)@ == ParamView::Flag(flag),
{
}

/// The model of a list of parameters has each of them, in place.
pub proof fn law_param_views(params: Seq<Param>)
    ensures
        param_views(params).len() == params.len(),
        forall|i: int| 0 <= i < params.len() ==> #[trigger] param_views(params)[i] == params[i]@,
{
}

/// A text that is there is bound as it is, the empty one too; null is bound only
/// where there is none.
pub proof fn law_optional_text(text: Option<String>)
    ensures
        text matches Some(s) ==> optional_text(text) == ParamView::Text(s@),
        text is None ==> optional_text(text) == ParamView::Null,
{
}

/// A statement reads as a text with parameters exactly if it has that text and,
/// place by place, those parameters.
pub proof fn law_statement_reads(statement: Statement, sql: Seq<char>, params: Seq<ParamView>)
    ensures
        statement.reads(sql, params) <==> {
            &&& statement.sql@ == sql
            &&& statement.params@.len() == params.len()
            &&& forall|i: int| 0 <= i < params.len() ==> (#[trigger] statement.params@[i])@ == params[i]
        },
{
    if statement.sql@ == sql && statement.params@.len() == params.len() && (forall|i: int|
        0 <= i < params.len() ==> (#[trigger] statement.params@[i])@ == params[i]) {
        assert(param_views(statement.params@) =~= params);
    }
    if statement.reads(sql, params) {
        assert forall|i: int| 0 <= i < params.len() implies (#[trigger] statement.params@[i])@
            == params[i] by {
            assert(param_views(statement.params@)[i] == statement.params@[i]@);
        }
    }
}

/// The steps of bringing a database up come in this order, and a step that fails
/// ends them, but for the addition of the SSH port.
pub proof fn law_order_of_setup(succeeded: bool, count: Option<i32>)
    ensures
        Setup::Users.after_execute(true) == Setup::Nodes,
        Setup::Nodes.after_execute(true) == Setup::SshPort,
        Setup::SshPort.after_execute(succeeded) == Setup::Metrics,
        Setup::Metrics.after_execute(true) == Setup::Count,
        Setup::Admin.after_execute(true) == (Setup::Ready { admin_created: true }),
        Setup::Users.after_execute(false) == Setup::Failed,
        Setup::Nodes.after_execute(false) == Setup::Failed,
        Setup::Metrics.after_execute(false) == Setup::Failed,
        Setup::Admin.after_execute(false) == Setup::Failed,
        Setup::after_count(count) == Setup::Admin <==> count == Some(0i32),
        Setup::after_count(count) == Setup::Failed <==> count is None,
        Setup::after_count(count) == (Setup::Ready { admin_created: false }) <==> count is Some
            && count != Some(0i32),
{
}

/// The first user is called `admin`, has the password `admin` and is to change
/// it.
pub proof fn law_first_user(statement: Statement)
    requires
        creates_admin(statement),
    ensures
        statement.sql@ == INSERT_USER@,
        statement.params@.len() == 3,
        statement.params@[0]@ == ParamView::Text("admin"@),
        statement.params@[1]@ matches ParamView::Text(hash) && accepts(hash, "admin"@),
        statement.params@[2]@ == ParamView::Flag(true),
{
}

/// The statements that bring a database up and keep it small, word by word.
pub proof fn law_setup_statements()
    ensures
        CREATE_USERS@ == "CREATE TABLE IF NOT EXISTS users (
                id INTEGER PRIMARY KEY AUTOINCREMENT,
                username TEXT UNIQUE NOT NULL,
                password_hash TEXT NOT NULL,
                must_change_password BOOLEAN NOT NULL DEFAULT 0
            )"@,
        CREATE_NODES@ == "CREATE TABLE IF NOT EXISTS nodes (
                id INTEGER PRIMARY KEY AUTOINCREMENT,
                ip TEXT NOT NULL,
                port INTEGER NOT NULL,
                ssh_port INTEGER NOT NULL DEFAULT 22,
                hostname TEXT,
                group_name TEXT,
                auth_type TEXT NOT NULL,
                auth_data BLOB NOT NULL
            )"@,
        ADD_SSH_PORT@ == "ALTER TABLE nodes ADD COLUMN ssh_port INTEGER NOT NULL DEFAULT 22"@,
        CREATE_METRICS@ == "CREATE TABLE IF NOT EXISTS metrics (
                id INTEGER PRIMARY KEY AUTOINCREMENT,
                node_id INTEGER NOT NULL,
                timestamp DATETIME DEFAULT CURRENT_TIMESTAMP,
                cpu_usage REAL,
                mem_total INTEGER,
                mem_used INTEGER,
                power_w REAL,
                FOREIGN KEY(node_id) REFERENCES nodes(id)
            )"@,
        COUNT_USERS@ == "SELECT COUNT(*) FROM users"@,
        INSERT_USER@ == "INSERT INTO users (username, password_hash, must_change_password) VALUES (?1, ?2, ?3)"@,
        PRUNE_METRICS@ == "DELETE FROM metrics WHERE timestamp <= datetime('now', '-6 hours')"@,
        ADMIN_CREATED@ == "Default admin user created. Please login and change password."@,
{
}

} // verus!
