//! The machines that are watched: how they are listed, recorded, changed and
//! removed.

use crate::auth::{
    api_error, check_written, refuse, write_refusal, ApiError, ApiErrorView, Written,
    INTERNAL_SERVER_ERROR,
};
use crate::config::NodeConfig;
use crate::crypto::{decrypted, encrypt_data, MasterKey, PLAINTEXT_MAX};
use crate::db::{optional_text, param_views, Param, ParamView, Statement};
use crate::deploy::{DeployRequest, DeployResponse};
use vstd::prelude::*;
use vstd::string::*;
use vstd::utf8::encode_utf8;

verus! {

/// A watched machine, without the secret.
#[derive(Debug, Clone)]
pub struct NodeInfo {
    pub id: i64,
    pub ip: String,
    pub port: u16,
    pub ssh_port: u16,
    pub hostname: Option<String>,
    pub group_name: Option<String>,
    pub auth_type: String,
}

pub const SELECT_NODES: &'static str = "SELECT id, ip, port, ssh_port, hostname, group_name, auth_type FROM nodes";

/// The query for all nodes.
pub fn nodes_query() -> (r: Statement)
    ensures
        r.reads(SELECT_NODES@, Seq::empty()),
{
    Statement::new(SELECT_NODES)
}

/// How the query for all nodes went.
#[derive(Debug, Clone)]
pub enum NodeRows {
    /// There is no database.
    Unavailable,
    /// The query could not be prepared.
    NotPrepared,
    /// The query could not be run.
    NotRun,
    /// The rows; `None` for one that could not be read.
    Rows(Vec<Option<NodeInfo>>),
}

/// The rows that could be read, in order.
pub open spec fn readable(rows: Seq<Option<NodeInfo>>) -> Seq<NodeInfo>
    decreases rows.len(),
{
    if rows.len() == 0 {
        Seq::empty()
    } else {
        match rows.last() {
            Some(node) => readable(rows.drop_last()).push(node),
            None => readable(rows.drop_last()),
        }
    }
}

/// Why listing the nodes is refused, if it is.
pub open spec fn nodes_refusal(found: NodeRows) -> Option<ApiErrorView> {
    match found {
        NodeRows::Unavailable => Some(api_error(INTERNAL_SERVER_ERROR, "DB unavailable"@)),
        NodeRows::NotPrepared => Some(api_error(INTERNAL_SERVER_ERROR, "Query failed"@)),
        NodeRows::NotRun => Some(api_error(INTERNAL_SERVER_ERROR, "Map failed"@)),
        NodeRows::Rows(_) => None,
    }
}

/// Lists the nodes: the rows that could be read, in the order of the query.
pub fn api_nodes(found: NodeRows) -> (r: Result<Vec<NodeInfo>, ApiError>)
    ensures
        r is Err <==> nodes_refusal(found) is Some,
        r matches Err(e) ==> nodes_refusal(found) == Some(e@),
        r matches Ok(nodes) ==> nodes@ == readable(found->Rows_0@),
{
    let rows = match found {
        NodeRows::Unavailable => return Err(refuse(INTERNAL_SERVER_ERROR, "DB unavailable")),
        NodeRows::NotPrepared => return Err(refuse(INTERNAL_SERVER_ERROR, "Query failed")),
        NodeRows::NotRun => return Err(refuse(INTERNAL_SERVER_ERROR, "Map failed")),
        NodeRows::Rows(rows) => rows,
    };
    let ghost all = rows@;
    let mut nodes: Vec<NodeInfo> = Vec::new();
    proof {
        assert(all.take(0) =~= Seq::<Option<NodeInfo>>::empty());
    }
    for row in it: rows
        invariant
            it.seq() == all,
            nodes@ == readable(all.take(it.index() as int)),
    {
        proof {
            let k = it.index() as int;
            assert(all.take(k + 1).drop_last() =~= all.take(k));
            assert(all.take(k + 1).last() == row);
        }
        if let Some(node) = row {
            nodes.push(node);
        }
    }
    proof {
        assert(all.take(all.len() as int) =~= all);
    }
    Ok(nodes)
}

/// The parameter holds the secret, encrypted under the key.
pub open spec fn holds_secret(param: ParamView, key: Seq<u8>, secret: Seq<char>) -> bool {
    param is Blob && decrypted(key, param->Blob_0) == Some(secret)
}

/// A request to change what is known of a node.
#[derive(Debug, Clone)]
pub struct UpdateNodeRequest {
    pub ip: String,
    pub port: u16,
    pub ssh_port: u16,
    pub hostname: Option<String>,
    pub group_name: Option<String>,
    pub auth_type: String,
    pub auth_secret: Option<String>,
}

impl UpdateNodeRequest {
    /// The secret that the request brings; an empty one stands for none.
    pub open spec fn new_secret(self) -> Option<Seq<char>> {
        match self.auth_secret {
            Some(secret) => if secret@.len() > 0 {
                Some(secret@)
            } else {
                None
            },
            None => None,
        }
    }

    /// The parameters for all but the secret.
    pub open spec fn plain_params(self) -> Seq<ParamView> {
        seq![
            ParamView::Text(self.ip@),
            ParamView::Integer(self.port as int),
            ParamView::Integer(self.ssh_port as int),
            optional_text(self.hostname),
            optional_text(self.group_name),
            ParamView::Text(self.auth_type@),
        ]
    }

    /// Whether the request brings a secret.
    pub fn replaces_secret(&self) -> (r: bool)
        ensures
            r == (self.new_secret() is Some),
    {
        match &self.auth_secret {
            Some(secret) => !secret.as_str().is_empty(),
            None => false,
        }
    }
}

pub const UPDATE_NODE_AND_SECRET: &'static str = "UPDATE nodes SET ip = ?1, port = ?2, ssh_port = ?3, hostname = ?4, group_name = ?5, auth_type = ?6, auth_data = ?7 WHERE id = ?8";

pub const UPDATE_NODE: &'static str = "UPDATE nodes SET ip = ?1, port = ?2, ssh_port = ?3, hostname = ?4, group_name = ?5, auth_type = ?6 WHERE id = ?7";

/// The statement that carries out a request to change a node: the stored secret
/// is replaced if the request brings one, and otherwise is left alone.
///
/// The key is needed only where a secret is to be stored.
pub fn node_update(id: i64, req: &UpdateNodeRequest, key: Option<&MasterKey>) -> (r: Statement)
    requires
        req.new_secret() matches Some(secret) ==> {
            &&& key is Some
            &&& key->0.wf()
            &&& encode_utf8(secret).len() <= PLAINTEXT_MAX
        },
    ensures
        match req.new_secret() {
            Some(secret) => {
                let params = param_views(r.params@);
                &&& r.sql@ == UPDATE_NODE_AND_SECRET@
                &&& params.len() == 8
                &&& params.take(6) == req.plain_params()
                &&& holds_secret(params[6], key->0@, secret)
                &&& params[7] == ParamView::Integer(id as int)
            },
            None => r.reads(UPDATE_NODE@, req.plain_params().push(ParamView::Integer(id as int))),
        },
{
    let replaces = req.replaces_secret();
    let head = Statement::new(
        if replaces {
            UPDATE_NODE_AND_SECRET
        } else {
            UPDATE_NODE
        },
    );
    let plain = head.bind_text(req.ip.as_str()).bind_integer(req.port as i64).bind_integer(
        req.ssh_port as i64,
    ).bind_optional(&req.hostname).bind_optional(&req.group_name).bind_text(req.auth_type.as_str());
    proof {
        assert(param_views(plain.params@) =~= req.plain_params());
    }
    if replaces {
        if let (Some(secret), Some(key)) = (&req.auth_secret, key) {
            let blob = encrypt_data(key, secret.as_str());
            let r = plain.bind(Param::Blob(blob)).bind_integer(id);
            proof {
                assert(param_views(r.params@).take(6) =~= req.plain_params());
            }
            return r;
        }
    }
    plain.bind_integer(id)
}

/// Answers a request to change a node, given how the update went.
pub fn api_update_node(outcome: Written) -> (r: Result<(), ApiError>)
    ensures
        r is Err <==> write_refusal(outcome, "Failed to update node"@) is Some,
        r matches Err(e) ==> write_refusal(outcome, "Failed to update node"@) == Some(e@),
{
    check_written(outcome, "Failed to update node")
}

pub const DELETE_NODE_METRICS: &'static str = "DELETE FROM metrics WHERE node_id = ?1";

pub const DELETE_NODE: &'static str = "DELETE FROM nodes WHERE id = ?1";

/// The statements that remove a node: first its metrics, which may fail, then
/// the node itself.
pub fn node_removal(id: i64) -> (r: (Statement, Statement))
    ensures
        r.0.reads(DELETE_NODE_METRICS@, seq![ParamView::Integer(id as int)]),
        r.1.reads(DELETE_NODE@, seq![ParamView::Integer(id as int)]),
{
    let metrics = Statement::new(DELETE_NODE_METRICS).bind_integer(id);
    let node = Statement::new(DELETE_NODE).bind_integer(id);
    proof {
        assert(param_views(metrics.params@) =~= seq![ParamView::Integer(id as int)]);
        assert(param_views(node.params@) =~= seq![ParamView::Integer(id as int)]);
    }
    (metrics, node)
}

/// Answers a request to remove a node, given how removing the node itself went.
pub fn api_delete_node(outcome: Written) -> (r: Result<(), ApiError>)
    ensures
        r is Err <==> write_refusal(outcome, "Failed to delete node"@) is Some,
        r matches Err(e) ==> write_refusal(outcome, "Failed to delete node"@) == Some(e@),
{
    check_written(outcome, "Failed to delete node")
}

/// How a deployed machine is logged in to: with the private key if there is
/// one, else with the password.
pub open spec fn deployed_auth_type(req: DeployRequest) -> Seq<char> {
    if req.private_key is Some {
        "key"@
    } else {
        "password"@
    }
}

/// The secret that goes with it; empty if there is none.
pub open spec fn deployed_secret(req: DeployRequest) -> Seq<char> {
    match (req.private_key, req.password) {
        (Some(key), _) => key@,
        (None, Some(password)) => password@,
        (None, None) => Seq::empty(),
    }
}

pub const INSERT_DEPLOYED_NODE: &'static str = "INSERT INTO nodes (ip, port, ssh_port, hostname, group_name, auth_type, auth_data) VALUES (?1, ?2, ?3, ?4, ?5, ?6, ?7)";

/// The parameters of a deployed machine, without the secret.
pub open spec fn deployed_params(req: DeployRequest) -> Seq<ParamView> {
    seq![
        ParamView::Text(req.ip@),
        ParamView::Integer(req.port as int),
        ParamView::Integer(req.ssh_port as int),
        ParamView::Null,
        optional_text(req.group_name),
        ParamView::Text(deployed_auth_type(req)),
    ]
}

/// Whether a deployment is to be recorded: it succeeded, and there is a database.
pub fn records_deployment(response: &DeployResponse, database: bool) -> (r: bool)
    ensures
        r == (response.success && database),
{
    response.success && database
}

/// The statement that records a machine to which the agent was deployed.
pub fn deployed_node(req: &DeployRequest, key: &MasterKey) -> (r: Statement)
    requires
        key.wf(),
        encode_utf8(deployed_secret(*req)).len() <= PLAINTEXT_MAX,
    ensures
        r.sql@ == INSERT_DEPLOYED_NODE@,
        param_views(r.params@).len() == 7,
        param_views(r.params@).take(6) == deployed_params(*req),
        holds_secret(param_views(r.params@)[6], key@, deployed_secret(*req)),
{
    let auth_type = if req.private_key.is_some() {
        "key"
    } else {
        "password"
    };
    let secret = match (&req.private_key, &req.password) {
        (Some(private_key), _) => private_key.clone(),
        (None, Some(password)) => password.clone(),
        (None, None) => String::new(),
    };
    let blob = encrypt_data(key, secret.as_str());
    let r = Statement::new(INSERT_DEPLOYED_NODE).bind_text(req.ip.as_str()).bind_integer(
        req.port as i64,
    ).bind_integer(req.ssh_port as i64).bind(Param::Null).bind_optional(&req.group_name).bind_text(
        auth_type,
    ).bind(Param::Blob(blob));
    proof {
        assert(param_views(r.params@).take(6) =~= deployed_params(*req));
    }
    r
}

pub const COUNT_NODE: &'static str = "SELECT COUNT(*) FROM nodes WHERE ip = ?1 AND port = ?2";

pub const INSERT_CONFIGURED_NODE: &'static str = "INSERT INTO nodes (ip, port, ssh_port, group_name, auth_type, auth_data) VALUES (?1, ?2, ?3, ?4, ?5, ?6)";

/// The query for how many nodes have the address and port of a configured one.
pub fn node_count_query(node: &NodeConfig) -> (r: Statement)
    ensures
        r.reads(COUNT_NODE@, seq![ParamView::Text(node.ip@), ParamView::Integer(node.port as int)]),
{
    let r = Statement::new(COUNT_NODE).bind_text(node.ip.as_str()).bind_integer(node.port as i64);
    proof {
        assert(param_views(r.params@) =~= seq![
            ParamView::Text(node.ip@),
            ParamView::Integer(node.port as int),
        ]);
    }
    r
}

/// A configured node is added if none with its address and port is there; a
/// failed count counts as none.
pub open spec fn adds_node(count: Option<i64>) -> bool {
    match count {
        Some(n) => n == 0,
        None => true,
    }
}

/// Whether a configured node is to be added.
pub fn is_new_node(count: Option<i64>) -> (r: bool)
    ensures
        r == adds_node(count),
{
    match count {
        Some(n) => n == 0,
        None => true,
    }
}

/// The parameters of a configured node, without the secret.
pub open spec fn configured_params(node: NodeConfig) -> Seq<ParamView> {
    seq![
        ParamView::Text(node.ip@),
        ParamView::Integer(node.port as int),
        ParamView::Integer(node.ssh_port as int),
        optional_text(node.group_name),
        ParamView::Text(node.auth_type@),
    ]
}

/// The statement that adds a configured node.
pub fn configured_node(node: &NodeConfig, key: &MasterKey) -> (r: Statement)
    requires
        key.wf(),
        encode_utf8(node.auth_secret@).len() <= PLAINTEXT_MAX,
    ensures
        r.sql@ == INSERT_CONFIGURED_NODE@,
        param_views(r.params@).len() == 6,
        param_views(r.params@).take(5) == configured_params(*node),
        holds_secret(param_views(r.params@)[5], key@, node.auth_secret@),
{
    let blob = encrypt_data(key, node.auth_secret.as_str());
    let r = Statement::new(INSERT_CONFIGURED_NODE).bind_text(node.ip.as_str()).bind_integer(
        node.port as i64,
    ).bind_integer(node.ssh_port as i64).bind_optional(&node.group_name).bind_text(
        node.auth_type.as_str(),
    ).bind(Param::Blob(blob));
    proof {
        assert(param_views(r.params@).take(5) =~= configured_params(*node));
    }
    r
}

/// The address and port by which nodes are told apart.
pub open spec fn node_key(node: NodeConfig) -> (Seq<char>, u16) {
    (node.ip@, node.port)
}

/// How many rows of a table have the address and port.
pub open spec fn count_of(table: Seq<(Seq<char>, u16)>, key: (Seq<char>, u16)) -> nat
    decreases table.len(),
{
    if table.len() == 0 {
        0
    } else {
        count_of(table.drop_last(), key) + if table.last() == key {
            1nat
        } else {
            0nat
        }
    }
}

/// The table of nodes, by address and port, once the configured nodes have been
/// merged into it one after the other and every count and addition succeeded.
pub open spec fn merged(table: Seq<(Seq<char>, u16)>, nodes: Seq<NodeConfig>) -> Seq<
    (Seq<char>, u16),
>
    decreases nodes.len(),
{
    if nodes.len() == 0 {
        table
    } else {
        let before = merged(table, nodes.drop_last());
        let key = node_key(nodes.last());
        if adds_node(Some(count_of(before, key) as i64)) {
            before.push(key)
        } else {
            before
        }
    }
}

proof fn lemma_count(table: Seq<(Seq<char>, u16)>, key: (Seq<char>, u16))
    ensures
        count_of(table, key) > 0 <==> table.contains(key),
        count_of(table, key) <= table.len(),
    decreases table.len(),
{
    if table.len() > 0 {
        lemma_count(table.drop_last(), key);
        assert(table =~= table.drop_last().push(table.last()));
        if table.contains(key) && table.last() != key {
            let i = choose|i: int| 0 <= i < table.len() && table[i] == key;
            assert(table.drop_last()[i] == key);
        }
        if table.drop_last().contains(key) {
            let i = choose|i: int| 0 <= i < table.drop_last().len() && table.drop_last()[i] == key;
            assert(table[i] == key);
        }
    }
}

/// Merging the configured nodes keeps the nodes that were there, in place.
/// Afterwards every configured node is there, and every node is one that was
/// there or a configured one.
pub proof fn law_merge_adds_configured_nodes(
    table: Seq<(Seq<char>, u16)>,
    nodes: Seq<NodeConfig>,
)
    requires
        table.len() + nodes.len() <= i64::MAX,
    ensures
        table.is_prefix_of(merged(table, nodes)),
        merged(table, nodes).len() <= table.len() + nodes.len(),
        forall|i: int|
            0 <= i < nodes.len() ==> merged(table, nodes).contains(node_key(#[trigger] nodes[i])),
        forall|key: (Seq<char>, u16)| #[trigger]
            merged(table, nodes).contains(key) ==> table.contains(key) || exists|i: int|
                0 <= i < nodes.len() && node_key(#[trigger] nodes[i]) == key,
    decreases nodes.len(),
{
    let after = merged(table, nodes);
    if nodes.len() == 0 {
        assert(table.subrange(0, table.len() as int) =~= table);
    } else {
        let rest = nodes.drop_last();
        law_merge_adds_configured_nodes(table, rest);
        let before = merged(table, rest);
        let key = node_key(nodes.last());
        lemma_count(before, key);
        assert(count_of(before, key) as i64 == count_of(before, key));
        assert(after == before || after == before.push(key));
        assert(after.subrange(0, table.len() as int) =~= before.subrange(0, table.len() as int));
        assert forall|k: (Seq<char>, u16)| #[trigger] before.contains(k) implies after.contains(
            k,
        ) by {
            let i = choose|i: int| 0 <= i < before.len() && before[i] == k;
            assert(after[i] == k);
        }
        assert(after.contains(key)) by {
            if after != before {
                assert(after[before.len() as int] == key);
            }
        }
        assert forall|i: int| 0 <= i < nodes.len() implies after.contains(
            node_key(#[trigger] nodes[i]),
        ) by {
            if i < rest.len() {
                assert(rest[i] == nodes[i]);
            }
        }
        assert forall|k: (Seq<char>, u16)| #[trigger] after.contains(k) implies table.contains(k)
            || exists|i: int| 0 <= i < nodes.len() && node_key(#[trigger] nodes[i]) == k by {
            let j = choose|j: int| 0 <= j < after.len() && after[j] == k;
            if j < before.len() {
                assert(before[j] == k);
                assert(before.contains(k));
                if !table.contains(k) {
                    let i = choose|i: int|
                        0 <= i < rest.len() && node_key(#[trigger] rest[i]) == k;
                    assert(node_key(nodes[i]) == k);
                }
            } else {
                assert(node_key(nodes[nodes.len() - 1]) == k);
            }
        }
    }
}

/// Merging nodes that are all there already adds none: starting again with the
/// same configuration leaves the table as it is.
pub proof fn law_merge_again_adds_nothing(table: Seq<(Seq<char>, u16)>, nodes: Seq<NodeConfig>)
    requires
        table.len() <= i64::MAX,
        forall|i: int| 0 <= i < nodes.len() ==> table.contains(node_key(#[trigger] nodes[i])),
    ensures
        merged(table, nodes) == table,
    decreases nodes.len(),
{
    if nodes.len() > 0 {
        let rest = nodes.drop_last();
        assert forall|i: int| 0 <= i < rest.len() implies table.contains(
            node_key(#[trigger] rest[i]),
        ) by {
            assert(rest[i] == nodes[i]);
        }
        law_merge_again_adds_nothing(table, rest);
        assert(table.contains(node_key(nodes[nodes.len() - 1])));
        lemma_count(table, node_key(nodes.last()));
        assert(count_of(table, node_key(nodes.last())) as i64 == count_of(
            table,
            node_key(nodes.last()),
        ));
    }
}

/// Merging the same configuration a second time changes nothing.
pub proof fn law_merge_is_idempotent(table: Seq<(Seq<char>, u16)>, nodes: Seq<NodeConfig>)
    requires
        table.len() + nodes.len() <= i64::MAX,
    ensures
        merged(merged(table, nodes), nodes) == merged(table, nodes),
{
    law_merge_adds_configured_nodes(table, nodes);
    law_merge_again_adds_nothing(merged(table, nodes), nodes);
}

/// The statements on nodes, word by word: what they read or write, in which
/// column and place, and for which rows.
pub proof fn law_node_statements()
    ensures
        SELECT_NODES@ == "SELECT id, ip, port, ssh_port, hostname, group_name, auth_type FROM nodes"@,
        UPDATE_NODE_AND_SECRET@ == "UPDATE nodes SET ip = ?1, port = ?2, ssh_port = ?3, hostname = ?4, group_name = ?5, auth_type = ?6, auth_data = ?7 WHERE id = ?8"@,
        UPDATE_NODE@ == "UPDATE nodes SET ip = ?1, port = ?2, ssh_port = ?3, hostname = ?4, group_name = ?5, auth_type = ?6 WHERE id = ?7"@,
        DELETE_NODE_METRICS@ == "DELETE FROM metrics WHERE node_id = ?1"@,
        DELETE_NODE@ == "DELETE FROM nodes WHERE id = ?1"@,
        INSERT_DEPLOYED_NODE@ == "INSERT INTO nodes (ip, port, ssh_port, hostname, group_name, auth_type, auth_data) VALUES (?1, ?2, ?3, ?4, ?5, ?6, ?7)"@,
        COUNT_NODE@ == "SELECT COUNT(*) FROM nodes WHERE ip = ?1 AND port = ?2"@,
        INSERT_CONFIGURED_NODE@ == "INSERT INTO nodes (ip, port, ssh_port, group_name, auth_type, auth_data) VALUES (?1, ?2, ?3, ?4, ?5, ?6)"@,
{
}

/// Rows that are listed one after the other give their nodes one after the
/// other; a row that could be read gives its node, and one that could not gives
/// none.
pub proof fn law_readable_rows_are_listed(
    first: Seq<Option<NodeInfo>>,
    rest: Seq<Option<NodeInfo>>,
    node: NodeInfo,
)
    ensures
        readable(first + rest) == readable(first) + readable(rest),
        readable(seq![Some(node)]) == seq![node],
        readable(seq![None::<NodeInfo>]).len() == 0,
        readable(Seq::<Option<NodeInfo>>::empty()).len() == 0,
    decreases rest.len(),
{
    reveal_with_fuel(readable, 2);
    let none = Seq::<Option<NodeInfo>>::empty();
    assert(seq![Some(node)].drop_last() =~= none);
    assert(seq![None::<NodeInfo>].drop_last() =~= none);
    assert(readable(seq![Some(node)]) =~= seq![node]);
    if rest.len() == 0 {
        assert(first + rest =~= first);
        assert(readable(first) + readable(rest) =~= readable(first));
    } else {
        law_readable_rows_are_listed(first, rest.drop_last(), node);
        assert((first + rest).drop_last() =~= first + rest.drop_last());
        assert((first + rest).last() == rest.last());
        assert(readable(first + rest) =~= readable(first) + readable(rest));
    }
}

/// Nodes are listed exactly if the query could be run; otherwise the answer is
/// 500 and says at which step it failed.
pub proof fn law_listing_needs_rows(found: NodeRows)
    ensures
        nodes_refusal(found) is None <==> found is Rows,
        nodes_refusal(found) matches Some(e) ==> e.status == 500,
        found is Unavailable ==> (nodes_refusal(found) matches Some(e) && e.message
            == "DB unavailable"@),
        found is NotPrepared ==> (nodes_refusal(found) matches Some(e) && e.message
            == "Query failed"@),
        found is NotRun ==> (nodes_refusal(found) matches Some(e) && e.message == "Map failed"@),
{
}

/// A request brings a secret exactly if it holds one that is not empty, and
/// brings that one.
pub proof fn law_new_secret(req: UpdateNodeRequest, secret: Seq<char>)
    ensures
        req.new_secret() == Some(secret) <==> (req.auth_secret matches Some(s) && s@ == secret
            && secret.len() > 0),
{
}

/// A parameter holds a secret exactly if it is bytes that decrypt to the secret.
pub proof fn law_secret_is_stored_encrypted(param: ParamView, key: Seq<u8>, secret: Seq<char>)
    ensures
        holds_secret(param, key, secret) <==> (param matches ParamView::Blob(bytes) && decrypted(
            key,
            bytes,
        ) == Some(secret)),
{
}

/// The parameters of an update are the fields of the request: address, port, SSH
/// port, host name, group and kind of log-in, in the order of the columns, with
/// null for a host name or a group exactly where the request brings none.
pub proof fn law_update_binds_each_field(req: UpdateNodeRequest)
    ensures
        ({
            let params = req.plain_params();
            &&& params.len() == 6
            &&& params[0] == ParamView::Text(req.ip@)
            &&& params[1] == ParamView::Integer(req.port as int)
            &&& params[2] == ParamView::Integer(req.ssh_port as int)
            &&& req.hostname matches Some(name) ==> params[3] == ParamView::Text(name@)
            &&& req.hostname is None ==> params[3] == ParamView::Null
            &&& req.group_name matches Some(group) ==> params[4] == ParamView::Text(group@)
            &&& req.group_name is None ==> params[4] == ParamView::Null
            &&& params[5] == ParamView::Text(req.auth_type@)
        }),
{
}

/// Two optional texts are the same: both are missing, or both are there with the
/// same characters.
pub open spec fn same_optional(a: Option<String>, b: Option<String>) -> bool {
    match (a, b) {
        (Some(x), Some(y)) => x@ == y@,
        (None, None) => true,
        _ => false,
    }
}

/// Two updates bind the same parameters exactly if all the fields of the requests
/// agree.
pub proof fn law_updates_tell_requests_apart(a: UpdateNodeRequest, b: UpdateNodeRequest)
    ensures
        a.plain_params() == b.plain_params() <==> {
            &&& a.ip@ == b.ip@
            &&& a.port == b.port
            &&& a.ssh_port == b.ssh_port
            &&& same_optional(a.hostname, b.hostname)
            &&& same_optional(a.group_name, b.group_name)
            &&& a.auth_type@ == b.auth_type@
        },
{
    let x = a.plain_params();
    let y = b.plain_params();
    law_update_binds_each_field(a);
    law_update_binds_each_field(b);
    if x == y {
        assert(x[0] == y[0] && x[1] == y[1] && x[2] == y[2]);
        assert(x[3] == y[3] && x[4] == y[4] && x[5] == y[5]);
    }
    if a.ip@ == b.ip@ && a.port == b.port && a.ssh_port == b.ssh_port && same_optional(
        a.hostname,
        b.hostname,
    ) && same_optional(a.group_name, b.group_name) && a.auth_type@ == b.auth_type@ {
        assert(x =~= y);
    }
}

/// The parameters of a deployed machine are the fields of the request, in the
/// order of the columns, with no host name.
pub proof fn law_deployed_machine_binds_each_field(req: DeployRequest)
    ensures
        ({
            let params = deployed_params(req);
            &&& params.len() == 6
            &&& params[0] == ParamView::Text(req.ip@)
            &&& params[1] == ParamView::Integer(req.port as int)
            &&& params[2] == ParamView::Integer(req.ssh_port as int)
            &&& params[3] == ParamView::Null
            &&& req.group_name matches Some(group) ==> params[4] == ParamView::Text(group@)
            &&& req.group_name is None ==> params[4] == ParamView::Null
            &&& req.private_key is Some ==> params[5] == ParamView::Text("key"@)
            &&& req.private_key is None ==> params[5] == ParamView::Text("password"@)
        }),
{
}

/// The secret of a deployed machine is its private key if the request brings one,
/// else its password, else empty.
pub proof fn law_deployed_secret(req: DeployRequest)
    ensures
        req.private_key matches Some(key) ==> deployed_secret(req) == key@,
        req.private_key is None ==> (req.password matches Some(password) ==> deployed_secret(req)
            == password@),
        req.private_key is None && req.password is None ==> deployed_secret(req).len() == 0,
{
}

/// The parameters of a configured node are its fields, in the order of the
/// columns.
pub proof fn law_configured_node_binds_each_field(node: NodeConfig)
    ensures
        ({
            let params = configured_params(node);
            &&& params.len() == 5
            &&& params[0] == ParamView::Text(node.ip@)
            &&& params[1] == ParamView::Integer(node.port as int)
            &&& params[2] == ParamView::Integer(node.ssh_port as int)
            &&& node.group_name matches Some(group) ==> params[3] == ParamView::Text(group@)
            &&& node.group_name is None ==> params[3] == ParamView::Null
            &&& params[4] == ParamView::Text(node.auth_type@)
        }),
{
}

/// A configured node is added unless one with its address and port was counted.
pub proof fn law_counted_nodes_are_not_added(count: Option<i64>)
    ensures
        adds_node(count) <==> count is None || count == Some(0i64),
{
}

} // verus!
