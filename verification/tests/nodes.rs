use os_watchdog::auth::Written;
use os_watchdog::config::NodeConfig;
use os_watchdog::crypto::{decrypt_data, get_master_key, MasterKey};
use os_watchdog::db::{Param, Statement};
use os_watchdog::deploy::{DeployRequest, DeployResponse};
use os_watchdog::nodes::{
    api_delete_node, api_nodes, api_update_node, configured_node, deployed_node, is_new_node,
    node_count_query, node_removal, node_update, nodes_query, records_deployment, NodeInfo,
    NodeRows, UpdateNodeRequest, COUNT_NODE, DELETE_NODE, DELETE_NODE_METRICS,
    INSERT_CONFIGURED_NODE, INSERT_DEPLOYED_NODE, SELECT_NODES, UPDATE_NODE,
    UPDATE_NODE_AND_SECRET,
};

fn node(id: i64) -> NodeInfo {
    NodeInfo {
        id,
        ip: String::from("10.0.0.1"),
        port: 1,
        ssh_port: 22,
        hostname: None,
        group_name: None,
        auth_type: String::from("key"),
    }
}

fn update(secret: Option<&str>) -> UpdateNodeRequest {
    UpdateNodeRequest {
        ip: String::from("10.0.0.9"),
        port: 3000,
        ssh_port: 2222,
        hostname: Some(String::from("web")),
        group_name: None,
        auth_type: String::from("password"),
        auth_secret: secret.map(String::from),
    }
}

fn deployment(password: Option<&str>, private_key: Option<&str>) -> DeployRequest {
    DeployRequest {
        ip: String::from("10.0.0.5"),
        port: 3000,
        ssh_port: 22,
        group_name: Some(String::from("db")),
        password: password.map(String::from),
        private_key: private_key.map(String::from),
    }
}

fn blob(statement: &Statement, key: &MasterKey, at: usize) -> Option<String> {
    match &statement.params[at] {
        Param::Blob(data) => decrypt_data(key, data),
        _ => None,
    }
}

fn text(statement: &Statement, at: usize) -> &str {
    match &statement.params[at] {
        Param::Text(text) => text,
        _ => panic!("no text"),
    }
}

#[test]
fn lists_the_rows_that_could_be_read() {
    assert_eq!(nodes_query().sql, SELECT_NODES);
    let found = api_nodes(NodeRows::Rows(vec![Some(node(1)), None, Some(node(3))])).unwrap();
    assert_eq!(found.len(), 2);
    assert_eq!(found[0].id, 1);
    assert_eq!(found[1].id, 3);
}

#[test]
fn listing_can_be_refused() {
    let e = api_nodes(NodeRows::Unavailable).unwrap_err();
    assert_eq!((e.status, e.message.as_str()), (500, "DB unavailable"));
    let e = api_nodes(NodeRows::NotPrepared).unwrap_err();
    assert_eq!((e.status, e.message.as_str()), (500, "Query failed"));
    let e = api_nodes(NodeRows::NotRun).unwrap_err();
    assert_eq!((e.status, e.message.as_str()), (500, "Map failed"));
}

#[test]
fn an_update_can_replace_the_secret() {
    let key = get_master_key(None).key;
    let req = update(Some("s3cret"));
    assert!(req.replaces_secret());
    let s = node_update(7, &req, Some(&key));
    assert_eq!(s.sql, UPDATE_NODE_AND_SECRET);
    assert_eq!(s.params.len(), 8);
    assert_eq!(text(&s, 0), "10.0.0.9");
    assert!(matches!(&s.params[1], Param::Integer(3000)));
    assert!(matches!(&s.params[2], Param::Integer(2222)));
    assert_eq!(text(&s, 3), "web");
    assert!(matches!(&s.params[4], Param::Null));
    assert_eq!(text(&s, 5), "password");
    assert_eq!(blob(&s, &key, 6), Some(String::from("s3cret")));
    assert!(matches!(&s.params[7], Param::Integer(7)));
}

#[test]
fn an_update_without_a_secret_leaves_it_alone() {
    for secret in [None, Some("")] {
        let req = update(secret);
        assert!(!req.replaces_secret());
        let s = node_update(7, &req, None);
        assert_eq!(s.sql, UPDATE_NODE);
        assert_eq!(s.params.len(), 7);
        assert!(matches!(&s.params[6], Param::Integer(7)));
    }
}

#[test]
fn changes_and_removals_are_answered() {
    assert!(api_update_node(Written::Done).is_ok());
    let e = api_update_node(Written::Failed).unwrap_err();
    assert_eq!((e.status, e.message.as_str()), (500, "Failed to update node"));
    assert_eq!(api_update_node(Written::Unavailable).unwrap_err().message, "DB unavailable");
    assert!(api_delete_node(Written::Done).is_ok());
    let e = api_delete_node(Written::Failed).unwrap_err();
    assert_eq!((e.status, e.message.as_str()), (500, "Failed to delete node"));
    assert_eq!(api_delete_node(Written::Unavailable).unwrap_err().message, "DB unavailable");
}

#[test]
fn a_removal_takes_the_metrics_first() {
    let (metrics, node) = node_removal(4);
    assert_eq!(metrics.sql, DELETE_NODE_METRICS);
    assert_eq!(node.sql, DELETE_NODE);
    assert!(matches!(&metrics.params[0], Param::Integer(4)));
    assert!(matches!(&node.params[0], Param::Integer(4)));
}

#[test]
fn a_deployment_is_recorded_with_its_credentials() {
    let key = get_master_key(None).key;
    let s = deployed_node(&deployment(Some("pw"), None), &key);
    assert_eq!(s.sql, INSERT_DEPLOYED_NODE);
    assert_eq!(s.params.len(), 7);
    assert_eq!(text(&s, 0), "10.0.0.5");
    assert!(matches!(&s.params[3], Param::Null));
    assert_eq!(text(&s, 4), "db");
    assert_eq!(text(&s, 5), "password");
    assert_eq!(blob(&s, &key, 6), Some(String::from("pw")));
    let s = deployed_node(&deployment(Some("pw"), Some("KEY")), &key);
    assert_eq!(text(&s, 5), "key");
    assert_eq!(blob(&s, &key, 6), Some(String::from("KEY")));
    let s = deployed_node(&deployment(None, None), &key);
    assert_eq!(text(&s, 5), "password");
    assert_eq!(blob(&s, &key, 6), Some(String::new()));
}

#[test]
fn only_a_success_is_recorded() {
    let answer = |success: bool| DeployResponse { success, message: String::new() };
    assert!(records_deployment(&answer(true), true));
    assert!(!records_deployment(&answer(true), false));
    assert!(!records_deployment(&answer(false), true));
}

#[test]
fn configured_nodes_are_added_once() {
    let key = get_master_key(None).key;
    let node = NodeConfig {
        ip: String::from("10.0.0.7"),
        port: 30308,
        ssh_port: 22,
        group_name: None,
        auth_type: String::from("password"),
        auth_secret: String::from("pw"),
    };
    let count = node_count_query(&node);
    assert_eq!(count.sql, COUNT_NODE);
    assert_eq!(text(&count, 0), "10.0.0.7");
    assert!(matches!(&count.params[1], Param::Integer(30308)));
    assert!(is_new_node(Some(0)));
    assert!(is_new_node(None));
    assert!(!is_new_node(Some(2)));
    let s = configured_node(&node, &key);
    assert_eq!(s.sql, INSERT_CONFIGURED_NODE);
    assert_eq!(s.params.len(), 6);
    assert!(matches!(&s.params[3], Param::Null));
    assert_eq!(text(&s, 4), "password");
    assert_eq!(blob(&s, &key, 5), Some(String::from("pw")));
}
