use tenon::coordinator::{
    choose_client_ids, normalize_client_count, parse_client_ids, ClientIdSink, ClientIdSource,
    EngineCoordinator, OssCoordinator, RuleSource,
};

/// A rule file that is not there.
struct MissingRules {
    path: String,
}

impl RuleSource for MissingRules {
    fn load_rules(&self) -> Result<Vec<u8>, String> {
        Err(format!("No such file or directory: {}", self.path))
    }

    fn label(&self) -> &str {
        &self.path
    }
}

/// A client-id file with the given content, or none.
struct ClientIdFile {
    path: String,
    content: Option<Vec<u8>>,
}

impl ClientIdSource for ClientIdFile {
    fn load_client_ids(&self) -> Result<Option<Vec<String>>, String> {
        match &self.content {
            Some(bytes) => Ok(parse_client_ids(bytes)),
            None => Ok(None),
        }
    }
}

impl ClientIdSink for ClientIdFile {
    fn persist_client_ids(&self, _client_ids: &[String]) -> Result<(), String> {
        Ok(())
    }

    fn label(&self) -> &str {
        &self.path
    }
}

fn coordinator(
    files: OssCoordinator,
    content: Option<Vec<u8>>,
) -> EngineCoordinator<MissingRules, ClientIdFile, ClientIdFile> {
    EngineCoordinator::new(
        MissingRules { path: files.rule_path.clone() },
        ClientIdFile { path: files.client_ids_path.clone(), content: content.clone() },
        ClientIdFile { path: files.client_ids_path, content },
    )
}

#[test]
fn generates_client_ids_when_file_is_missing() {
    let files = OssCoordinator::from_files(
        "/tmp/bifrore-test-rules-missing".to_string(),
        "/tmp/bifrore-test-client-ids-missing".to_string(),
    );
    let mut coordinator = coordinator(files, None);
    let ids = coordinator.resolve_client_ids("node-1", 3);
    assert_eq!(
        ids,
        vec!["node-1_0".to_string(), "node-1_1".to_string(), "node-1_2".to_string()]
    );
}

#[test]
fn resolves_client_ids_from_file_when_present() {
    let files = OssCoordinator::from_files(
        "/tmp/bifrore-test-rules-missing".to_string(),
        "/tmp/bifrore-test-client-ids".to_string(),
    );
    let mut coordinator = coordinator(files, Some(b"cid-a\ncid-b\n".to_vec()));
    let ids = coordinator.resolve_client_ids("node-1", 2);
    assert_eq!(ids, vec!["cid-a".to_string(), "cid-b".to_string()]);
    assert_eq!(coordinator.client_id_sink_label(), "/tmp/bifrore-test-client-ids");
    assert_eq!(coordinator.rule_source_label(), "/tmp/bifrore-test-rules-missing");
    assert!(coordinator.load_rule_bytes().is_err());
    assert!(coordinator.persist_client_ids(&ids).is_ok());
}

#[test]
fn zero_client_count_still_yields_one_id() {
    assert_eq!(normalize_client_count(0), 1);
    assert_eq!(normalize_client_count(1), 1);
    assert_eq!(normalize_client_count(7), 7);
    assert_eq!(choose_client_ids(Ok(None), "n", 0), vec!["n_0".to_string()]);
}

#[test]
fn source_errors_fall_back_to_generated_ids() {
    assert_eq!(
        choose_client_ids(Err("denied".to_string()), "edge", 2),
        vec!["edge_0".to_string(), "edge_1".to_string()]
    );
    assert_eq!(
        choose_client_ids(Ok(Some(vec!["x".to_string()])), "edge", 2),
        vec!["x".to_string()]
    );
}

#[test]
fn client_id_file_lines_are_trimmed_and_blank_lines_skipped() {
    assert_eq!(
        parse_client_ids(b"  a \r\n\n\t\nb"),
        Some(vec!["a".to_string(), "b".to_string()])
    );
    assert_eq!(parse_client_ids(b" \n \n"), None);
    assert_eq!(parse_client_ids(b""), None);
    assert_eq!(parse_client_ids(&[0xff, 0xfe]), None);
}
