use nft_mint_job::config::{AppConfig, ConfigError, ConfigKey};
use nft_mint_job::job::{
    plan_mint, prepare_mint, select_pending, settle, Attempt, ItemFault, JobRun, MintOutcome,
    Nft, RepositoryRow, Response,
};
use nft_mint_job::types::{ApiError, MetadataPurpose, MetadataVal, MintReceiptPart};

fn nft(principal: &str, id: &str) -> Nft {
    Nft { principal_id: principal.to_string(), id: id.to_string() }
}

fn row(label: &str, status: i32) -> RepositoryRow {
    RepositoryRow { label: label.to_string(), principal_id: "aaaaa-aa".to_string(), status }
}

fn config_with(database_url: Option<String>, canister: &str) -> Result<AppConfig, ConfigError> {
    AppConfig::from_parts(
        Some(false),
        Some("log/mint.log".to_string()),
        database_url,
        Some("identity.pem".to_string()),
        Some("http://127.0.0.1:8000".to_string()),
        Some(canister.to_string()),
    )
}

#[test]
fn two_rows_one_success_one_rejection() {
    let rows = vec![row("A", 0), row("B", 0)];
    let items = select_pending(&rows);
    let mut run = JobRun::new(items);
    let mut lines = Vec::new();
    let mut marks = Vec::new();

    assert_eq!(run.next_item().unwrap().id, "A");
    let a = run.record(Attempt::Submitted(MintOutcome::Success(MintReceiptPart { token_id: 7, id: 7 })));
    lines.push(a.line.render());
    if let Some(l) = a.mark_complete {
        marks.push(l);
    }
    assert_eq!(run.next_item().unwrap().id, "B");
    let b = run.record(Attempt::Submitted(MintOutcome::Rejected(ApiError::AliasHasBeenTaken)));
    lines.push(b.line.render());
    if let Some(l) = b.mark_complete {
        marks.push(l);
    }
    assert!(run.next_item().is_none());

    assert_eq!(
        lines,
        vec![
            r#"{"result":"success","message":"mint :A","token_id":7}"#.to_string(),
            r#"{"result":"fault","message":"mint :B---Error:AliasHasBeenTaken"}"#.to_string(),
        ]
    );
    assert_eq!(marks, vec!["A".to_string()]);

    let after: Vec<RepositoryRow> = rows
        .iter()
        .map(|r| row(&r.label, if marks.contains(&r.label) { 1 } else { r.status }))
        .collect();
    let again = select_pending(&after);
    assert_eq!(again.len(), 1);
    assert_eq!(again[0].id, "B");
}

#[test]
fn config_without_database_url_is_refused() {
    let r = config_with(None, "aaaaa-aa");
    assert_eq!(r.err(), Some(ConfigError::Missing(ConfigKey::DatabaseUrl)));
}

#[test]
fn config_reports_first_missing_key() {
    let r = AppConfig::from_parts(None, None, None, None, None, None);
    assert_eq!(r.err(), Some(ConfigError::Missing(ConfigKey::Debug)));
    let r = AppConfig::from_parts(
        Some(true),
        Some("f".to_string()),
        Some("d".to_string()),
        Some("p".to_string()),
        Some("h".to_string()),
        None,
    );
    assert_eq!(r.err(), Some(ConfigError::Missing(ConfigKey::AgentCanisterId)));
}

#[test]
fn config_with_every_key() {
    let c = config_with(Some("mysql://localhost/nft".to_string()), "aaaaa-aa").ok().unwrap();
    assert_eq!(c.database_url, "mysql://localhost/nft");
    assert_eq!(c.icp_config.agent_canister_id, "aaaaa-aa");
    assert_eq!(c.icp_config.identity_pem_path, "identity.pem");
    assert!(!c.debug);
}

#[test]
fn config_with_bad_canister_id() {
    let r = config_with(Some("mysql://localhost/nft".to_string()), "not a principal");
    assert_eq!(r.err(), Some(ConfigError::InvalidCanisterId));
}

#[test]
fn prepare_builds_metadata() {
    let item = nft("2vxsx-fae", "42");
    let req = prepare_mint(&item, "{\"principal_id\":\"2vxsx-fae\",\"id\":\"42\"}").ok().unwrap();
    assert_eq!(req.recipient, "2vxsx-fae");
    assert_eq!(req.metadata.len(), 1);
    let part = &req.metadata[0];
    assert!(part.purpose == MetadataPurpose::Rendered);
    assert!(part.data.is_empty());
    assert_eq!(part.key_val_data.len(), 2);
    assert_eq!(part.key_val_data[0].key, "id");
    assert!(matches!(part.key_val_data[0].val, MetadataVal::Nat64Content(42)));
    assert_eq!(part.key_val_data[1].key, "nft_content");
    match &part.key_val_data[1].val {
        MetadataVal::TextContent(t) => {
            assert_eq!(t, "{\"principal_id\":\"2vxsx-fae\",\"id\":\"42\"}")
        }
        _ => panic!("content is not text"),
    }
}

#[test]
fn prepare_refuses_bad_principal() {
    let item = nft("not-a-principal", "42");
    assert_eq!(prepare_mint(&item, "x").err(), Some(ItemFault::InvalidPrincipal));
    let item = nft("", "42");
    assert_eq!(prepare_mint(&item, "x").err(), Some(ItemFault::InvalidPrincipal));
}

#[test]
fn prepare_refuses_bad_label() {
    let item = nft("aaaaa-aa", "A");
    assert_eq!(prepare_mint(&item, "x").err(), Some(ItemFault::InvalidId));
    let item = nft("aaaaa-aa", "18446744073709551616");
    assert_eq!(prepare_mint(&item, "x").err(), Some(ItemFault::InvalidId));
}

#[test]
fn plan_checks_recipient_first() {
    let item = nft("whatever", "A");
    assert_eq!(plan_mint(&item, "x", false).err(), Some(ItemFault::InvalidPrincipal));
    assert_eq!(plan_mint(&item, "x", true).err(), Some(ItemFault::InvalidId));
    let item = nft("whatever", "9");
    assert!(plan_mint(&item, "x", true).is_ok());
}

#[test]
fn transport_failure_is_a_fault_without_mark() {
    let s = settle(&nft("aaaaa-aa", "5"), &Attempt::Submitted(MintOutcome::TransportFailure("timeout".to_string())));
    assert!(s.mark_complete.is_none());
    assert_eq!(
        s.line.render(),
        r#"{"result":"fault","message":"mint :5---TransportFailure:timeout"}"#
    );
}

#[test]
fn refused_item_is_a_fault_without_mark() {
    let s = settle(&nft("bad", "5"), &Attempt::Refused(ItemFault::InvalidPrincipal));
    assert!(s.mark_complete.is_none());
    assert_eq!(s.line.render(), r#"{"result":"fault","message":"mint :5---Invalid:InvalidPrincipal"}"#);
}

#[test]
fn alias_format_error_shows_quoted_alias() {
    let s = settle(
        &nft("aaaaa-aa", "5"),
        &Attempt::Submitted(MintOutcome::Rejected(ApiError::AliasFormatFail("a\"b".to_string()))),
    );
    assert_eq!(s.line.message, "mint :5---Error:AliasFormatFail(\"a\\\"b\")");
    assert_eq!(ApiError::Unauthorized.describe(), "Unauthorized");
    assert_eq!(ApiError::InvalidTokenId.describe(), "InvalidTokenId");
    assert_eq!(ApiError::ZeroAddress.describe(), "ZeroAddress");
    assert_eq!(ApiError::Other.describe(), "Other");
}

#[test]
fn success_marks_its_label_once() {
    let s = settle(
        &nft("aaaaa-aa", "12"),
        &Attempt::Submitted(MintOutcome::Success(MintReceiptPart { token_id: 3, id: 1234567890123456789012 })),
    );
    assert_eq!(s.mark_complete, Some("12".to_string()));
    assert_eq!(s.line.token_id, Some(1234567890123456789012));
    assert_eq!(
        s.line.render(),
        r#"{"result":"success","message":"mint :12","token_id":1234567890123456789012}"#
    );
}

#[test]
fn render_zero_and_no_token() {
    let r = Response { result: "success".to_string(), message: "m".to_string(), token_id: Some(0) };
    assert_eq!(r.render(), r#"{"result":"success","message":"m","token_id":0}"#);
    let r = Response { result: "fault".to_string(), message: String::new(), token_id: None };
    assert_eq!(r.render(), r#"{"result":"fault","message":""}"#);
}

#[test]
fn single_item_run_writes_one_line() {
    let mut run = JobRun::new(vec![nft("aaaaa-aa", "1")]);
    assert!(run.next_item().is_some());
    let s = run.record(Attempt::Submitted(MintOutcome::Rejected(ApiError::Unauthorized)));
    assert_eq!(s.line.render(), r#"{"result":"fault","message":"mint :1---Error:Unauthorized"}"#);
    assert!(run.next_item().is_none());
    assert_eq!(run.done, 1);
}

#[test]
fn empty_repository_gives_empty_work_set() {
    assert!(select_pending(&Vec::new()).is_empty());
    let rows = vec![row("A", 1), row("B", 1)];
    assert!(select_pending(&rows).is_empty());
    let run = JobRun::new(select_pending(&rows));
    assert!(run.next_item().is_none());
}

#[test]
fn pending_rows_keep_storage_order() {
    let rows = vec![row("C", 0), row("A", 1), row("B", 0), row("D", 2)];
    let p = select_pending(&rows);
    let labels: Vec<&str> = p.iter().map(|n| n.id.as_str()).collect();
    assert_eq!(labels, vec!["C", "B"]);
    assert_eq!(p[0].principal_id, "aaaaa-aa");
}

#[test]
fn canister_check_decides_on_its_argument() {
    let c = config_with(Some("mysql://localhost/nft".to_string()), "aaaaa-aa").ok().unwrap();
    assert_eq!(AppConfig::with_canister_check(c, false).err(), Some(ConfigError::InvalidCanisterId));
    let c = config_with(Some("mysql://localhost/nft".to_string()), "aaaaa-aa").ok().unwrap();
    assert!(AppConfig::with_canister_check(c, true).is_ok());
}

#[test]
fn rendered_lines_escape_quotes_and_controls() {
    let s = settle(
        &nft("aaaaa-aa", "5"),
        &Attempt::Submitted(MintOutcome::Rejected(ApiError::AliasFormatFail("x".to_string()))),
    );
    let line = s.line.render();
    assert_eq!(line, r#"{"result":"fault","message":"mint :5---Error:AliasFormatFail(\"x\")"}"#);
    let v: serde_json::Value = serde_json::from_str(&line).unwrap();
    assert_eq!(v["message"].as_str(), Some("mint :5---Error:AliasFormatFail(\"x\")"));
    assert_eq!(v["result"].as_str(), Some("fault"));
    assert!(v.get("token_id").is_none());
}

#[test]
fn rendered_line_parses_back() {
    let message = "a\"b\\c\nd\re\tf\u{1}g\u{1f}h é".to_string();
    let r = Response { result: "success".to_string(), message: message.clone(), token_id: Some(7) };
    let line = r.render();
    assert_eq!(
        line,
        "{\"result\":\"success\",\"message\":\"a\\\"b\\\\c\\nd\\re\\tf\\u0001g\\u001fh é\",\"token_id\":7}"
    );
    assert!(!line.contains('\n'));
    let v: serde_json::Value = serde_json::from_str(&line).unwrap();
    assert_eq!(v["message"].as_str(), Some(message.as_str()));
    assert_eq!(v["token_id"].as_u64(), Some(7));
}

#[test]
fn principal_must_be_canonical_lower_case() {
    let item = nft("AAAAA-AA", "42");
    assert_eq!(prepare_mint(&item, "x").err(), Some(ItemFault::InvalidPrincipal));
    let r = config_with(Some("mysql://localhost/nft".to_string()), "AAAAA-AA");
    assert_eq!(r.err(), Some(ConfigError::InvalidCanisterId));
}
