use mizan::working_context::{
    AccountEntry, ChatMessage, ChatPart, ChatWorkingContext, ToolResultData, WorkingContextAccount, WorkingContextAttachment,
    WorkingContextImport,
};

fn account(i: usize) -> WorkingContextAccount {
    WorkingContextAccount { id: format!("acc-{i}"), name: format!("Account {i}"), currency: "USD".to_string() }
}

#[test]
fn empty_context_renders_nothing() {
    let c = ChatWorkingContext { accounts: vec![], attachments: vec![], current_import: None };
    assert!(c.render().is_none());
}

#[test]
fn renders_accounts_attachments_and_import() {
    let c = ChatWorkingContext {
        accounts: vec![account(1)],
        attachments: vec![WorkingContextAttachment {
            name: "statement.csv".to_string(),
            content_type: "text/csv".to_string(),
            size_label: "1.5 KB".to_string(),
        }],
        current_import: Some(WorkingContextImport {
            rows: Some(12),
            account_id: Some("acc-1".to_string()),
            confidence: None,
            submitted: true,
            imported_count: Some(1),
        }),
    };
    let text = c.render().unwrap();
    let lines: Vec<&str> = text.lines().collect();
    assert_eq!(lines[0], "## Known App Context");
    assert_eq!(lines[2], "Accounts:");
    assert_eq!(lines[3], "- Account 1: id=acc-1, currency=USD");
    assert_eq!(lines[4], "Attachments available this session:");
    assert_eq!(lines[5], "- statement.csv (text/csv, 1.5 KB)");
    assert_eq!(lines[6], "Current CSV import:");
    assert_eq!(lines[7], "- rows prepared: 12");
    assert_eq!(lines[8], "- target account id: acc-1");
    assert_eq!(lines[9], "- status: imported 1 activity");
    assert_eq!(lines.len(), 10);
    assert!(!text.ends_with('\n'));
}

#[test]
fn caps_accounts_at_twenty() {
    let c = ChatWorkingContext { accounts: (0..23).map(account).collect(), attachments: vec![], current_import: None };
    let text = c.render().unwrap();
    let lines: Vec<&str> = text.lines().collect();
    assert_eq!(lines.len(), 2 + 1 + 20 + 1);
    assert_eq!(lines[lines.len() - 1], "- ... 3 more account(s) omitted");
}

#[test]
fn pending_import_says_not_imported() {
    let c = ChatWorkingContext {
        accounts: vec![],
        attachments: vec![],
        current_import: Some(WorkingContextImport {
            rows: None,
            account_id: None,
            confidence: Some("high".to_string()),
            submitted: false,
            imported_count: None,
        }),
    };
    let text = c.render().unwrap();
    assert!(text.ends_with("Current CSV import:\n- mapping confidence: high\n- status: prepared, not imported yet"));
}


fn entry(id: Option<&str>, name: Option<&str>, currency: Option<&str>) -> AccountEntry {
    AccountEntry {
        id: id.map(str::to_string),
        name: name.map(str::to_string),
        currency: currency.map(str::to_string),
    }
}

fn no_data() -> ToolResultData {
    ToolResultData {
        accounts: None,
        available_accounts: None,
        total_rows: None,
        account_id: None,
        mapping_confidence: None,
        submitted: None,
        imported_count: None,
    }
}

fn call(id: &str, name: &str) -> ChatPart {
    ChatPart::ToolCall { tool_call_id: id.to_string(), name: name.to_string() }
}

fn result(id: &str, success: bool, data: ToolResultData) -> ChatPart {
    ChatPart::ToolResult { tool_call_id: id.to_string(), success, data }
}

#[test]
fn accounts_come_from_successful_get_accounts_results() {
    let data = ToolResultData {
        accounts: Some(vec![entry(Some("a1"), Some("Checking"), Some("USD")), entry(None, Some("No id"), None), entry(Some("a2"), Some("Brokerage"), None)]),
        ..no_data()
    };
    let messages = vec![ChatMessage { is_assistant: true, parts: vec![call("c1", "get_accounts"), result("c1", true, data)] }];
    let c = ChatWorkingContext::from_messages_and_attachments(&messages, vec![]);
    assert_eq!(c.accounts.len(), 2);
    assert_eq!(c.accounts[0].id, "a1");
    assert_eq!(c.accounts[1].name, "Brokerage");
    assert_eq!(c.accounts[1].currency, "");
    assert!(c.current_import.is_none());
}

#[test]
fn failed_results_user_messages_and_unknown_calls_are_ignored() {
    let data = || ToolResultData { accounts: Some(vec![entry(Some("a1"), Some("Checking"), Some("USD"))]), ..no_data() };
    let messages = vec![
        ChatMessage { is_assistant: false, parts: vec![call("c1", "get_accounts"), result("c1", true, data())] },
        ChatMessage { is_assistant: true, parts: vec![call("c2", "get_accounts"), result("c2", false, data())] },
        ChatMessage { is_assistant: true, parts: vec![result("c3", true, data()), call("c3", "get_accounts")] },
    ];
    let c = ChatWorkingContext::from_messages_and_attachments(&messages, vec![]);
    assert!(c.accounts.is_empty());
    assert!(c.render().is_none());
}

#[test]
fn import_csv_records_the_import() {
    let data = ToolResultData {
        available_accounts: Some(vec![entry(Some("a9"), Some("ISA"), Some("GBP"))]),
        total_rows: Some(40),
        account_id: Some("a9".to_string()),
        mapping_confidence: Some("medium".to_string()),
        submitted: Some(true),
        imported_count: Some(38),
        ..no_data()
    };
    let messages = vec![ChatMessage { is_assistant: true, parts: vec![call("x", "import_csv"), result("x", true, data)] }];
    let attachments = (0..12)
        .map(|i| WorkingContextAttachment { name: format!("f{i}.csv"), content_type: "text/csv".to_string(), size_label: "1 B".to_string() })
        .collect();
    let c = ChatWorkingContext::from_messages_and_attachments(&messages, attachments);
    assert_eq!(c.attachments.len(), 10);
    assert_eq!(c.accounts[0].id, "a9");
    let imp = c.current_import.as_ref().unwrap();
    assert_eq!(imp.rows, Some(40));
    assert!(imp.submitted);
    let text = c.render().unwrap();
    assert!(text.ends_with("- status: imported 38 activities"));
}
