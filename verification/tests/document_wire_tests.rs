use oxitone_preview::document_wire::{
    DocumentMessage, DocumentOperation, DocumentView, PatternSite, SourceFile, OUTPUT_BUDGET, SITE_BUDGET,
};

fn view() -> DocumentView {
    DocumentView {
        arrangement_order: None,
        session_id: "s".into(),
        revision: 1,
        accepted_revision: 1,
        saved_revision: 1,
        status: "ready".into(),
        modified: false,
        saving: false,
        sites: vec![],
        automation_sites: vec![],
        configuration_sites: vec![],
        rack_sites: vec![],
        rack_materialization: None,
        files: vec![],
        conflicts: vec![],
        materialization: None,
        diagnostic: None,
    }
}

fn site(outputs: usize) -> PatternSite {
    PatternSite {
        handle: "h".into(),
        pattern_id: "p".into(),
        file_name: "f.ts".into(),
        expression: "e".into(),
        label: "l".into(),
        scope: "definition".into(),
        references: 1,
        placements: vec![],
        output_count: outputs,
    }
}

fn event(version: &str, view: DocumentView) -> DocumentMessage {
    DocumentMessage::Event { document_protocol_version: version.into(), view }
}

#[test]
fn protocol_two_messages_within_budget_are_accepted() {
    assert!(event("2.0", view()).validate().is_ok());
    let response = DocumentMessage::Response {
        document_protocol_version: "2.0".into(),
        session_id: "s".into(),
        request_id: "r".into(),
        accepted: true,
        revision: 1,
        error: None,
    };
    assert!(response.validate().is_ok());
}

#[test]
fn other_protocol_versions_are_refused() {
    let error = event("1.0", view()).validate().unwrap_err();
    assert_eq!(error.message, "unsupported document protocol version");
    let response = DocumentMessage::Response {
        document_protocol_version: "2.1".into(),
        session_id: "s".into(),
        request_id: "r".into(),
        accepted: true,
        revision: 1,
        error: None,
    };
    assert_eq!(response.validate().unwrap_err().message, "unsupported document protocol version");
}

#[test]
fn oversized_projections_are_refused_before_the_version() {
    let mut big = view();
    big.files = (0..=SITE_BUDGET).map(|i| SourceFile { path: format!("{i}.ts"), text: String::new() }).collect();
    assert_eq!(event("1.0", big).validate().unwrap_err().message, "document projection exceeds budget");
    let mut at_budget = view();
    at_budget.files = (0..SITE_BUDGET).map(|i| SourceFile { path: format!("{i}.ts"), text: String::new() }).collect();
    assert!(event("2.0", at_budget).validate().is_ok());
    let mut loud = view();
    loud.sites = vec![site(1), site(OUTPUT_BUDGET + 1)];
    assert_eq!(event("2.0", loud).validate().unwrap_err().message, "document projection exceeds budget");
    let mut full = view();
    full.sites = vec![site(OUTPUT_BUDGET)];
    assert!(event("2.0", full).validate().is_ok());
}

#[test]
fn source_level_operations_are_the_file_and_catalog_ones() {
    assert!(DocumentOperation::<()>::Undo.source_level());
    assert!(DocumentOperation::<()>::RefreshPlugins.source_level());
    assert!(DocumentOperation::<()>::CancelMaterialize { plan_id: "p".into() }.source_level());
    assert!(!DocumentOperation::<()>::Save.source_level());
    assert!(!DocumentOperation::<()>::Query.source_level());
    assert!(!DocumentOperation::Project { edit: () }.source_level());
    assert!(!DocumentOperation::<()>::ConfirmMaterialize { plan_id: "p".into() }.source_level());
}
