use twirchat::parity::{
    bucket_for_kind, required_backend_messages_list, required_components_list,
    required_desktop_messages_list, required_hotkeys_list, required_overlay_events_list,
    required_overlay_query_params_list, required_rpc_messages_list, required_rpc_requests_list,
    ParityMatrix, ParityRow, SourceReferenceCorrection, SummaryBucket, ValidationError,
};

fn row(id: usize, kind: &str, name: &str) -> ParityRow {
    ParityRow {
        id: format!("row-{id}"),
        kind: kind.to_string(),
        name: name.to_string(),
        status: "in_scope".to_string(),
        source_path: "packages/desktop/src/x.ts".to_string(),
        owner_module: "desktop-rust".to_string(),
        notes: None,
    }
}

fn complete_matrix() -> ParityMatrix {
    let mut rows = Vec::new();
    let mut push = |kind: &str, names: Vec<&str>| {
        for name in names {
            let id = rows.len();
            rows.push(row(id, kind, name));
        }
    };
    push("component", required_components_list());
    push("rpc_request", required_rpc_requests_list());
    push("rpc_message", required_rpc_messages_list());
    push("backend_message", required_backend_messages_list());
    push("desktop_message", required_desktop_messages_list());
    push("overlay_query_param", required_overlay_query_params_list());
    push("overlay_event", required_overlay_events_list());
    push("hotkey", required_hotkeys_list());
    push("store", vec!["chat"]);
    push("settings_key", vec!["theme"]);
    push("platform_capability", vec!["twitch-chat"]);
    push("modal", vec!["AddChannel"]);
    push("failure_state", vec!["offline"]);
    ParityMatrix {
        version: 1,
        source_root: "packages/desktop".to_string(),
        source_reference_corrections: vec![SourceReferenceCorrection {
            incorrect: "a.vue".to_string(),
            correct: "b.vue".to_string(),
        }],
        rows,
    }
}

fn issues(error: ValidationError) -> Vec<String> {
    error.issues().clone()
}

#[test]
fn desktop_parity_matrix_validates() {
    let matrix = complete_matrix();
    let summary = matrix.validate().expect("matrix should validate");
    assert_eq!(summary.counts.len(), 9);
    assert_eq!(summary.counts[0], (SummaryBucket::Components, required_components_list().len()));
    assert_eq!(summary.counts[8], (SummaryBucket::FailureStates, 1));
    assert_eq!(SummaryBucket::ModalPopover.label(), "modals_popovers");
    assert_eq!(bucket_for_kind("tooltip"), Some(SummaryBucket::ModalPopover));
    assert_eq!(bucket_for_kind("unknown"), None);
}

#[test]
fn missing_chat_input_fixture_fails_validation() {
    let mut matrix = complete_matrix();
    matrix.rows.retain(|r| r.name != "ChatInput.vue");
    let found = issues(matrix.validate().expect_err("matrix should fail validation"));
    assert_eq!(found.len(), 1);
    assert!(found[0].starts_with("missing components/pages: "));
    assert!(found[0].contains("ChatInput.vue"));
}

#[test]
fn header_and_row_problems_are_all_reported_in_order() {
    let mut matrix = complete_matrix();
    matrix.version = 2;
    matrix.source_root = "elsewhere".to_string();
    matrix.rows[1].id = "row-0".to_string();
    matrix.rows[2].status = "removed_with_reason".to_string();
    matrix.rows[3].status = "bogus".to_string();
    matrix.rows[4].owner_module = "  ".to_string();
    let found = issues(matrix.validate().expect_err("matrix should fail validation"));
    assert_eq!(
        found,
        vec![
            "expected version 1, found 2".to_string(),
            "expected source_root packages/desktop, found elsewhere".to_string(),
            "duplicate row id: row-0".to_string(),
            "row row-2 uses removed_with_reason but has no notes".to_string(),
            "row row-3 has invalid status bogus".to_string(),
            "row row-4 is missing owner_module".to_string(),
            "expected removed_with_reason count to be 0, found 1".to_string(),
        ]
    );
    let message = ValidationError::new(vec!["a".to_string(), "b".to_string()]).message();
    assert_eq!(message, "parity matrix invalid\n- a\n- b\n");
}
