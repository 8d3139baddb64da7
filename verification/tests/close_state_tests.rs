use oxitone_preview::close_state::CloseState;
use oxitone_preview::document_wire::{DocumentError, DocumentMessage, DocumentView};

fn view() -> DocumentView {
    DocumentView {
        arrangement_order: None,
        session_id: "session".into(),
        revision: 3,
        accepted_revision: 3,
        saved_revision: 2,
        status: "ready".into(),
        modified: true,
        saving: false,
        sites: vec![],
        automation_sites: vec![],
        configuration_sites: vec![],
        rack_sites: vec![],
        rack_materialization: None,
        files: vec![],
        conflicts: vec![],
        materialization: None,
        diagnostic: None,
    }
}

fn response(request: &str, accepted: bool) -> DocumentMessage {
    DocumentMessage::Response {
        document_protocol_version: "2.0".into(),
        session_id: "session".into(),
        request_id: request.into(),
        accepted,
        revision: 3,
        error: if accepted {
            None
        } else {
            Some(DocumentError {
                code: "SourceChanged".into(),
                message: "Disk changed".into(),
            })
        },
    }
}

fn event(view: DocumentView) -> DocumentMessage {
    DocumentMessage::Event {
        document_protocol_version: "2.0".into(),
        view,
    }
}

#[test]
fn closing_waits_for_its_save_response_and_matching_clean_view_in_either_order() {
    for response_first in [false, true] {
        let mut state = CloseState::default();
        let mut view = view();
        state.begin_save("save".into(), &view);
        state.observe(&response("another", true));
        assert!(!state.complete(Some(&view), false));
        if response_first {
            state.observe(&response("save", true));
            assert!(!state.complete(Some(&view), false));
        }
        view.modified = false;
        view.saved_revision = 3;
        state.observe(&event(view.clone()));
        if !response_first {
            assert!(!state.complete(Some(&view), false));
            state.observe(&response("save", true));
        }
        assert!(!state.complete(Some(&view), true));
        assert!(state.complete(Some(&view), false));
    }
}

#[test]
fn rejected_or_cancelled_save_never_closes_and_late_ack_cannot_reactivate_it() {
    let mut state = CloseState::default();
    let mut view = view();
    state.begin_save("save".into(), &view);
    state.observe(&response("save", false));
    assert_eq!(state.error.as_deref(), Some("Disk changed"));
    assert!(!state.saving());
    state.begin_save("retry".into(), &view);
    state.cancel();
    state.observe(&response("retry", true));
    view.modified = false;
    view.saved_revision = 3;
    assert!(!state.complete(Some(&view), false));
}

#[test]
fn newer_edits_or_a_restarted_service_cancel_automatic_close() {
    for restart in [false, true] {
        let mut state = CloseState::default();
        let mut view = view();
        state.begin_save("save".into(), &view);
        if restart {
            view.session_id = "new-session".into();
        } else {
            view.revision = 4;
        }
        state.observe(&event(view.clone()));
        state.observe(&response("save", true));
        assert!(state.error.is_some());
        assert!(!state.saving());
        assert!(!state.complete(Some(&view), false));
    }
}

#[test]
fn refusal_without_a_message_explains_that_the_draft_stays_open() {
    let mut state = CloseState::new();
    let view = view();
    state.begin_save("save".into(), &view);
    state.observe(&DocumentMessage::Response {
        document_protocol_version: "2.0".into(),
        session_id: "session".into(),
        request_id: "save".into(),
        accepted: false,
        revision: 3,
        error: None,
    });
    assert_eq!(state.error.as_deref(), Some("Save failed. Your draft is still open."));
    assert!(!state.saving());
}

#[test]
fn a_moved_view_reports_the_change() {
    let mut state = CloseState::new();
    let mut view = view();
    state.begin_save("save".into(), &view);
    view.revision = 9;
    state.observe(&event(view));
    assert_eq!(
        state.error.as_deref(),
        Some("The project changed while saving. Review the latest changes before closing.")
    );
}

#[test]
fn completion_needs_the_saved_revision_and_a_ready_status() {
    let mut state = CloseState::new();
    let mut view = view();
    state.begin_save("save".into(), &view);
    state.observe(&response("save", true));
    view.modified = false;
    assert!(!state.complete(Some(&view), false), "saved revision lags");
    view.saved_revision = 3;
    view.status = "building".into();
    assert!(!state.complete(Some(&view), false), "not ready");
    view.status = "ready".into();
    view.saving = true;
    assert!(!state.complete(Some(&view), false), "still saving");
    view.saving = false;
    assert!(!state.complete(None, false), "no view");
    assert!(state.complete(Some(&view), false));
}

#[test]
fn only_the_last_save_counts_over_a_history_of_calls() {
    let mut state = CloseState::default();
    let mut shown = view();
    state.begin_save("first".into(), &shown);
    state.observe(&response("first", false));
    assert!(!state.saving(), "a refusal ends the wait");
    state.begin_save("second".into(), &shown);
    assert!(state.error.is_none());
    state.observe(&response("first", true));
    assert!(state.saving());
    shown.modified = false;
    shown.saved_revision = 3;
    assert!(!state.complete(Some(&shown), false), "a stale acceptance acknowledges nothing");
    state.observe(&response("second", true));
    assert!(state.complete(Some(&shown), false));
    assert!(!state.complete(Some(&shown), true));
    state.cancel();
    assert!(!state.saving());
    state.observe(&response("second", true));
    assert!(!state.complete(Some(&shown), false));
}
