use oxitone_preview::close_state::CloseState;
use oxitone_preview::document_ui::{
    Diagnostic, DocumentUi, EffectOwner, Interaction, OrderList, PatternClip, PluginManager, Preview,
    ProjectModel, Selection,
};
use oxitone_preview::document_wire::{
    ArrangementOrder, AutomationSite, ConfigurationSite, ConfigurationUsage, DocumentError, DocumentMessage,
    DocumentOperation, DocumentView, PatternSite,
};

fn view(session: &str, revision: u64) -> DocumentView {
    DocumentView {
        arrangement_order: Some(ArrangementOrder {
            tracks: vec!["trk_a".into(), "trk_b".into()],
            channels: vec!["chn_keys".into()],
            mixer_channels: vec!["mix_music".into()],
        }),
        session_id: session.into(),
        revision,
        accepted_revision: revision as i64,
        saved_revision: revision as i64 - 1,
        status: "ready".into(),
        modified: false,
        saving: false,
        sites: vec![],
        automation_sites: vec![],
        configuration_sites: vec![],
        rack_sites: vec![],
        rack_materialization: None,
        files: vec![],
        conflicts: vec![],
        materialization: None,
        diagnostic: None,
    }
}

fn preview() -> Preview<&'static str> {
    Preview {
        project: Some(ProjectModel {
            revision: 4,
            pattern_clips: vec![PatternClip { id: "clip".into(), pattern_id: "pat".into() }],
            channels: vec![EffectOwner {
                id: "chn_keys".into(),
                effects: vec![Some("ins_a".into()), Some("ins_b".into()), Some("ins_c".into())],
            }],
            mixer_channels: vec![EffectOwner { id: "mix_music".into(), effects: vec![None] }],
            automation_lanes: vec!["lane_a".into(), "lane_b".into()],
        }),
        document: DocumentUi::new(),
        diagnostic: None,
        close: CloseState::new(),
        status: String::new(),
        selected_clip: Some("clip".into()),
        piano_pattern: Some("pat".into()),
        composite_selected: false,
    }
}

fn ready_preview() -> Preview<&'static str> {
    let mut p = preview();
    p.document.view = Some(view("session", 3));
    p
}

fn response(request: &str, accepted: bool, revision: u64) -> DocumentMessage {
    DocumentMessage::Response {
        document_protocol_version: "2.0".into(),
        session_id: "session".into(),
        request_id: request.into(),
        accepted,
        revision,
        error: (!accepted).then(|| DocumentError { code: "Conflict".into(), message: "Source moved".into() }),
    }
}

fn site(pattern: &str, scope: &str, references: usize, placements: &[&str], handle: &str) -> PatternSite {
    PatternSite {
        handle: handle.into(),
        pattern_id: pattern.into(),
        file_name: "song.ts".into(),
        expression: "pattern()".into(),
        label: "Pattern".into(),
        scope: scope.into(),
        references,
        placements: placements.iter().map(|p| p.to_string()).collect(),
        output_count: 0,
    }
}

#[test]
fn ready_needs_an_idle_accepted_view_rendered_by_the_project() {
    let mut p = ready_preview();
    assert!(p.document_ready());
    p.document.pending = Some("stream/gpui-session/1".into());
    assert!(!p.document_ready());
    p.document.pending = None;
    p.project.as_mut().unwrap().revision = 3;
    assert!(!p.document_ready(), "project lags the source");
    p.project.as_mut().unwrap().revision = 4;
    p.document.view.as_mut().unwrap().accepted_revision = 2;
    assert!(!p.document_ready(), "revision not accepted");
    p.document.view.as_mut().unwrap().accepted_revision = 3;
    p.document.view.as_mut().unwrap().status = "building".into();
    assert!(!p.document_ready());
}

#[test]
fn requests_are_numbered_per_preview_and_wait_for_their_answer() {
    let mut p = ready_preview();
    let request = p.document_request(DocumentOperation::<()>::Save).unwrap();
    assert_eq!(request.request_id, "stream/gpui-session/1");
    assert_eq!(request.session_id, "session");
    assert_eq!(request.base_revision, 3);
    assert_eq!(request.document_protocol_version, "2.0");
    p.record_sent(request.request_id.clone());
    assert_eq!(p.document.pending.as_deref(), Some("stream/gpui-session/1"));
    assert_eq!(p.document.presentation_revision, Some(4));
    assert!(p.presentation_active());
    assert!(p.document_request(DocumentOperation::<()>::Undo).is_none(), "one request at a time");
    assert_eq!(p.document.serial, 1);
    let outcome = p.observe_document(response("stream/gpui-session/1", true, 3));
    assert_eq!(outcome, (None, false));
    assert_eq!(p.status, "Source 3 accepted");
    assert!(p.document.pending.is_none());
    let second = p.document_request(DocumentOperation::<()>::Save).unwrap();
    assert_eq!(second.request_id, "stream/gpui-session/2");
}

#[test]
fn source_level_operations_run_while_the_project_lags() {
    let mut p = ready_preview();
    p.project.as_mut().unwrap().revision = 1;
    assert!(!p.document_operation_ready(&DocumentOperation::<()>::Save));
    assert!(p.document_operation_ready(&DocumentOperation::<()>::Undo));
    assert!(p.document_operation_ready(&DocumentOperation::<()>::Code { file_name: "a.ts".into(), text: "".into() }));
    p.document.view.as_mut().unwrap().status = "closed".into();
    assert!(!p.document_operation_ready(&DocumentOperation::<()>::Undo));
}

#[test]
fn refused_answers_drop_the_presentation_and_show_the_error() {
    let mut p = ready_preview();
    let request = p.document_request(DocumentOperation::<()>::Save).unwrap();
    p.record_sent(request.request_id.clone());
    p.document.pending_notes = Some("gesture");
    p.document.playlist_pending = true;
    let (restore, assigned) = p.observe_document(response(&request.request_id, false, 3));
    assert_eq!(restore, None);
    assert!(!assigned);
    assert!(p.document.pending_notes.is_none());
    assert!(!p.document.playlist_pending);
    assert_eq!(p.document.presentation_revision, None);
    assert_eq!(p.active_diagnostic().map(|d| d.message.as_str()), Some("Source moved"));
}

#[test]
fn answers_to_other_requests_are_ignored() {
    let mut p = ready_preview();
    let request = p.document_request(DocumentOperation::<()>::Save).unwrap();
    p.record_sent(request.request_id.clone());
    p.observe_document(response("stream/gpui-session/9", true, 3));
    assert_eq!(p.document.pending.as_deref(), Some(request.request_id.as_str()));
}

#[test]
fn a_new_view_settles_the_presentation_and_restores_note_selection() {
    let mut p = ready_preview();
    let request = p.document_request(DocumentOperation::<()>::Save).unwrap();
    p.record_sent(request.request_id.clone());
    p.document.pending_notes = Some("notes");
    let (restore, _) = p.observe_document(response(&request.request_id, true, 5));
    assert_eq!(restore, None, "the presentation is still shown");
    assert_eq!(p.document.pending_notes, Some("notes"));
    p.observe_document(DocumentMessage::Event { document_protocol_version: "2.0".into(), view: view("session", 5) });
    assert_eq!(p.status, "ready · Source 5 · Saved 4");
    assert_eq!(p.document.pending_notes, Some("notes"), "the project has not caught up");
    p.project.as_mut().unwrap().revision = 6;
    let (restore, _) = p.observe_document(DocumentMessage::Event {
        document_protocol_version: "2.0".into(),
        view: view("session", 5),
    });
    assert_eq!(restore, Some("notes"));
    assert!(p.document.presentation_revision.is_none());
}

#[test]
fn an_answer_for_the_shown_presentation_ends_it_at_once() {
    let mut p = ready_preview();
    let request = p.document_request(DocumentOperation::<()>::Save).unwrap();
    p.record_sent(request.request_id.clone());
    p.document.pending_notes = Some("notes");
    p.observe_document(response(&request.request_id, true, 3));
    assert!(p.document.pending_notes.is_none());
    assert!(p.document.presentation_revision.is_none());
}

#[test]
fn a_restarted_session_forgets_the_old_request_and_edits() {
    let mut p = ready_preview();
    p.document.pending = Some("stream/gpui-session/1".into());
    p.document.interaction.note_gesture = true;
    p.document.manager.assignment_pending = true;
    let mut fresh = view("restarted", 1);
    fresh.saved_revision = -1;
    fresh.diagnostic = Some(DocumentError { code: "Parse".into(), message: "Unexpected token".into() });
    p.observe_document(DocumentMessage::Event { document_protocol_version: "2.0".into(), view: fresh });
    assert!(p.document.pending.is_none());
    assert!(!p.document.interaction.note_gesture);
    assert!(!p.document.manager.assignment_pending);
    assert_eq!(p.status, "ready · Source 1 · Saved -1");
    assert_eq!(
        p.active_diagnostic(),
        Some(&Diagnostic { code: "Parse".into(), message: "Unexpected token".into(), path: None })
    );
}

#[test]
fn accepted_assignments_close_the_plugin_manager() {
    let mut p = ready_preview();
    let request = p.document_request(DocumentOperation::<()>::RefreshPlugins).unwrap();
    p.record_sent(request.request_id.clone());
    p.document.manager = PluginManager { open: true, assignment: true, assignment_pending: true };
    let (_, assigned) = p.observe_document(response(&request.request_id, true, 3));
    assert!(assigned);
    assert!(!p.document.manager.open);
    assert!(!p.document.manager.assignment);
}

#[test]
fn pattern_sites_prefer_the_clip_reference_then_a_sole_reference() {
    let mut p = ready_preview();
    p.document.view.as_mut().unwrap().sites = vec![
        site("pat", "definition", 2, &[], "def"),
        site("pat", "reference", 1, &["other"], "other-ref"),
        site("pat", "reference", 1, &["clip"], "clip-ref"),
    ];
    assert_eq!(p.pattern_site().unwrap().handle, "clip-ref");
    assert_eq!(p.edit_placement().as_deref(), Some("clip"));
    p.document.edit_shared = true;
    assert_eq!(p.pattern_site().unwrap().handle, "def");
    assert_eq!(p.edit_placement(), None);
    p.document.edit_shared = false;
    p.document.view.as_mut().unwrap().sites.remove(2);
    assert_eq!(p.pattern_site().unwrap().handle, "other-ref");
    p.composite_selected = true;
    assert_eq!(p.edit_placement(), None);
    p.selected_clip = Some("missing".into());
    assert!(p.pattern_site().is_none());
}

#[test]
fn configuration_sites_follow_the_scope_choice() {
    let mut p = ready_preview();
    let usage = |h: &str| ConfigurationUsage { handle: h.into() };
    p.document.view.as_mut().unwrap().configuration_sites = vec![
        ConfigurationSite { handle: "def".into(), scope: "definition".into(), kind: "effect".into(), usages: vec![usage("u1"), usage("u2")] },
        ConfigurationSite { handle: "ref".into(), scope: "reference".into(), kind: "effect".into(), usages: vec![usage("u2")] },
    ];
    p.document.configuration = Selection { selected: Some("u2".into()), shared: false };
    assert_eq!(p.configuration_site().unwrap().handle, "ref");
    match p.configuration_operation(7u8).unwrap() {
        DocumentOperation::Configuration { site, usage, edit } => {
            assert_eq!(site, "ref");
            assert_eq!(usage.as_deref(), Some("u2"));
            assert_eq!(edit, 7);
        }
        _ => panic!("configuration edit expected"),
    }
    p.document.configuration.shared = true;
    assert_eq!(p.configuration_site().unwrap().handle, "def");
    match p.configuration_operation(1u8).unwrap() {
        DocumentOperation::Configuration { usage, .. } => assert_eq!(usage, None),
        _ => panic!("configuration edit expected"),
    }
    p.document.configuration.selected = Some("u9".into());
    assert!(p.configuration_operation(0u8).is_none());
}

#[test]
fn automation_sites_follow_the_selected_lane() {
    let mut p = ready_preview();
    let auto = |handle: &str, scope: &str, lanes: &[&str]| AutomationSite {
        handle: handle.into(),
        expression: "curve()".into(),
        scope: scope.into(),
        lanes: lanes.iter().map(|l| l.to_string()).collect(),
        clips: vec![],
    };
    p.document.view.as_mut().unwrap().automation_sites = vec![
        auto("shared", "definition", &["lane_a", "lane_b"]),
        auto("b-only", "reference", &["lane_b"]),
    ];
    assert_eq!(p.automation_lane().map(String::as_str), Some("lane_a"), "first lane by default");
    assert!(p.automation_site().is_none());
    p.document.automation = Selection { selected: Some("lane_b".into()), shared: false };
    assert_eq!(p.automation_site().unwrap().handle, "b-only");
    p.document.automation.shared = true;
    assert_eq!(p.automation_site().unwrap().handle, "shared");
}

#[test]
fn effects_move_one_slot_within_their_chain() {
    let p = ready_preview();
    let owner = "chn_keys".to_string();
    let edit = p.effect_order_operation(&owner, &"ins_b".to_string(), -1).unwrap();
    assert_eq!(edit.owner, "channel");
    assert_eq!(edit.index, 0);
    assert_eq!(edit.order, vec![1, 0, 2]);
    let later = p.effect_order_operation(&owner, &"ins_b".to_string(), 1).unwrap();
    assert_eq!(later.order, vec![0, 2, 1]);
    assert!(p.effect_order_operation(&owner, &"ins_a".to_string(), -1).is_none());
    assert!(p.effect_order_operation(&owner, &"ins_c".to_string(), 1).is_none());
    assert!(p.effect_order_operation(&"mix_music".to_string(), &"ins_a".to_string(), 1).is_none(), "unnamed slots");
}

#[test]
fn edits_address_tracks_channels_and_buses_by_source_order() {
    let p = ready_preview();
    assert_eq!(p.order_index(OrderList::Tracks, &"trk_b".to_string()), Some(1));
    assert_eq!(p.order_index(OrderList::Channels, &"chn_keys".to_string()), Some(0));
    assert_eq!(p.order_index(OrderList::Buses, &"mix_music".to_string()), Some(0));
    assert_eq!(p.order_index(OrderList::Buses, &"chn_keys".to_string()), None);
}

#[test]
fn clearing_and_settling_presentations() {
    let mut p = ready_preview();
    p.document.presentation_revision = Some(4);
    p.document.pending_note_pattern = Some("pat".into());
    assert_eq!(p.settle_presentation(), None, "still presenting");
    p.document.presentation_revision = Some(2);
    p.document.pending_notes = Some("n");
    assert_eq!(p.settle_presentation(), Some("n"));
    assert!(p.document.pending_note_pattern.is_none());
    p.document.plugin_pending = true;
    p.clear_presentation();
    assert!(!p.document.plugin_pending);
    assert!(p.active_diagnostic().is_none());
    p.diagnostic = Some(Diagnostic { code: "c".into(), message: "m".into(), path: None });
    assert_eq!(p.active_diagnostic().unwrap().code, "c");
    let _ = Interaction::none();
}

#[test]
fn the_edit_scope_toggles_between_this_clip_and_the_definition() {
    let mut p = ready_preview();
    assert_eq!(p.scope_label(), "This clip");
    p.document.interaction.note_selection = true;
    p.toggle_edit_scope();
    assert!(p.document.edit_shared);
    assert!(!p.document.interaction.note_selection);
    assert_eq!(p.scope_label(), "Shared definition");
    p.composite_selected = true;
    p.toggle_edit_scope();
    assert!(p.document.edit_shared, "a pattern part keeps its scope");
    assert_eq!(p.scope_label(), "Pattern part");
}
