//! Verified editing logic of the Oxitone project preview: the document
//! protocol's plain data, the close-after-save state machine, the document
//! readiness rules and the small decision functions of the editors.
pub mod analysis;
pub mod automation_curve;
pub mod automation_labels;
pub mod backend;
pub mod text;
pub mod search;
pub mod document_wire;
pub mod engine;
pub mod mixer_actions;
pub mod playlist_projection;
pub mod close_state;
pub mod configuration_edit;
pub mod document_ui;
