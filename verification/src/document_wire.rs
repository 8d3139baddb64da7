//! Document protocol 2: what the authoring service reports about the source
//! document and what it answers to the preview's requests. These are the plain
//! values the preview's logic reads; parsing them from JSON happens at the edge.
use vstd::prelude::*;

verus! {

/// The protocol version this preview speaks.
pub open spec fn protocol_version() -> Seq<char> {
    "2.0"@
}

/// The most sites of one kind, and of files, a view may carry.
pub const SITE_BUDGET: usize = 4096;

/// The most note outputs one pattern site may carry.
pub const OUTPUT_BUDGET: usize = 100_000;

/// A source file as the service holds it.
#[derive(Clone, Debug)]
pub struct SourceFile {
    pub path: String,
    pub text: String,
}

/// An error that the service attaches to a view or to a refused request.
#[derive(Clone, Debug)]
pub struct DocumentError {
    pub code: String,
    pub message: String,
}

/// A file whose copy on disk differs from the service's copy.
#[derive(Clone, Debug)]
pub struct SourceConflict {
    pub path: String,
    pub disk: String,
    pub disk_hash: String,
}

/// A planned rewrite of a shared pattern into per-placement copies, awaiting review.
#[derive(Clone, Debug)]
pub struct MaterializationReview {
    pub plan_id: String,
    pub file_name: String,
    pub before_text: String,
    pub after_text: String,
    pub affected_clips: Vec<String>,
    pub before_notes: usize,
    pub after_notes: usize,
    pub retains_original_evaluation: bool,
}

/// A place in the source where a pattern's notes can be edited.
/// `output_count` is the number of notes the site evaluates to.
#[derive(Clone, Debug)]
pub struct PatternSite {
    pub handle: String,
    pub pattern_id: String,
    pub file_name: String,
    pub expression: String,
    pub label: String,
    pub scope: String,
    pub references: usize,
    pub placements: Vec<String>,
    pub output_count: usize,
}

/// A place in the source where an automation curve can be edited.
#[derive(Clone, Debug)]
pub struct AutomationSite {
    pub handle: String,
    pub expression: String,
    pub scope: String,
    pub lanes: Vec<String>,
    pub clips: Vec<String>,
}

/// One use of a plugin configuration.
#[derive(Clone, Debug)]
pub struct ConfigurationUsage {
    pub handle: String,
}

/// A place in the source where a plugin configuration can be edited.
#[derive(Clone, Debug)]
pub struct ConfigurationSite {
    pub handle: String,
    pub scope: String,
    pub kind: String,
    pub usages: Vec<ConfigurationUsage>,
}

/// One owner of an effect rack.
#[derive(Clone, Debug)]
pub struct RackUsage {
    pub owner: String,
}

/// A place in the source where an effect rack is defined or referenced.
#[derive(Clone, Debug)]
pub struct RackSite {
    pub handle: String,
    pub scope: String,
    pub usages: Vec<RackUsage>,
}

/// A planned rewrite of a shared rack into per-owner copies, awaiting review.
#[derive(Clone, Debug)]
pub struct RackMaterializationReview {
    pub plan_id: String,
    pub file_name: String,
    pub before_text: String,
    pub after_text: String,
    pub affected_owners: Vec<String>,
    pub effects: usize,
    pub retains_original_evaluation: bool,
}

/// The order in which the source lists tracks, channels and buses; edits
/// address these by index.
#[derive(Clone, Debug)]
pub struct ArrangementOrder {
    pub tracks: Vec<String>,
    pub channels: Vec<String>,
    pub mixer_channels: Vec<String>,
}

/// The service's view of the document at one revision.
#[derive(Clone, Debug)]
pub struct DocumentView {
    pub arrangement_order: Option<ArrangementOrder>,
    pub session_id: String,
    pub revision: u64,
    pub accepted_revision: i64,
    pub saved_revision: i64,
    pub status: String,
    pub modified: bool,
    pub saving: bool,
    pub sites: Vec<PatternSite>,
    pub automation_sites: Vec<AutomationSite>,
    pub configuration_sites: Vec<ConfigurationSite>,
    pub rack_sites: Vec<RackSite>,
    pub rack_materialization: Option<RackMaterializationReview>,
    pub files: Vec<SourceFile>,
    pub conflicts: Vec<SourceConflict>,
    pub materialization: Option<MaterializationReview>,
    pub diagnostic: Option<DocumentError>,
}

/// A message of the document protocol: a new view, or the answer to a request.
#[derive(Clone, Debug)]
pub enum DocumentMessage {
    Event {
        document_protocol_version: String,
        view: DocumentView,
    },
    Response {
        document_protocol_version: String,
        session_id: String,
        request_id: String,
        accepted: bool,
        revision: u64,
        error: Option<DocumentError>,
    },
}

/// Why a document message was refused.
#[derive(Clone, Debug)]
pub struct ProtocolError {
    pub message: String,
}

/// The view carries more sites, files or site outputs than the preview accepts.
pub open spec fn view_over_budget(view: DocumentView) -> bool {
    ||| view.sites.len() > SITE_BUDGET
    ||| view.automation_sites.len() > SITE_BUDGET
    ||| view.configuration_sites.len() > SITE_BUDGET
    ||| view.rack_sites.len() > SITE_BUDGET
    ||| view.files.len() > SITE_BUDGET
    ||| exists|i: int| 0 <= i < view.sites.len() && #[trigger] view.sites[i].output_count > OUTPUT_BUDGET
}

/// The protocol version a message declares.
pub open spec fn message_version(message: DocumentMessage) -> Seq<char> {
    match message {
        DocumentMessage::Event { document_protocol_version, .. } => document_protocol_version@,
        DocumentMessage::Response { document_protocol_version, .. } => document_protocol_version@,
    }
}

pub open spec fn budget_message() -> Seq<char> {
    "document projection exceeds budget"@
}

pub open spec fn version_message() -> Seq<char> {
    "unsupported document protocol version"@
}

/// `s` holds exactly the characters of `literal`.
pub fn text_is(s: &String, literal: &str) -> (same: bool)
    ensures
        same == (s@ == literal@),
{
    let expected = String::from_str(literal);
    s.eq(&expected)
}

impl DocumentMessage {
    /// Accepts a message of protocol 2.0 whose view stays within the budgets.
    pub fn validate(&self) -> (result: Result<(), ProtocolError>)
        ensures
            match result {
                Ok(()) => message_version(*self) == protocol_version()
                    && !(*self matches DocumentMessage::Event { view, .. } && view_over_budget(view)),
                Err(e) => if (*self matches DocumentMessage::Event { view, .. } && view_over_budget(view)) {
                    e.message@ == budget_message()
                } else {
                    message_version(*self) != protocol_version() && e.message@ == version_message()
                },
            },
    {
        let version = match self {
            DocumentMessage::Event { document_protocol_version, view } => {
                if view.sites.len() > SITE_BUDGET || view.automation_sites.len() > SITE_BUDGET
                    || view.configuration_sites.len() > SITE_BUDGET
                    || view.rack_sites.len() > SITE_BUDGET || view.files.len() > SITE_BUDGET
                    || any_site_over_budget(&view.sites)
                {
                    proof { reveal_strlit("document projection exceeds budget"); }
                    return Err(ProtocolError { message: String::from_str("document projection exceeds budget") });
                }
                document_protocol_version
            },
            DocumentMessage::Response { document_protocol_version, .. } => document_protocol_version,
        };
        proof { reveal_strlit("2.0"); }
        if !text_is(version, "2.0") {
            proof { reveal_strlit("unsupported document protocol version"); }
            return Err(ProtocolError { message: String::from_str("unsupported document protocol version") });
        }
        Ok(())
    }
}

/// Some site evaluates to more notes than the budget allows.
fn any_site_over_budget(sites: &Vec<PatternSite>) -> (over: bool)
    ensures
        over == exists|i: int| 0 <= i < sites.len() && #[trigger] sites[i].output_count > OUTPUT_BUDGET,
{
    let mut i: usize = 0;
    while i < sites.len()
        invariant
            i <= sites.len(),
            forall|j: int| 0 <= j < i ==> #[trigger] sites[j].output_count <= OUTPUT_BUDGET,
        decreases sites.len() - i,
    {
        if sites[i].output_count > OUTPUT_BUDGET {
            return true;
        }
        i = i + 1;
    }
    false
}

/// A change the preview asks the service to make to the source. The edits
/// whose content the preview only forwards (project, arrangement, configuration,
/// automation-range and note edits) are carried as `E`.
#[derive(Clone, Debug)]
pub enum DocumentOperation<E> {
    AssignPlugin { plugin: String, owner: String, target: String, instance: Option<String> },
    Project { edit: E },
    Arrangement { edit: E },
    EffectOrder { site: String, owner: String, order: Vec<String> },
    PlanMaterializeRack { site: String, owner: Option<String> },
    Configuration { site: String, usage: Option<String>, edit: E },
    AutomationRange { site: String, lane: Option<String>, clip: Option<String>, edit: E },
    Notes { site: String, placement: Option<String>, edits: E },
    PlanMaterialize { site: String, placement: Option<String>, edits: E },
    ConfirmMaterialize { plan_id: String },
    CancelMaterialize { plan_id: String },
    ResolveConflict { file_name: String, disk_hash: String, resolution: String },
    Code { file_name: String, text: String },
    CreateFile { file_name: String, text: String },
    Undo,
    Redo,
    Save,
    Query,
    RefreshPlugins,
    VerifyPlugin { plugin: String },
    InstallPlugin { package_name: String, version: Option<String> },
    UpgradePlugin { package_name: String, version: Option<String> },
    UninstallPlugin { package_name: String },
    RepairPlugin { package_name: String },
}

/// Operations that touch only source files or the plugin catalog: they may run
/// while the rendered project lags behind the source.
pub open spec fn is_source_level<E>(operation: DocumentOperation<E>) -> bool {
    ||| operation is RefreshPlugins
    ||| operation is VerifyPlugin
    ||| operation is InstallPlugin
    ||| operation is UpgradePlugin
    ||| operation is UninstallPlugin
    ||| operation is RepairPlugin
    ||| operation is Code
    ||| operation is CreateFile
    ||| operation is Undo
    ||| operation is Redo
    ||| operation is ResolveConflict
    ||| operation is CancelMaterialize
}

impl<E> DocumentOperation<E> {
    pub fn source_level(&self) -> (source_level: bool)
        ensures
            source_level == is_source_level(*self),
    {
        match self {
            DocumentOperation::RefreshPlugins
            | DocumentOperation::VerifyPlugin { .. }
            | DocumentOperation::InstallPlugin { .. }
            | DocumentOperation::UpgradePlugin { .. }
            | DocumentOperation::UninstallPlugin { .. }
            | DocumentOperation::RepairPlugin { .. }
            | DocumentOperation::Code { .. }
            | DocumentOperation::CreateFile { .. }
            | DocumentOperation::Undo
            | DocumentOperation::Redo
            | DocumentOperation::ResolveConflict { .. }
            | DocumentOperation::CancelMaterialize { .. } => true,
            _ => false,
        }
    }
}

/// A request of the document protocol: an operation on a given revision of a session.
#[derive(Clone, Debug)]
pub struct DocumentRequest<E> {
    pub document_protocol_version: String,
    pub session_id: String,
    pub request_id: String,
    pub base_revision: u64,
    pub operation: DocumentOperation<E>,
}

} // verus!
