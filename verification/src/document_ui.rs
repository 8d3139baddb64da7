//! The preview's side of the document protocol: when the document is ready for
//! an edit, which source site an edit addresses, how a new view or a response
//! updates what the preview shows, and which request an edit becomes.
use vstd::prelude::*;
use crate::close_state::{CloseModel, CloseState, observed_model};
use crate::document_wire::{AutomationSite, ConfigurationSite, DocumentError, DocumentMessage, DocumentOperation, DocumentRequest, DocumentView, PatternSite, is_source_level, protocol_version, text_is};
use crate::search::{first_index, first_of, is_first, lemma_first_absent, lemma_first_exists, lemma_first_found, lemma_first_of_is_first};
use crate::text::{decimal, push_decimal, push_signed_decimal, push_str, signed_decimal};

verus! {

/// A problem shown to the user.
#[derive(Clone, Debug, PartialEq, Eq)]
pub struct Diagnostic {
    pub code: String,
    pub message: String,
    pub path: Option<String>,
}

/// A placement of a pattern in the playlist.
#[derive(Clone, Debug)]
pub struct PatternClip {
    pub id: String,
    pub pattern_id: String,
}

/// A channel or bus of the rendered project with the instance ids of its effect chain.
#[derive(Clone, Debug)]
pub struct EffectOwner {
    pub id: String,
    pub effects: Vec<Option<String>>,
}

/// What the preview's document logic reads of the rendered project.
#[derive(Clone, Debug)]
pub struct ProjectModel {
    pub revision: u64,
    pub pattern_clips: Vec<PatternClip>,
    pub channels: Vec<EffectOwner>,
    pub mixer_channels: Vec<EffectOwner>,
    pub automation_lanes: Vec<String>,
}

/// Edits in progress that a new document revision invalidates.
#[derive(Clone, Copy, Debug)]
pub struct Interaction {
    pub plugin_edit: bool,
    pub playlist_drag: bool,
    pub mixer_gesture: bool,
    pub tempo_input: bool,
    pub note_selection: bool,
    pub note_gesture: bool,
    pub automation_gesture: bool,
    pub configuration_input: bool,
}

pub open spec fn no_interaction() -> Interaction {
    Interaction {
        plugin_edit: false,
        playlist_drag: false,
        mixer_gesture: false,
        tempo_input: false,
        note_selection: false,
        note_gesture: false,
        automation_gesture: false,
        configuration_input: false,
    }
}

impl Interaction {
    pub fn none() -> (interaction: Interaction)
        ensures
            interaction == no_interaction(),
    {
        Interaction {
            plugin_edit: false,
            playlist_drag: false,
            mixer_gesture: false,
            tempo_input: false,
            note_selection: false,
            note_gesture: false,
            automation_gesture: false,
            configuration_input: false,
        }
    }
}

/// The plugin manager: whether it is open, holds an assignment, and awaits its answer.
#[derive(Clone, Copy, Debug)]
pub struct PluginManager {
    pub open: bool,
    pub assignment: bool,
    pub assignment_pending: bool,
}

/// Which usage an editor has selected, and whether it edits the shared definition.
#[derive(Clone, Debug)]
pub struct Selection {
    pub selected: Option<String>,
    pub shared: bool,
}

/// The preview's document state. `N` is a note edit whose preview is shown
/// until the service answers.
pub struct DocumentUi<N> {
    pub view: Option<DocumentView>,
    pub pending: Option<String>,
    pub error: Option<Diagnostic>,
    pub interaction: Interaction,
    pub pending_notes: Option<N>,
    pub pending_note_source: bool,
    pub pending_note_pattern: Option<String>,
    pub presentation_revision: Option<u64>,
    pub plugin_pending: bool,
    pub playlist_pending: bool,
    pub mixer_pending: bool,
    pub automation_pending: bool,
    pub manager: PluginManager,
    pub edit_shared: bool,
    pub configuration: Selection,
    pub automation: Selection,
    pub serial: u64,
}

/// The preview: the rendered project, the document state, and what is selected.
pub struct Preview<N> {
    pub project: Option<ProjectModel>,
    pub document: DocumentUi<N>,
    pub diagnostic: Option<Diagnostic>,
    pub close: CloseState,
    pub status: String,
    pub selected_clip: Option<String>,
    pub piano_pattern: Option<String>,
    pub composite_selected: bool,
}

/// The preview as values.
pub struct PreviewModel<N> {
    pub project: Option<ProjectModel>,
    pub document: DocumentUi<N>,
    pub diagnostic: Option<Diagnostic>,
    pub close: CloseModel,
    pub status: Seq<char>,
    pub selected_clip: Option<String>,
    pub piano_pattern: Option<String>,
    pub composite_selected: bool,
}

impl<N> View for Preview<N> {
    type V = PreviewModel<N>;

    open spec fn view(&self) -> PreviewModel<N> {
        PreviewModel {
            project: self.project,
            document: self.document,
            diagnostic: self.diagnostic,
            close: self.close@,
            status: self.status@,
            selected_clip: self.selected_clip,
            piano_pattern: self.piano_pattern,
            composite_selected: self.composite_selected,
        }
    }
}

// ----- readiness -----

/// The shown project is the rendering of the request whose answer is awaited.
pub open spec fn presenting<N>(p: PreviewModel<N>) -> bool {
    match p.project {
        Some(project) => p.document.presentation_revision == Some(project.revision),
        None => false,
    }
}

/// Nothing is pending, the service is idle at an accepted revision, and the
/// project shown renders exactly that revision.
pub open spec fn ready<N>(p: PreviewModel<N>) -> bool {
    &&& p.document.pending is None
    &&& match p.document.view {
        Some(view) => {
            &&& view.status@ == "ready"@
            &&& !view.saving
            &&& view.accepted_revision == view.revision as i64
            &&& match p.project {
                Some(project) => project.revision == view.revision + 1,
                None => false,
            }
        },
        None => false,
    }
}

/// The document state with every pending presentation dropped.
pub open spec fn presentation_cleared<N>(d: DocumentUi<N>) -> DocumentUi<N> {
    DocumentUi {
        plugin_pending: false,
        playlist_pending: false,
        pending_notes: None,
        pending_note_source: false,
        pending_note_pattern: None,
        presentation_revision: None,
        ..d
    }
}

/// A ready document that no longer shows a pending presentation drops it.
pub open spec fn settled<N>(p: PreviewModel<N>) -> PreviewModel<N> {
    if ready(p) && !presenting(p) {
        PreviewModel { document: presentation_cleared(p.document), ..p }
    } else {
        p
    }
}

/// The note edit whose selection is restored when a presentation settles.
pub open spec fn settled_notes<N>(p: PreviewModel<N>) -> Option<N> {
    if ready(p) && !presenting(p) {
        p.document.pending_notes
    } else {
        None
    }
}

impl<N> Preview<N> {
    pub fn presentation_active(&self) -> (active: bool)
        ensures
            active == presenting(self@),
    {
        match &self.project {
            Some(project) => match self.document.presentation_revision {
                Some(revision) => revision == project.revision,
                None => false,
            },
            None => false,
        }
    }

    pub fn clear_presentation(&mut self)
        ensures
            final(self)@ == (PreviewModel { document: presentation_cleared(old(self)@.document), ..old(self)@ }),
    {
        self.document.plugin_pending = false;
        self.document.playlist_pending = false;
        self.document.pending_notes = None;
        self.document.pending_note_source = false;
        self.document.pending_note_pattern = None;
        self.document.presentation_revision = None;
    }

    /// Drops the pending presentation once the document is ready and shows
    /// something else; returns the note edit whose selection is to be restored.
    pub fn settle_presentation(&mut self) -> (restore: Option<N>)
        ensures
            final(self)@ == settled(old(self)@),
            restore == settled_notes(old(self)@),
    {
        if self.document_ready() && !self.presentation_active() {
            let restore = self.document.pending_notes.take();
            self.clear_presentation();
            restore
        } else {
            None
        }
    }

    pub fn document_ready(&self) -> (is_ready: bool)
        ensures
            is_ready == ready(self@),
    {
        proof { reveal_strlit("ready"); }
        if self.document.pending.is_some() {
            return false;
        }
        match &self.document.view {
            Some(view) => {
                text_is(&view.status, "ready") && !view.saving
                    && view.accepted_revision == view.revision as i64
                    && match &self.project {
                        Some(project) => view.revision < u64::MAX && project.revision == view.revision + 1,
                        None => false,
                    }
            },
            None => false,
        }
    }

    /// The document's own error comes first, then the preview's diagnostic.
    pub fn active_diagnostic(&self) -> (shown: Option<&Diagnostic>)
        ensures
            shown == match self.document.error {
                Some(e) => Some(&e),
                None => match self.diagnostic {
                    Some(d) => Some(&d),
                    None => None,
                },
            },
    {
        match &self.document.error {
            Some(e) => Some(e),
            None => self.diagnostic.as_ref(),
        }
    }
}

// ----- source sites -----

/// The first element satisfying `p`, or failing that the first satisfying `q`.
pub open spec fn first_or<T>(s: Seq<T>, p: spec_fn(T) -> bool, q: spec_fn(T) -> bool) -> Option<T> {
    match first_of(s, p) {
        Some(x) => Some(x),
        None => first_of(s, q),
    }
}

/// The clip whose id is the selected one.
pub open spec fn is_selected_clip(selected: Option<String>) -> spec_fn(PatternClip) -> bool {
    |clip: PatternClip| selected matches Some(id) && clip.id@ == id@
}

/// How a pattern site is matched.
#[derive(Clone, Copy, Debug, PartialEq, Eq)]
pub enum SiteRule {
    /// The site defines the pattern.
    Definition,
    /// The site is the pattern's only reference.
    SoleReference,
    /// The site references the pattern from exactly the given placement.
    ClipReference,
}

pub open spec fn site_rule(rule: SiteRule, pattern: Seq<char>, clip: Seq<char>) -> spec_fn(PatternSite) -> bool {
    |site: PatternSite| site.pattern_id@ == pattern && match rule {
        SiteRule::Definition => site.scope@ == "definition"@,
        SiteRule::SoleReference => site.references == 1,
        SiteRule::ClipReference => site.scope@ == "reference"@ && site.placements.len() == 1
            && site.placements[0]@ == clip,
    }
}

/// The source site that edits the selected clip's pattern: the definition when
/// editing shared or when the piano shows another pattern than the clip's,
/// otherwise the reference that places exactly this clip; in both cases a sole
/// reference of the pattern serves when the first choice does not exist.
pub open spec fn chosen_pattern_site<N>(p: PreviewModel<N>) -> Option<PatternSite> {
    match (p.project, p.document.view, p.piano_pattern) {
        (Some(project), Some(view), Some(pattern)) => match first_of(project.pattern_clips@, is_selected_clip(p.selected_clip)) {
            Some(clip) => if p.document.edit_shared || pattern@ != clip.pattern_id@ {
                first_or(view.sites@, site_rule(SiteRule::Definition, pattern@, clip.id@), site_rule(SiteRule::SoleReference, pattern@, clip.id@))
            } else {
                first_or(view.sites@, site_rule(SiteRule::ClipReference, pattern@, clip.id@), site_rule(SiteRule::SoleReference, pattern@, clip.id@))
            },
            None => None,
        },
        _ => None,
    }
}

/// The placement an edit applies to: the selected clip, when a single clip is
/// selected, edits are not shared, and its site is a reference.
pub open spec fn chosen_placement<N>(p: PreviewModel<N>) -> Option<String> {
    if !p.composite_selected && !p.document.edit_shared
        && (chosen_pattern_site(p) matches Some(site) && site.scope@ == "reference"@) {
        p.selected_clip
    } else {
        None
    }
}

fn first_clip<'a>(clips: &'a Vec<PatternClip>, selected: &Option<String>) -> (found: Option<&'a PatternClip>)
    ensures
        match found {
            Some(clip) => first_of(clips@, is_selected_clip(*selected)) == Some(*clip),
            None => first_of(clips@, is_selected_clip(*selected)) is None,
        },
{
    let ghost p = is_selected_clip(*selected);
    let id = match selected {
        Some(id) => id,
        None => {
            proof { lemma_first_absent(clips@, p); }
            return None;
        },
    };
    let mut i: usize = 0;
    while i < clips.len()
        invariant
            i <= clips.len(),
            p == is_selected_clip(*selected),
            *selected == Some(*id),
            forall|j: int| 0 <= j < i ==> !p(#[trigger] clips@[j]),
        decreases clips.len() - i,
    {
        if clips[i].id.eq(id) {
            proof { lemma_first_found(clips@, p, i as int); }
            return Some(&clips[i]);
        }
        i = i + 1;
    }
    proof { lemma_first_absent(clips@, p); }
    None
}

fn site_matches(site: &PatternSite, rule: SiteRule, pattern: &String, clip: &String) -> (matches: bool)
    ensures
        matches == site_rule(rule, pattern@, clip@)(*site),
{
    proof {
        reveal_strlit("definition");
        reveal_strlit("reference");
    }
    site.pattern_id.eq(pattern) && match rule {
        SiteRule::Definition => text_is(&site.scope, "definition"),
        SiteRule::SoleReference => site.references == 1,
        SiteRule::ClipReference => text_is(&site.scope, "reference") && site.placements.len() == 1
            && site.placements[0].eq(clip),
    }
}

fn first_site<'a>(sites: &'a Vec<PatternSite>, rule: SiteRule, pattern: &String, clip: &String) -> (found: Option<&'a PatternSite>)
    ensures
        match found {
            Some(site) => first_of(sites@, site_rule(rule, pattern@, clip@)) == Some(*site),
            None => first_of(sites@, site_rule(rule, pattern@, clip@)) is None,
        },
{
    let ghost p = site_rule(rule, pattern@, clip@);
    let mut i: usize = 0;
    while i < sites.len()
        invariant
            i <= sites.len(),
            p == site_rule(rule, pattern@, clip@),
            forall|j: int| 0 <= j < i ==> !p(#[trigger] sites@[j]),
        decreases sites.len() - i,
    {
        if site_matches(&sites[i], rule, pattern, clip) {
            proof { lemma_first_found(sites@, p, i as int); }
            return Some(&sites[i]);
        }
        i = i + 1;
    }
    proof { lemma_first_absent(sites@, p); }
    None
}

fn first_site_or<'a>(sites: &'a Vec<PatternSite>, rule: SiteRule, pattern: &String, clip: &String) -> (found: Option<&'a PatternSite>)
    ensures
        match found {
            Some(site) => first_or(sites@, site_rule(rule, pattern@, clip@), site_rule(SiteRule::SoleReference, pattern@, clip@)) == Some(*site),
            None => first_or(sites@, site_rule(rule, pattern@, clip@), site_rule(SiteRule::SoleReference, pattern@, clip@)) is None,
        },
{
    match first_site(sites, rule, pattern, clip) {
        Some(site) => Some(site),
        None => first_site(sites, SiteRule::SoleReference, pattern, clip),
    }
}

impl<N> Preview<N> {
    pub fn pattern_site(&self) -> (site: Option<&PatternSite>)
        ensures
            match site {
                Some(s) => chosen_pattern_site(self@) == Some(*s),
                None => chosen_pattern_site(self@) is None,
            },
    {
        let project = match &self.project {
            Some(project) => project,
            None => { return None; },
        };
        let clip = match first_clip(&project.pattern_clips, &self.selected_clip) {
            Some(clip) => clip,
            None => { return None; },
        };
        let view = match &self.document.view {
            Some(view) => view,
            None => { return None; },
        };
        let pattern = match &self.piano_pattern {
            Some(pattern) => pattern,
            None => { return None; },
        };
        if self.document.edit_shared || !pattern.eq(&clip.pattern_id) {
            first_site_or(&view.sites, SiteRule::Definition, pattern, &clip.id)
        } else {
            first_site_or(&view.sites, SiteRule::ClipReference, pattern, &clip.id)
        }
    }

    pub fn edit_placement(&self) -> (placement: Option<String>)
        ensures
            placement == chosen_placement(self@),
    {
        proof { reveal_strlit("reference"); }
        let reference = match self.pattern_site() {
            Some(site) => text_is(&site.scope, "reference"),
            None => false,
        };
        if !self.composite_selected && !self.document.edit_shared && reference {
            self.selected_clip.clone()
        } else {
            None
        }
    }
}

// ----- configuration and automation sites -----

/// How a site is matched to a selection: the shared definition, the reference
/// of exactly the selection, or any site of exactly the selection.
#[derive(Clone, Copy, Debug, PartialEq, Eq)]
pub enum SiteChoice {
    Shared,
    Instance,
    Sole,
}

/// The lane whose id is the selected one.
pub open spec fn is_selected_lane(selected: Option<String>) -> spec_fn(String) -> bool {
    |lane: String| selected matches Some(id) && lane@ == id@
}

/// The site lists the selected usage among its usages.
pub open spec fn has_usage(site: ConfigurationSite, handle: Seq<char>) -> bool {
    exists|k: int| 0 <= k < site.usages.len() && #[trigger] site.usages[k].handle@ == handle
}

/// The site has exactly the one usage `handle`.
pub open spec fn only_usage(site: ConfigurationSite, handle: Seq<char>) -> bool {
    site.usages.len() == 1 && site.usages[0].handle@ == handle
}

pub open spec fn shared_configuration(handle: Seq<char>) -> spec_fn(ConfigurationSite) -> bool {
    |site: ConfigurationSite| site.scope@ == "definition"@ && has_usage(site, handle)
}

pub open spec fn instance_configuration(handle: Seq<char>) -> spec_fn(ConfigurationSite) -> bool {
    |site: ConfigurationSite| site.scope@ == "reference"@ && only_usage(site, handle)
}

pub open spec fn sole_configuration(handle: Seq<char>) -> spec_fn(ConfigurationSite) -> bool {
    |site: ConfigurationSite| only_usage(site, handle)
}

/// The configuration site the editor addresses: the definition that lists the
/// selected usage when editing shared, otherwise the reference of exactly that
/// usage, or failing that any site whose only usage it is.
pub open spec fn chosen_configuration_site<N>(p: PreviewModel<N>) -> Option<ConfigurationSite> {
    match (p.document.configuration.selected, p.document.view) {
        (Some(handle), Some(view)) => if p.document.configuration.shared {
            first_of(view.configuration_sites@, shared_configuration(handle@))
        } else {
            first_or(view.configuration_sites@, instance_configuration(handle@), sole_configuration(handle@))
        },
        _ => None,
    }
}

/// The configuration edit addressed to the chosen site, for one usage when the
/// site is a reference edited on its own.
pub open spec fn configuration_request<N, E>(p: PreviewModel<N>, edit: E) -> Option<DocumentOperation<E>> {
    match chosen_configuration_site(p) {
        Some(site) => Some(DocumentOperation::Configuration {
            site: site.handle,
            usage: if !p.document.configuration.shared && site.scope@ == "reference"@ {
                Some(site.usages[0].handle)
            } else {
                None
            },
            edit,
        }),
        None => None,
    }
}

spec fn configuration_rule(rule: SiteChoice, handle: Seq<char>) -> spec_fn(ConfigurationSite) -> bool {
    match rule {
        SiteChoice::Shared => shared_configuration(handle),
        SiteChoice::Instance => instance_configuration(handle),
        SiteChoice::Sole => sole_configuration(handle),
    }
}

fn lists_usage(site: &ConfigurationSite, handle: &String) -> (listed: bool)
    ensures
        listed == has_usage(*site, handle@),
{
    let mut k: usize = 0;
    while k < site.usages.len()
        invariant
            k <= site.usages.len(),
            forall|j: int| 0 <= j < k ==> #[trigger] site.usages[j].handle@ != handle@,
        decreases site.usages.len() - k,
    {
        if site.usages[k].handle.eq(handle) {
            return true;
        }
        k = k + 1;
    }
    false
}

fn configuration_matches(site: &ConfigurationSite, rule: SiteChoice, handle: &String) -> (matches: bool)
    ensures
        matches == configuration_rule(rule, handle@)(*site),
{
    proof {
        reveal_strlit("definition");
        reveal_strlit("reference");
    }
    let only = site.usages.len() == 1 && site.usages[0].handle.eq(handle);
    match rule {
        SiteChoice::Shared => text_is(&site.scope, "definition") && lists_usage(site, handle),
        SiteChoice::Instance => text_is(&site.scope, "reference") && only,
        SiteChoice::Sole => only,
    }
}

fn first_configuration<'a>(sites: &'a Vec<ConfigurationSite>, rule: SiteChoice, handle: &String) -> (found: Option<&'a ConfigurationSite>)
    ensures
        match found {
            Some(site) => first_of(sites@, configuration_rule(rule, handle@)) == Some(*site),
            None => first_of(sites@, configuration_rule(rule, handle@)) is None,
        },
{
    let ghost p = configuration_rule(rule, handle@);
    let mut i: usize = 0;
    while i < sites.len()
        invariant
            i <= sites.len(),
            p == configuration_rule(rule, handle@),
            forall|j: int| 0 <= j < i ==> !p(#[trigger] sites@[j]),
        decreases sites.len() - i,
    {
        if configuration_matches(&sites[i], rule, handle) {
            proof { lemma_first_found(sites@, p, i as int); }
            return Some(&sites[i]);
        }
        i = i + 1;
    }
    proof { lemma_first_absent(sites@, p); }
    None
}

/// The lane the automation editor shows: the selected one, or else the first.
pub open spec fn chosen_lane<N>(p: PreviewModel<N>) -> Option<String> {
    match p.project {
        Some(project) => match first_of(project.automation_lanes@, is_selected_lane(p.document.automation.selected)) {
            Some(lane) => Some(lane),
            None => if project.automation_lanes.len() > 0 { Some(project.automation_lanes[0]) } else { None },
        },
        None => None,
    }
}

/// The site lists the lane among its lanes.
pub open spec fn has_lane(site: AutomationSite, lane: Seq<char>) -> bool {
    exists|k: int| 0 <= k < site.lanes.len() && #[trigger] site.lanes[k]@ == lane
}

/// The site holds exactly the one lane.
pub open spec fn only_lane(site: AutomationSite, lane: Seq<char>) -> bool {
    site.lanes.len() == 1 && site.lanes[0]@ == lane
}

pub open spec fn automation_rule(rule: SiteChoice, lane: Seq<char>) -> spec_fn(AutomationSite) -> bool {
    |site: AutomationSite| match rule {
        SiteChoice::Shared => site.scope@ == "definition"@ && has_lane(site, lane),
        SiteChoice::Instance => site.scope@ == "reference"@ && only_lane(site, lane),
        SiteChoice::Sole => only_lane(site, lane),
    }
}


/// The automation site the curve editor addresses, chosen as for configurations.
pub open spec fn chosen_automation_site<N>(p: PreviewModel<N>) -> Option<AutomationSite> {
    match (chosen_lane(p), p.document.view) {
        (Some(lane), Some(view)) => if p.document.automation.shared {
            first_of(view.automation_sites@, automation_rule(SiteChoice::Shared, lane@))
        } else {
            first_or(view.automation_sites@, automation_rule(SiteChoice::Instance, lane@),
                automation_rule(SiteChoice::Sole, lane@))
        },
        _ => None,
    }
}

fn lists_lane(site: &AutomationSite, lane: &String) -> (listed: bool)
    ensures
        listed == has_lane(*site, lane@),
{
    let mut k: usize = 0;
    while k < site.lanes.len()
        invariant
            k <= site.lanes.len(),
            forall|j: int| 0 <= j < k ==> #[trigger] site.lanes[j]@ != lane@,
        decreases site.lanes.len() - k,
    {
        if site.lanes[k].eq(lane) {
            return true;
        }
        k = k + 1;
    }
    false
}

fn first_automation_site<'a>(sites: &'a Vec<AutomationSite>, rule: SiteChoice, lane: &String) -> (found: Option<&'a AutomationSite>)
    ensures
        match found {
            Some(site) => first_of(sites@, automation_rule(rule, lane@)) == Some(*site),
            None => first_of(sites@, automation_rule(rule, lane@)) is None,
        },
{
    proof {
        reveal_strlit("definition");
        reveal_strlit("reference");
    }
    let ghost p = automation_rule(rule, lane@);
    let mut i: usize = 0;
    while i < sites.len()
        invariant
            i <= sites.len(),
            p == automation_rule(rule, lane@),
            forall|j: int| 0 <= j < i ==> !p(#[trigger] sites@[j]),
        decreases sites.len() - i,
    {
        let site = &sites[i];
        let only = site.lanes.len() == 1 && site.lanes[0].eq(lane);
        let hit = match rule {
            SiteChoice::Shared => text_is(&site.scope, "definition") && lists_lane(site, lane),
            SiteChoice::Instance => text_is(&site.scope, "reference") && only,
            SiteChoice::Sole => only,
        };
        if hit {
            proof { lemma_first_found(sites@, p, i as int); }
            return Some(site);
        }
        i = i + 1;
    }
    proof { lemma_first_absent(sites@, p); }
    None
}

impl<N> Preview<N> {
    pub fn configuration_site(&self) -> (site: Option<&ConfigurationSite>)
        ensures
            match site {
                Some(s) => chosen_configuration_site(self@) == Some(*s),
                None => chosen_configuration_site(self@) is None,
            },
    {
        let handle = match &self.document.configuration.selected {
            Some(handle) => handle,
            None => { return None; },
        };
        let view = match &self.document.view {
            Some(view) => view,
            None => { return None; },
        };
        if self.document.configuration.shared {
            first_configuration(&view.configuration_sites, SiteChoice::Shared, handle)
        } else {
            match first_configuration(&view.configuration_sites, SiteChoice::Instance, handle) {
                Some(site) => Some(site),
                None => first_configuration(&view.configuration_sites, SiteChoice::Sole, handle),
            }
        }
    }

    pub fn configuration_operation<E>(&self, edit: E) -> (operation: Option<DocumentOperation<E>>)
        ensures
            operation == configuration_request(self@, edit),
    {
        proof { reveal_strlit("reference"); }
        let site = match self.configuration_site() {
            Some(site) => site,
            None => { return None; },
        };
        let usage = if !self.document.configuration.shared && text_is(&site.scope, "reference") {
            Some(site.usages[0].handle.clone())
        } else {
            None
        };
        Some(DocumentOperation::Configuration { site: site.handle.clone(), usage, edit })
    }

    pub fn automation_lane(&self) -> (lane: Option<&String>)
        ensures
            match lane {
                Some(l) => chosen_lane(self@) == Some(*l),
                None => chosen_lane(self@) is None,
            },
    {
        let project = match &self.project {
            Some(project) => project,
            None => { return None; },
        };
        let lanes = &project.automation_lanes;
        let ghost p = is_selected_lane(self.document.automation.selected);
        if let Some(id) = &self.document.automation.selected {
            let mut i: usize = 0;
            while i < lanes.len()
                invariant
                    i <= lanes.len(),
                    p == is_selected_lane(self.document.automation.selected),
                    self.document.automation.selected == Some(*id),
                    self.project == Some(*project),
                    lanes@ == project.automation_lanes@,
                    forall|j: int| 0 <= j < i ==> !p(#[trigger] lanes@[j]),
                decreases lanes.len() - i,
            {
                if lanes[i].eq(id) {
                    proof {
                        lemma_first_found(lanes@, p, i as int);
                    }
                    return Some(&lanes[i]);
                }
                i = i + 1;
            }
        }
        proof { lemma_first_absent(lanes@, p); }
        if lanes.len() > 0 {
            Some(&lanes[0])
        } else {
            None
        }
    }

    pub fn automation_site(&self) -> (site: Option<&AutomationSite>)
        ensures
            match site {
                Some(s) => chosen_automation_site(self@) == Some(*s),
                None => chosen_automation_site(self@) is None,
            },
    {
        let lane = match self.automation_lane() {
            Some(lane) => lane,
            None => { return None; },
        };
        let view = match &self.document.view {
            Some(view) => view,
            None => { return None; },
        };
        if self.document.automation.shared {
            first_automation_site(&view.automation_sites, SiteChoice::Shared, lane)
        } else {
            match first_automation_site(&view.automation_sites, SiteChoice::Instance, lane) {
                Some(site) => Some(site),
                None => first_automation_site(&view.automation_sites, SiteChoice::Sole, lane),
            }
        }
    }
}

// ----- laws of site choice -----

/// The automation site an edit addresses holds the edited lane: when editing
/// shared, it is a definition that lists the lane, and no earlier site is;
/// otherwise its only lane is the edited one, and it is a reference whenever
/// some reference holds just that lane.
pub proof fn lemma_automation_site_holds_lane<N>(p: PreviewModel<N>, s: AutomationSite)
    requires
        chosen_automation_site(p) == Some(s),
    ensures
        chosen_lane(p) is Some,
        p.document.view is Some,
        exists|i: int| 0 <= i < p.document.view.unwrap().automation_sites.len()
            && p.document.view.unwrap().automation_sites@[i] == s,
        p.document.automation.shared ==> s.scope@ == "definition"@
            && exists|k: int| 0 <= k < s.lanes.len() && #[trigger] s.lanes[k]@ == chosen_lane(p).unwrap()@,
        p.document.automation.shared ==> exists|i: int| 0 <= i < p.document.view.unwrap().automation_sites.len()
            && p.document.view.unwrap().automation_sites@[i] == s
            && forall|j: int| 0 <= j < i ==> !(#[trigger] p.document.view.unwrap().automation_sites@[j].scope@ == "definition"@
                && exists|k: int| 0 <= k < p.document.view.unwrap().automation_sites@[j].lanes.len()
                    && p.document.view.unwrap().automation_sites@[j].lanes[k]@ == chosen_lane(p).unwrap()@),
        !p.document.automation.shared ==> s.lanes.len() == 1 && s.lanes[0]@ == chosen_lane(p).unwrap()@,
        !p.document.automation.shared && (exists|i: int| 0 <= i < p.document.view.unwrap().automation_sites.len()
            && #[trigger] p.document.view.unwrap().automation_sites@[i].scope@ == "reference"@
            && p.document.view.unwrap().automation_sites@[i].lanes.len() == 1
            && p.document.view.unwrap().automation_sites@[i].lanes[0]@ == chosen_lane(p).unwrap()@)
            ==> s.scope@ == "reference"@,
{
    let lane = chosen_lane(p).unwrap();
    let sites = p.document.view.unwrap().automation_sites@;
    if p.document.automation.shared {
        lemma_first_of_is_first(sites, automation_rule(SiteChoice::Shared, lane@));
        let i = choose|i: int| is_first(sites, automation_rule(SiteChoice::Shared, lane@), i)
            && first_of(sites, automation_rule(SiteChoice::Shared, lane@)) == Some(sites[i]);
        assert(automation_rule(SiteChoice::Shared, lane@)(s));
        assert forall|j: int| 0 <= j < i implies !(#[trigger] sites[j].scope@ == "definition"@
            && exists|k: int| 0 <= k < sites[j].lanes.len() && sites[j].lanes[k]@ == lane@) by {
            assert(!automation_rule(SiteChoice::Shared, lane@)(sites[j]));
        }
    } else {
        let inst = automation_rule(SiteChoice::Instance, lane@);
        let sole = automation_rule(SiteChoice::Sole, lane@);
        if first_of(sites, inst) is Some {
            lemma_first_of_is_first(sites, inst);
            let i = choose|i: int| is_first(sites, inst, i) && first_of(sites, inst) == Some(sites[i]);
            assert(sites[i] == s);
        } else {
            lemma_first_of_is_first(sites, sole);
            let i = choose|i: int| is_first(sites, sole, i) && first_of(sites, sole) == Some(sites[i]);
            assert(sites[i] == s);
            if exists|i: int| 0 <= i < sites.len() && #[trigger] sites[i].scope@ == "reference"@
                && sites[i].lanes.len() == 1 && sites[i].lanes[0]@ == lane@ {
                let k = choose|i: int| 0 <= i < sites.len() && #[trigger] sites[i].scope@ == "reference"@
                    && sites[i].lanes.len() == 1 && sites[i].lanes[0]@ == lane@;
                assert(inst(sites[k]));
                lemma_first_exists(sites, inst, k);
            }
        }
    }
}

/// An edit finds an automation site whenever one fits: when editing shared, a
/// definition that lists the lane; otherwise a site whose only lane it is.
pub proof fn lemma_automation_site_found<N>(p: PreviewModel<N>, i: int)
    requires
        chosen_lane(p) is Some,
        p.document.view is Some,
        0 <= i < p.document.view.unwrap().automation_sites.len(),
        p.document.automation.shared ==> p.document.view.unwrap().automation_sites@[i].scope@ == "definition"@
            && exists|k: int| 0 <= k < p.document.view.unwrap().automation_sites@[i].lanes.len()
                && #[trigger] p.document.view.unwrap().automation_sites@[i].lanes[k]@ == chosen_lane(p).unwrap()@,
        !p.document.automation.shared ==> p.document.view.unwrap().automation_sites@[i].lanes.len() == 1
            && p.document.view.unwrap().automation_sites@[i].lanes[0]@ == chosen_lane(p).unwrap()@,
    ensures
        chosen_automation_site(p) is Some,
{
    let lane = chosen_lane(p).unwrap();
    let sites = p.document.view.unwrap().automation_sites@;
    if p.document.automation.shared {
        assert(automation_rule(SiteChoice::Shared, lane@)(sites[i]));
        lemma_first_exists(sites, automation_rule(SiteChoice::Shared, lane@), i);
        lemma_first_found_some(sites, automation_rule(SiteChoice::Shared, lane@));
    } else {
        assert(automation_rule(SiteChoice::Sole, lane@)(sites[i]));
        lemma_first_exists(sites, automation_rule(SiteChoice::Sole, lane@), i);
        lemma_first_found_some(sites, automation_rule(SiteChoice::Sole, lane@));
    }
}

proof fn lemma_first_found_some<T>(s: Seq<T>, q: spec_fn(T) -> bool)
    requires
        first_index(s, q) is Some,
    ensures
        first_of(s, q) is Some,
{
}

/// The configuration site an edit addresses holds the selected usage: when
/// editing shared, it is a definition that lists the usage; otherwise the
/// usage is its only one, and it is a reference whenever some reference has
/// just that usage.
pub proof fn lemma_configuration_site_holds_usage<N>(p: PreviewModel<N>, s: ConfigurationSite)
    requires
        chosen_configuration_site(p) == Some(s),
    ensures
        p.document.configuration.selected is Some,
        p.document.view is Some,
        exists|i: int| 0 <= i < p.document.view.unwrap().configuration_sites.len()
            && p.document.view.unwrap().configuration_sites@[i] == s,
        p.document.configuration.shared ==> s.scope@ == "definition"@
            && exists|k: int| 0 <= k < s.usages.len()
                && #[trigger] s.usages[k].handle@ == p.document.configuration.selected.unwrap()@,
        !p.document.configuration.shared ==> s.usages.len() == 1
            && s.usages[0].handle@ == p.document.configuration.selected.unwrap()@,
        !p.document.configuration.shared && (exists|i: int| 0 <= i < p.document.view.unwrap().configuration_sites.len()
            && #[trigger] p.document.view.unwrap().configuration_sites@[i].scope@ == "reference"@
            && p.document.view.unwrap().configuration_sites@[i].usages.len() == 1
            && p.document.view.unwrap().configuration_sites@[i].usages[0].handle@ == p.document.configuration.selected.unwrap()@)
            ==> s.scope@ == "reference"@,
{
    let handle = p.document.configuration.selected.unwrap();
    let sites = p.document.view.unwrap().configuration_sites@;
    if p.document.configuration.shared {
        lemma_first_of_is_first(sites, shared_configuration(handle@));
        let i = choose|i: int| is_first(sites, shared_configuration(handle@), i)
            && first_of(sites, shared_configuration(handle@)) == Some(sites[i]);
        assert(sites[i] == s);
    } else {
        let inst = instance_configuration(handle@);
        let sole = sole_configuration(handle@);
        if first_of(sites, inst) is Some {
            lemma_first_of_is_first(sites, inst);
            let i = choose|i: int| is_first(sites, inst, i) && first_of(sites, inst) == Some(sites[i]);
            assert(sites[i] == s);
        } else {
            lemma_first_of_is_first(sites, sole);
            let i = choose|i: int| is_first(sites, sole, i) && first_of(sites, sole) == Some(sites[i]);
            assert(sites[i] == s);
            if exists|i: int| 0 <= i < sites.len() && #[trigger] sites[i].scope@ == "reference"@
                && sites[i].usages.len() == 1 && sites[i].usages[0].handle@ == handle@ {
                let k = choose|i: int| 0 <= i < sites.len() && #[trigger] sites[i].scope@ == "reference"@
                    && sites[i].usages.len() == 1 && sites[i].usages[0].handle@ == handle@;
                assert(inst(sites[k]));
                lemma_first_exists(sites, inst, k);
            }
        }
    }
}

/// The pattern site an edit addresses belongs to the pattern shown in the
/// piano roll: a definition of it, its sole reference, or the reference that
/// places exactly the selected clip.
pub proof fn lemma_pattern_site_belongs_to_pattern<N>(p: PreviewModel<N>, s: PatternSite)
    requires
        chosen_pattern_site(p) == Some(s),
    ensures
        p.piano_pattern is Some,
        p.selected_clip is Some,
        s.pattern_id@ == p.piano_pattern.unwrap()@,
        s.scope@ == "definition"@ || s.references == 1
            || (s.scope@ == "reference"@ && s.placements.len() == 1 && s.placements[0]@ == p.selected_clip.unwrap()@),
        s.scope@ == "definition"@ ==> p.document.edit_shared
            || exists|c: int| 0 <= c < p.project.unwrap().pattern_clips.len()
                && #[trigger] p.project.unwrap().pattern_clips@[c].id@ == p.selected_clip.unwrap()@
                && p.project.unwrap().pattern_clips@[c].pattern_id@ != s.pattern_id@
            || s.references == 1,
{
    let project = p.project.unwrap();
    let view = p.document.view.unwrap();
    let pattern = p.piano_pattern.unwrap();
    lemma_first_of_is_first(project.pattern_clips@, is_selected_clip(p.selected_clip));
    let clip = first_of(project.pattern_clips@, is_selected_clip(p.selected_clip)).unwrap();
    let c = choose|c: int| is_first(project.pattern_clips@, is_selected_clip(p.selected_clip), c)
        && first_of(project.pattern_clips@, is_selected_clip(p.selected_clip)) == Some(project.pattern_clips@[c]);
    let (first, second) = if p.document.edit_shared || pattern@ != clip.pattern_id@ {
        (site_rule(SiteRule::Definition, pattern@, clip.id@), site_rule(SiteRule::SoleReference, pattern@, clip.id@))
    } else {
        (site_rule(SiteRule::ClipReference, pattern@, clip.id@), site_rule(SiteRule::SoleReference, pattern@, clip.id@))
    };
    if first_of(view.sites@, first) is Some {
        lemma_first_of_is_first(view.sites@, first);
    } else {
        lemma_first_of_is_first(view.sites@, second);
    }
    assert(project.pattern_clips@[c] == clip);
    reveal_strlit("definition");
    reveal_strlit("reference");
    assert("definition"@[0] != "reference"@[0]);
    if s.scope@ == "definition"@ && !p.document.edit_shared && s.references != 1 {
        assert(pattern@ != clip.pattern_id@);
        assert(project.pattern_clips@[c].id@ == p.selected_clip.unwrap()@);
    }
}

// ----- observing the service -----

/// The diagnostic shown for an error of the service.
pub open spec fn diagnostic_of(error: DocumentError) -> Diagnostic {
    Diagnostic { code: error.code, message: error.message, path: None }
}

/// The status line for a view: its status, source revision and saved revision.
pub open spec fn view_status(view: DocumentView) -> Seq<char> {
    view.status@ + " · Source "@ + decimal(view.revision as nat) + " · Saved "@
        + signed_decimal(view.saved_revision as int)
}

/// The status line after the service accepted an edit.
pub open spec fn accepted_status(revision: u64) -> Seq<char> {
    "Source "@ + decimal(revision as nat) + " accepted"@
}

/// The new view belongs to another session than the shown one.
pub open spec fn restarts<N>(d: DocumentUi<N>, view: DocumentView) -> bool {
    d.view matches Some(old) && old.session_id@ != view.session_id@
}

/// The new view is of another session or revision than the shown one (or the first).
pub open spec fn changes<N>(d: DocumentUi<N>, view: DocumentView) -> bool {
    match d.view {
        Some(old) => old.session_id@ != view.session_id@ || old.revision != view.revision,
        None => true,
    }
}

/// The document state after a new view arrives.
pub open spec fn with_view<N>(d: DocumentUi<N>, view: DocumentView) -> DocumentUi<N> {
    let restart = restarts(d, view);
    let change = changes(d, view);
    DocumentUi {
        view: Some(view),
        pending: if restart { None } else { d.pending },
        error: match view.diagnostic {
            Some(e) => Some(diagnostic_of(e)),
            None => if change { None } else { d.error },
        },
        interaction: if change { no_interaction() } else { d.interaction },
        pending_notes: if restart { None } else { d.pending_notes },
        pending_note_source: if restart { false } else { d.pending_note_source },
        pending_note_pattern: d.pending_note_pattern,
        presentation_revision: if restart { None } else { d.presentation_revision },
        plugin_pending: if restart { false } else { d.plugin_pending },
        playlist_pending: if restart { false } else { d.playlist_pending },
        mixer_pending: if restart { false } else { d.mixer_pending },
        automation_pending: if restart { false } else { d.automation_pending },
        manager: PluginManager {
            assignment_pending: if restart { false } else { d.manager.assignment_pending },
            ..d.manager
        },
        edit_shared: d.edit_shared,
        configuration: d.configuration,
        automation: d.automation,
        serial: d.serial,
    }
}

/// The response answers the pending request of the shown session.
pub open spec fn answers_pending<N>(d: DocumentUi<N>, session_id: String, request_id: String) -> bool {
    &&& d.view matches Some(view) && view.session_id@ == session_id@
    &&& d.pending matches Some(pending) && pending@ == request_id@
}

/// An answer for a request whose presentation is already shown, or a refusal,
/// ends the pending presentation.
pub open spec fn ends_presentation<N>(d: DocumentUi<N>, accepted: bool, revision: u64) -> bool {
    !accepted || (d.presentation_revision matches Some(r) && r == revision + 1)
}

/// The document state after the answer to its pending request.
pub open spec fn with_answer<N>(d: DocumentUi<N>, accepted: bool, revision: u64, error: Option<DocumentError>) -> DocumentUi<N> {
    let stale = ends_presentation(d, accepted, revision);
    let assigned = d.manager.assignment_pending && accepted;
    DocumentUi {
        pending: None,
        mixer_pending: false,
        automation_pending: false,
        manager: PluginManager {
            open: if assigned { false } else { d.manager.open },
            assignment: if assigned { false } else { d.manager.assignment },
            assignment_pending: false,
        },
        plugin_pending: if stale { false } else { d.plugin_pending },
        playlist_pending: if stale { false } else { d.playlist_pending },
        pending_notes: if stale { None } else { d.pending_notes },
        pending_note_source: if stale { false } else { d.pending_note_source },
        pending_note_pattern: if stale { None } else { d.pending_note_pattern },
        presentation_revision: if stale { None } else { d.presentation_revision },
        error: if !accepted && error is Some { Some(diagnostic_of(error.unwrap())) } else { d.error },
        ..d
    }
}

/// The preview after a message of the service, before pending presentations settle.
pub open spec fn after_message<N>(p: PreviewModel<N>, message: DocumentMessage) -> PreviewModel<N> {
    let p0 = PreviewModel { close: observed_model(p.close, message), ..p };
    match message {
        DocumentMessage::Event { view, .. } => PreviewModel {
            document: with_view(p0.document, view),
            status: view_status(view),
            ..p0
        },
        DocumentMessage::Response { session_id, request_id, accepted, revision, error, .. } =>
            if answers_pending(p0.document, session_id, request_id) {
                PreviewModel {
                    document: with_answer(p0.document, accepted, revision, error),
                    status: if accepted { accepted_status(revision) } else { p0.status },
                    ..p0
                }
            } else {
                p0
            },
    }
}

/// An accepted plugin assignment completes with this message.
pub open spec fn completes_assignment<N>(p: PreviewModel<N>, message: DocumentMessage) -> bool {
    message matches DocumentMessage::Response { session_id, request_id, accepted, .. }
        && accepted && answers_pending(p.document, session_id, request_id)
        && p.document.manager.assignment_pending
}

/// The status line for a view.
fn status_line(view: &DocumentView) -> (status: String)
    ensures
        status@ == view_status(*view),
{
    let mut status = view.status.clone();
    push_str(&mut status, " · Source ");
    push_decimal(&mut status, view.revision);
    push_str(&mut status, " · Saved ");
    push_signed_decimal(&mut status, view.saved_revision);
    proof {
        reveal_strlit(" · Source ");
        reveal_strlit(" · Saved ");
    }
    status
}

/// The status line after an accepted edit.
fn accepted_line(revision: u64) -> (status: String)
    ensures
        status@ == accepted_status(revision),
{
    let mut status = String::new();
    push_str(&mut status, "Source ");
    push_decimal(&mut status, revision);
    push_str(&mut status, " accepted");
    proof {
        reveal_strlit("Source ");
        reveal_strlit(" accepted");
    }
    status
}

impl<N> DocumentUi<N> {
    fn apply_view(&mut self, view: DocumentView)
        ensures
            *final(self) == with_view(*old(self), view),
    {
        let (restarted, changed) = match &self.view {
            Some(old) => {
                let other_session = !old.session_id.eq(&view.session_id);
                (other_session, other_session || old.revision != view.revision)
            },
            None => (false, true),
        };
        if restarted {
            self.pending = None;
            self.plugin_pending = false;
            self.pending_notes = None;
            self.playlist_pending = false;
            self.pending_note_source = false;
            self.presentation_revision = None;
            self.mixer_pending = false;
            self.manager.assignment_pending = false;
            self.automation_pending = false;
        }
        if changed {
            self.interaction = Interaction::none();
            self.error = None;
        }
        if let Some(error) = &view.diagnostic {
            self.error = Some(Diagnostic {
                code: error.code.clone(),
                message: error.message.clone(),
                path: None,
            });
        }
        self.view = Some(view);
    }

    fn apply_answer(&mut self, accepted: bool, revision: u64, error: Option<DocumentError>) -> (assignment_done: bool)
        ensures
            *final(self) == with_answer(*old(self), accepted, revision, error),
            assignment_done == (accepted && old(self).manager.assignment_pending),
    {
        let mut assignment_done = false;
        self.pending = None;
        self.mixer_pending = false;
        if self.manager.assignment_pending {
            self.manager.assignment_pending = false;
            if accepted {
                self.manager.assignment = false;
                self.manager.open = false;
                assignment_done = true;
            }
        }
        let presented_next = match self.presentation_revision {
            Some(r) => revision < u64::MAX && r == revision + 1,
            None => false,
        };
        if !accepted || presented_next {
            self.plugin_pending = false;
            self.playlist_pending = false;
            self.pending_notes = None;
            self.pending_note_source = false;
            self.pending_note_pattern = None;
            self.presentation_revision = None;
        }
        self.automation_pending = false;
        if !accepted {
            if let Some(error) = error {
                self.error = Some(Diagnostic { code: error.code, message: error.message, path: None });
            }
        }
        assignment_done
    }
}

impl<N> Preview<N> {
    /// Applies a message of the service. Returns the note edit whose selection
    /// is to be restored, and whether an accepted plugin assignment completed
    /// (its window is then forgotten).
    pub fn observe_document(&mut self, message: DocumentMessage) -> (outcome: (Option<N>, bool))
        ensures
            final(self)@ == settled(after_message(old(self)@, message)),
            outcome.0 == settled_notes(after_message(old(self)@, message)),
            outcome.1 == completes_assignment(old(self)@, message),
    {
        let ghost before = self@;
        self.close.observe(&message);
        let mut assignment_done = false;
        match message {
            DocumentMessage::Event { view, .. } => {
                self.status = status_line(&view);
                self.document.apply_view(view);
            },
            DocumentMessage::Response { session_id, request_id, accepted, error, revision, .. } => {
                let same_session = match &self.document.view {
                    Some(view) => view.session_id.eq(&session_id),
                    None => false,
                };
                let awaited = match &self.document.pending {
                    Some(pending) => pending.eq(&request_id),
                    None => false,
                };
                if same_session && awaited {
                    assignment_done = self.document.apply_answer(accepted, revision, error);
                    if accepted {
                        self.status = accepted_line(revision);
                    }
                }
            },
        }
        assert(self@ == after_message(before, message));
        let restore = self.settle_presentation();
        (restore, assignment_done)
    }
}

// ----- requests -----

/// Source-level operations need only an idle, open service; every other
/// operation needs a ready document.
pub open spec fn operation_ready<N, E>(p: PreviewModel<N>, operation: DocumentOperation<E>) -> bool {
    if is_source_level(operation) {
        &&& p.document.pending is None
        &&& p.document.view matches Some(view) && !view.saving && view.status@ != "closed"@
            && view.status@ != "building"@
    } else {
        ready(p)
    }
}

/// The identifier of the `serial`-th request of a session.
pub open spec fn request_id_for(session: Seq<char>, serial: u64) -> Seq<char> {
    "stream/gpui-"@ + session + "/"@ + decimal(serial as nat)
}

/// The request that an operation becomes on the shown view, as the `serial`-th.
pub open spec fn request_for<E>(view: DocumentView, serial: u64, operation: DocumentOperation<E>, request: DocumentRequest<E>) -> bool {
    &&& request.document_protocol_version@ == protocol_version()
    &&& request.session_id@ == view.session_id@
    &&& request.request_id@ == request_id_for(view.session_id@, serial)
    &&& request.base_revision == view.revision
    &&& request.operation == operation
}

/// The preview after a request was made: its serial counts one more.
pub open spec fn requested_model<N>(p: PreviewModel<N>) -> PreviewModel<N> {
    PreviewModel { document: DocumentUi { serial: (p.document.serial + 1) as u64, ..p.document }, ..p }
}

/// The preview after a request went out: it is pending, with no error, and
/// the project shown presents its outcome.
pub open spec fn sent_model<N>(p: PreviewModel<N>, request_id: String) -> PreviewModel<N> {
    PreviewModel {
        document: DocumentUi {
            error: None,
            pending: Some(request_id),
            presentation_revision: match p.project {
                Some(project) => Some(project.revision),
                None => None,
            },
            ..p.document
        },
        ..p
    }
}

fn request_name(session: &String, serial: u64) -> (id: String)
    ensures
        id@ == request_id_for(session@, serial),
{
    let mut id = String::new();
    push_str(&mut id, "stream/gpui-");
    push_str(&mut id, session.as_str());
    push_str(&mut id, "/");
    push_decimal(&mut id, serial);
    proof {
        reveal_strlit("stream/gpui-");
        reveal_strlit("/");
        assert(id@ =~= request_id_for(session@, serial));
    }
    id
}

impl<N> Preview<N> {
    pub fn document_operation_ready<E>(&self, operation: &DocumentOperation<E>) -> (allowed: bool)
        ensures
            allowed == operation_ready(self@, *operation),
    {
        proof {
            reveal_strlit("closed");
            reveal_strlit("building");
        }
        if operation.source_level() {
            self.document.pending.is_none() && match &self.document.view {
                Some(view) => !view.saving && !text_is(&view.status, "closed")
                    && !text_is(&view.status, "building"),
                None => false,
            }
        } else {
            self.document_ready()
        }
    }

    /// Turns an operation into the next request on the shown view, when the
    /// operation may run now. The caller sends it and reports a successful
    /// send with `record_sent`.
    pub fn document_request<E>(&mut self, operation: DocumentOperation<E>) -> (request: Option<DocumentRequest<E>>)
        requires
            operation_ready(old(self)@, operation) ==> old(self).document.serial < u64::MAX,
        ensures
            match request {
                Some(r) => {
                    &&& operation_ready(old(self)@, operation)
                    &&& old(self).document.view matches Some(view)
                        && request_for(view, (old(self).document.serial + 1) as u64, operation, r)
                    &&& final(self)@ == requested_model(old(self)@)
                },
                None => !operation_ready(old(self)@, operation) && final(self)@ == old(self)@,
            },
    {
        if !self.document_operation_ready(&operation) {
            return None;
        }
        let (session_id, base_revision) = match &self.document.view {
            Some(view) => (view.session_id.clone(), view.revision),
            None => { return None; },
        };
        self.document.serial = self.document.serial + 1;
        let request_id = request_name(&session_id, self.document.serial);
        proof { reveal_strlit("2.0"); }
        Some(DocumentRequest {
            document_protocol_version: String::from_str("2.0"),
            session_id,
            request_id,
            base_revision,
            operation,
        })
    }

    /// A request went out: it is now the pending one, and the project shown
    /// at this moment presents its outcome until the answer arrives.
    pub fn record_sent(&mut self, request_id: String)
        ensures
            final(self)@ == sent_model(old(self)@, request_id),
    {
        self.document.error = None;
        self.document.pending = Some(request_id);
        self.document.presentation_revision = match &self.project {
            Some(project) => Some(project.revision),
            None => None,
        };
    }
}

// ----- laws -----

/// Requests of one session carry distinct identifiers for distinct serials, so
/// every answer is correlated with exactly one request.
pub proof fn lemma_request_ids_distinct(session: Seq<char>, a: u64, b: u64)
    requires
        a != b,
    ensures
        request_id_for(session, a) != request_id_for(session, b),
{
    let prefix = "stream/gpui-"@ + session + "/"@;
    if request_id_for(session, a) == request_id_for(session, b) {
        assert(request_id_for(session, a) == prefix + decimal(a as nat));
        assert(request_id_for(session, b) == prefix + decimal(b as nat));
        assert((prefix + decimal(a as nat)).subrange(prefix.len() as int, (prefix + decimal(a as nat)).len() as int) =~= decimal(a as nat));
        assert((prefix + decimal(b as nat)).subrange(prefix.len() as int, (prefix + decimal(b as nat)).len() as int) =~= decimal(b as nat));
        crate::text::lemma_decimal_injective(a as nat, b as nat);
    }
}

/// While a request is pending, no further operation may be requested.
pub proof fn lemma_one_request_at_a_time<N, E>(p: PreviewModel<N>, operation: DocumentOperation<E>)
    requires
        p.document.pending is Some,
    ensures
        !operation_ready(p, operation),
        !ready(p),
{
}

/// The answer to the pending request ends the wait for it.
pub proof fn lemma_answer_clears_pending<N>(p: PreviewModel<N>, message: DocumentMessage)
    requires
        message matches DocumentMessage::Response { session_id, request_id, .. }
            && answers_pending(p.document, session_id, request_id),
    ensures
        after_message(p, message).document.pending is None,
{
}

/// A refused edit drops its presentation and shows the service's error.
pub proof fn lemma_refusal_drops_presentation<N>(p: PreviewModel<N>, message: DocumentMessage)
    requires
        message matches DocumentMessage::Response { session_id, request_id, accepted, error, .. }
            && answers_pending(p.document, session_id, request_id) && !accepted && error is Some,
    ensures
        after_message(p, message).document.presentation_revision is None,
        after_message(p, message).document.pending_notes is None,
        after_message(p, message).document.error == Some(diagnostic_of(message->Response_error.unwrap())),
{
}

/// Answers to other requests, or of other sessions, change nothing but the close state.
pub proof fn lemma_unrelated_answers_ignored<N>(p: PreviewModel<N>, message: DocumentMessage)
    requires
        message matches DocumentMessage::Response { session_id, request_id, .. }
            && !answers_pending(p.document, session_id, request_id),
    ensures
        after_message(p, message) == (PreviewModel { close: observed_model(p.close, message), ..p }),
{
}

/// A view of a restarted session drops the old session's pending request and presentations.
pub proof fn lemma_restart_forgets_requests<N>(d: DocumentUi<N>, view: DocumentView)
    requires
        restarts(d, view),
    ensures
        with_view(d, view).pending is None,
        with_view(d, view).presentation_revision is None,
        with_view(d, view).pending_notes is None,
        with_view(d, view).interaction == no_interaction(),
{
}

/// Every view is shown as it arrives, and the status line reports its revisions.
pub proof fn lemma_view_is_shown<N>(p: PreviewModel<N>, message: DocumentMessage)
    requires
        message is Event,
    ensures
        after_message(p, message).document.view == Some(message->Event_view),
        after_message(p, message).status == view_status(message->Event_view),
{
}

/// Settling is idempotent: a settled preview has nothing more to settle.
pub proof fn lemma_settle_idempotent<N>(p: PreviewModel<N>)
    ensures
        settled(settled(p)) == settled(p),
        settled_notes(settled(p)) is None,
{
}

// ----- request history -----

/// One call on the preview's document state: `document_request` with an
/// operation, `observe_document` with a message, or `record_sent` with the
/// identifier of the request that went out.
pub enum PreviewStep<E> {
    Request { operation: DocumentOperation<E> },
    Observe { message: DocumentMessage },
    Sent { request_id: String },
}

/// The preview after one call.
pub open spec fn after_step<N, E>(p: PreviewModel<N>, step: PreviewStep<E>) -> PreviewModel<N> {
    match step {
        PreviewStep::Request { operation } => if operation_ready(p, operation) { requested_model(p) } else { p },
        PreviewStep::Observe { message } => settled(after_message(p, message)),
        PreviewStep::Sent { request_id } => sent_model(p, request_id),
    }
}

/// The preview after the calls, in order.
pub open spec fn run_preview<N, E>(p: PreviewModel<N>, steps: Seq<PreviewStep<E>>) -> PreviewModel<N>
    decreases steps.len(),
{
    if steps.len() == 0 {
        p
    } else {
        after_step(run_preview(p, steps.drop_last()), steps.last())
    }
}

/// The call is a `document_request` whose operation may run in the state the
/// calls before it left.
pub open spec fn passes<N, E>(p: PreviewModel<N>, steps: Seq<PreviewStep<E>>, i: int) -> bool {
    steps[i] matches PreviewStep::Request { operation }
        && operation_ready(run_preview(p, steps.take(i)), operation)
}

/// How many calls of `document_request` passed the readiness check.
pub open spec fn passed_count<N, E>(p: PreviewModel<N>, steps: Seq<PreviewStep<E>>) -> nat
    decreases steps.len(),
{
    if steps.len() == 0 {
        0
    } else {
        passed_count(p, steps.drop_last()) + if passes(p, steps, steps.len() - 1) { 1nat } else { 0 }
    }
}

/// The request serial counts exactly the calls of `document_request` that
/// passed the readiness check: observing messages and recording sends never
/// change it, and a refused request leaves it as it was. So the request made by
/// the call at `i`, when it passes, is the `n + 1`-th, where `n` requests passed
/// before it, and its identifier is `request_id_for(session, start + n + 1)`.
pub proof fn lemma_request_serial_history<N, E>(p: PreviewModel<N>, steps: Seq<PreviewStep<E>>)
    requires
        p.document.serial + passed_count(p, steps) <= u64::MAX,
    ensures
        run_preview(p, steps).document.serial == p.document.serial + passed_count(p, steps),
        forall|i: int| 0 <= i < steps.len() && #[trigger] passes(p, steps, i) ==>
            run_preview(p, steps.take(i)).document.serial + 1 == p.document.serial + passed_count(p, steps.take(i + 1)),
    decreases steps.len(),
{
    if steps.len() > 0 {
        let init = steps.drop_last();
        let n = steps.len() - 1;
        assert(init == steps.take(n));
        assert(forall|i: int| 0 <= i <= n ==> #[trigger] init.take(i) == steps.take(i));
        assert forall|i: int| 0 <= i < n implies #[trigger] passes(p, init, i) == passes(p, steps, i) by {
            assert(init.take(i) == steps.take(i));
        }
        lemma_passed_count_prefix(p, steps, n);
        lemma_request_serial_history(p, init);
        assert(steps.take(n + 1) == steps);
        assert forall|i: int| 0 <= i < steps.len() && #[trigger] passes(p, steps, i) implies
            run_preview(p, steps.take(i)).document.serial + 1 == p.document.serial + passed_count(p, steps.take(i + 1)) by {
            if i < n {
                assert(passes(p, init, i));
                assert(init.take(i + 1) == steps.take(i + 1));
            }
        }
    }
}

/// Counting over a prefix of the calls counts what the prefix alone counts.
proof fn lemma_passed_count_prefix<N, E>(p: PreviewModel<N>, steps: Seq<PreviewStep<E>>, n: int)
    requires
        0 <= n <= steps.len(),
    ensures
        passed_count(p, steps.take(n)) <= passed_count(p, steps),
    decreases steps.len(),
{
    if n < steps.len() {
        assert(steps.drop_last().take(n) == steps.take(n));
        lemma_passed_count_prefix(p, steps.drop_last(), n);
        assert(passed_count(p, steps) >= passed_count(p, steps.drop_last()));
    } else {
        assert(steps.take(n) == steps);
    }
}

// ----- effect order and arrangement positions -----

/// A reordering of an owner's effect chain, addressed by the owner's position
/// in the source: the new order lists old slot indices.
#[derive(Clone, Debug)]
pub struct EffectOrderEdit {
    pub owner: String,
    pub index: usize,
    pub order: Vec<usize>,
}

pub open spec fn is_owner(id: Seq<char>) -> spec_fn(EffectOwner) -> bool {
    |owner: EffectOwner| owner.id@ == id
}

pub open spec fn is_name(id: Seq<char>) -> spec_fn(String) -> bool {
    |name: String| name@ == id
}

pub open spec fn is_slot(id: Seq<char>) -> spec_fn(Option<String>) -> bool {
    |slot: Option<String>| slot matches Some(x) && x@ == id
}

/// The effect chain of the channel, or else the bus, with this id.
pub open spec fn owner_chain(project: ProjectModel, owner: Seq<char>) -> Option<Seq<Option<String>>> {
    match first_of(project.channels@, is_owner(owner)) {
        Some(channel) => Some(channel.effects@),
        None => match first_of(project.mixer_channels@, is_owner(owner)) {
            Some(bus) => Some(bus.effects@),
            None => None,
        },
    }
}

/// Every slot of the chain has an instance id.
pub open spec fn all_identified(chain: Seq<Option<String>>) -> bool {
    forall|i: int| 0 <= i < chain.len() ==> #[trigger] chain[i] is Some
}

/// The instance ids of a fully identified chain.
pub open spec fn chain_ids(chain: Seq<Option<String>>) -> Seq<Seq<char>> {
    Seq::new(chain.len(), |i: int| chain[i].unwrap()@)
}

/// The ids with the entries at `a` and `b` exchanged.
pub open spec fn swapped(ids: Seq<Seq<char>>, a: int, b: int) -> Seq<Seq<char>> {
    ids.update(a, ids[b]).update(b, ids[a])
}

/// The edit that moves `instance` one step earlier (`direction` -1) or later
/// (+1) in its owner's chain, when the owner, the instance and the destination
/// exist, every slot has an instance id, and the source lists the owner.
pub open spec fn reorder_edit<N>(p: PreviewModel<N>, owner: Seq<char>, instance: Seq<char>, direction: int, edit: EffectOrderEdit) -> bool {
    match (p.document.view, p.project) {
        (Some(view), Some(project)) => match (view.arrangement_order, owner_chain(project, owner)) {
            (Some(order), Some(chain)) => match first_index(chain, is_slot(instance)) {
                Some(index) => {
                    &&& all_identified(chain)
                    &&& 0 <= index + direction < chain.len()
                    &&& edit.order.len() == chain.len()
                    &&& forall|k: int| 0 <= k < chain.len()
                        ==> is_first(chain, is_slot(swapped(chain_ids(chain), index, index + direction)[k]), #[trigger] edit.order[k] as int)
                    &&& match first_index(order.channels@, is_name(owner)) {
                        Some(i) => edit.owner@ == "channel"@ && edit.index == i,
                        None => edit.owner@ == "bus"@ && first_index(order.mixer_channels@, is_name(owner)) == Some(edit.index as int),
                    }
                },
                None => false,
            },
            _ => false,
        },
        _ => false,
    }
}

fn find_owner<'a>(owners: &'a Vec<EffectOwner>, id: &String) -> (found: Option<&'a EffectOwner>)
    ensures
        match found {
            Some(o) => first_of(owners@, is_owner(id@)) == Some(*o),
            None => first_of(owners@, is_owner(id@)) is None,
        },
{
    let ghost p = is_owner(id@);
    let mut i: usize = 0;
    while i < owners.len()
        invariant
            i <= owners.len(),
            p == is_owner(id@),
            forall|j: int| 0 <= j < i ==> !p(#[trigger] owners@[j]),
        decreases owners.len() - i,
    {
        if owners[i].id.eq(id) {
            proof { lemma_first_found(owners@, p, i as int); }
            return Some(&owners[i]);
        }
        i = i + 1;
    }
    proof { lemma_first_absent(owners@, p); }
    None
}

/// The position of `id` in a list of names.
pub fn position_of(names: &Vec<String>, id: &String) -> (found: Option<usize>)
    ensures
        match found {
            Some(i) => first_index(names@, is_name(id@)) == Some(i as int),
            None => first_index(names@, is_name(id@)) is None,
        },
{
    let ghost p = is_name(id@);
    let mut i: usize = 0;
    while i < names.len()
        invariant
            i <= names.len(),
            p == is_name(id@),
            forall|j: int| 0 <= j < i ==> !p(#[trigger] names@[j]),
        decreases names.len() - i,
    {
        if names[i].eq(id) {
            proof { lemma_first_found(names@, p, i as int); }
            return Some(i);
        }
        i = i + 1;
    }
    proof { lemma_first_absent(names@, p); }
    None
}

fn slot_of(chain: &Vec<Option<String>>, id: &String) -> (found: Option<usize>)
    ensures
        match found {
            Some(i) => first_index(chain@, is_slot(id@)) == Some(i as int),
            None => first_index(chain@, is_slot(id@)) is None,
        },
{
    let ghost p = is_slot(id@);
    let mut i: usize = 0;
    while i < chain.len()
        invariant
            i <= chain.len(),
            p == is_slot(id@),
            forall|j: int| 0 <= j < i ==> !p(#[trigger] chain@[j]),
        decreases chain.len() - i,
    {
        let hit = match &chain[i] {
            Some(x) => x.eq(id),
            None => false,
        };
        if hit {
            proof { lemma_first_found(chain@, p, i as int); }
            return Some(i);
        }
        i = i + 1;
    }
    proof { lemma_first_absent(chain@, p); }
    None
}

/// The instance ids of the chain, when every slot has one.
fn identified(chain: &Vec<Option<String>>) -> (ids: Option<Vec<String>>)
    ensures
        match ids {
            Some(v) => all_identified(chain@) && v.len() == chain.len()
                && forall|i: int| 0 <= i < chain.len() ==> #[trigger] v@[i]@ == chain_ids(chain@)[i],
            None => !all_identified(chain@),
        },
{
    let mut ids: Vec<String> = Vec::new();
    let mut i: usize = 0;
    while i < chain.len()
        invariant
            i <= chain.len(),
            ids.len() == i,
            forall|j: int| 0 <= j < i ==> #[trigger] chain@[j] is Some,
            forall|j: int| 0 <= j < i ==> #[trigger] ids@[j]@ == chain@[j].unwrap()@,
        decreases chain.len() - i,
    {
        match &chain[i] {
            Some(id) => ids.push(id.clone()),
            None => { return None; },
        }
        i = i + 1;
    }
    Some(ids)
}

impl<N> Preview<N> {
    /// The edit that moves an effect one slot earlier or later in its owner's chain.
    pub fn effect_order_operation(&self, owner: &String, instance: &String, direction: isize) -> (edit: Option<EffectOrderEdit>)
        ensures
            match edit {
                Some(e) => reorder_edit(self@, owner@, instance@, direction as int, e),
                None => forall|e: EffectOrderEdit| !reorder_edit(self@, owner@, instance@, direction as int, e),
            },
    {
        proof {
            reveal_strlit("channel");
            reveal_strlit("bus");
        }
        let view = match &self.document.view { Some(v) => v, None => { return None; } };
        let builder_order = match &view.arrangement_order { Some(o) => o, None => { return None; } };
        let project = match &self.project { Some(p) => p, None => { return None; } };
        let chain = match find_owner(&project.channels, owner) {
            Some(channel) => &channel.effects,
            None => match find_owner(&project.mixer_channels, owner) {
                Some(bus) => &bus.effects,
                None => { return None; },
            },
        };
        assert(owner_chain(*project, owner@) == Some(chain@));
        let mut ids = match identified(chain) { Some(ids) => ids, None => { return None; } };
        let index = match slot_of(chain, instance) { Some(i) => i, None => { return None; } };
        assert(first_index(chain@, is_slot(instance@)) == Some(index as int));
        assert(index < chain.len()) by {
            assert(is_first(chain@, is_slot(instance@), index as int)) by {
                let i = choose|i: int| is_first(chain@, is_slot(instance@), i);
            }
        }
        let target: i128 = index as i128 + direction as i128;
        if target < 0 || target >= chain.len() as i128 {
            assert forall|e: EffectOrderEdit| !reorder_edit(self@, owner@, instance@, direction as int, e) by {
                assert(self@.project == Some(*project));
                assert(self@.document.view == Some(*view));
            }
            return None;
        }
        let destination: usize = target as usize;
        let a = ids[index].clone();
        let b = ids[destination].clone();
        ids.set(index, b);
        ids.set(destination, a);
        let ghost moved = swapped(chain_ids(chain@), index as int, destination as int);
        assert forall|k: int| 0 <= k < ids.len() implies #[trigger] ids@[k]@ == moved[k] by {}
        let mut order: Vec<usize> = Vec::new();
        let mut k: usize = 0;
        while k < ids.len()
            invariant
                k <= ids.len(),
                ids.len() == chain.len(),
                index < chain.len(),
                destination < chain.len(),
                order.len() == k,
                all_identified(chain@),
                moved == swapped(chain_ids(chain@), index as int, destination as int),
                forall|j: int| 0 <= j < ids.len() ==> #[trigger] ids@[j]@ == moved[j],
                forall|j: int| 0 <= j < k ==> is_first(chain@, is_slot(moved[j]), #[trigger] order@[j] as int),
            decreases ids.len() - k,
        {
            let ghost target = moved[k as int];
            match slot_of(chain, &ids[k]) {
                Some(slot) => {
                    proof {
                        let i = first_index(chain@, is_slot(target)).unwrap();
                        assert(is_first(chain@, is_slot(target), i)) by {
                            crate::search::lemma_first_exists(chain@, is_slot(target), slot as int);
                        }
                    }
                    order.push(slot);
                },
                None => {
                    proof {
                        // every id of the chain names one of its slots
                        let j: int = if k as int == index as int { destination as int } else if k as int == destination as int { index as int } else { k as int };
                        assert(chain@[j] is Some);
                        assert(is_slot(target)(chain@[j]));
                        crate::search::lemma_first_exists(chain@, is_slot(target), j);
                    }
                    return None;
                },
            }
            k = k + 1;
        }
        let channel = position_of(&builder_order.channels, owner);
        let (kind, owner_index) = match channel {
            Some(i) => (String::from_str("channel"), i),
            None => match position_of(&builder_order.mixer_channels, owner) {
                Some(i) => (String::from_str("bus"), i),
                None => {
                    return None;
                },
            },
        };
        Some(EffectOrderEdit { owner: kind, index: owner_index, order })
    }
}

/// Which list of the source order an edit addresses.
#[derive(Clone, Copy, Debug, PartialEq, Eq)]
pub enum OrderList {
    Tracks,
    Channels,
    Buses,
}

/// The position of `id` in the chosen list of the shown view's source order.
pub open spec fn order_position<N>(p: PreviewModel<N>, list: OrderList, id: Seq<char>) -> Option<int> {
    match p.document.view {
        Some(view) => match view.arrangement_order {
            Some(order) => first_index(match list {
                OrderList::Tracks => order.tracks@,
                OrderList::Channels => order.channels@,
                OrderList::Buses => order.mixer_channels@,
            }, is_name(id)),
            None => None,
        },
        None => None,
    }
}

impl<N> Preview<N> {
    /// The index by which a project edit addresses a track, channel or bus.
    pub fn order_index(&self, list: OrderList, id: &String) -> (index: Option<usize>)
        ensures
            match index {
                Some(i) => order_position(self@, list, id@) == Some(i as int),
                None => order_position(self@, list, id@) is None,
            },
    {
        let view = match &self.document.view { Some(v) => v, None => { return None; } };
        let order = match &view.arrangement_order { Some(o) => o, None => { return None; } };
        match list {
            OrderList::Tracks => position_of(&order.tracks, id),
            OrderList::Channels => position_of(&order.channels, id),
            OrderList::Buses => position_of(&order.mixer_channels, id),
        }
    }
}

impl<N> DocumentUi<N> {
    /// No view yet, nothing pending, nothing selected.
    pub fn new() -> (d: DocumentUi<N>)
        ensures
            d.view is None,
            d.pending is None,
            d.error is None,
            d.interaction == no_interaction(),
            d.pending_notes is None,
            !d.pending_note_source,
            d.pending_note_pattern is None,
            d.presentation_revision is None,
            !d.plugin_pending && !d.playlist_pending && !d.mixer_pending && !d.automation_pending,
            d.manager == (PluginManager { open: false, assignment: false, assignment_pending: false }),
            !d.edit_shared,
            d.configuration.selected is None && !d.configuration.shared,
            d.automation.selected is None && !d.automation.shared,
            d.serial == 0,
    {
        DocumentUi {
            view: None,
            pending: None,
            error: None,
            interaction: Interaction::none(),
            pending_notes: None,
            pending_note_source: false,
            pending_note_pattern: None,
            presentation_revision: None,
            plugin_pending: false,
            playlist_pending: false,
            mixer_pending: false,
            automation_pending: false,
            manager: PluginManager { open: false, assignment: false, assignment_pending: false },
            edit_shared: false,
            configuration: Selection { selected: None, shared: false },
            automation: Selection { selected: None, shared: false },
            serial: 0,
        }
    }
}

/// The name of what a pattern edit applies to.
pub open spec fn scope_name<N>(p: PreviewModel<N>) -> Seq<char> {
    if p.composite_selected {
        "Pattern part"@
    } else if p.document.edit_shared {
        "Shared definition"@
    } else {
        "This clip"@
    }
}

impl<N> Preview<N> {
    /// What a pattern edit applies to: a part of a composite pattern, the
    /// shared definition, or this clip.
    pub fn scope_label(&self) -> (label: &'static str)
        ensures
            label@ == scope_name(self@),
    {
        if self.composite_selected {
            proof { reveal_strlit("Pattern part"); }
            "Pattern part"
        } else if self.document.edit_shared {
            proof { reveal_strlit("Shared definition"); }
            "Shared definition"
        } else {
            proof { reveal_strlit("This clip"); }
            "This clip"
        }
    }

    /// Switches pattern edits between this clip and the shared definition (a
    /// composite pattern's part stays as it is); the note selection and gesture end.
    pub fn toggle_edit_scope(&mut self)
        ensures
            final(self)@ == (PreviewModel {
                document: DocumentUi {
                    edit_shared: if old(self).composite_selected { old(self).document.edit_shared } else { !old(self).document.edit_shared },
                    interaction: Interaction { note_selection: false, note_gesture: false, ..old(self).document.interaction },
                    ..old(self)@.document
                },
                ..old(self)@
            }),
    {
        if !self.composite_selected {
            self.document.edit_shared = !self.document.edit_shared;
        }
        self.document.interaction.note_selection = false;
        self.document.interaction.note_gesture = false;
    }
}

} // verus!
