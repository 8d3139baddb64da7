//! Closing a document requires its own Save acknowledgement and the matching clean view.
use vstd::prelude::*;
use crate::document_wire::{DocumentError, DocumentMessage, DocumentView, text_is};

verus! {

/// The save that a close waits for: which request, for which session and revision,
/// and whether the service has accepted it.
pub struct Save {
    pub request: String,
    pub session: String,
    pub revision: u64,
    pub acknowledged: bool,
}

/// What a close waits for, as values.
pub struct SaveModel {
    pub request: Seq<char>,
    pub session: Seq<char>,
    pub revision: u64,
    pub acknowledged: bool,
}

/// The close state as values: whether the close dialog is open, the error it
/// shows, and the save it waits for.
pub struct CloseModel {
    pub open: bool,
    pub error: Option<Seq<char>>,
    pub save: Option<SaveModel>,
}

pub struct CloseState {
    pub open: bool,
    pub error: Option<String>,
    pub save: Option<Save>,
}

impl View for Save {
    type V = SaveModel;

    open spec fn view(&self) -> SaveModel {
        SaveModel {
            request: self.request@,
            session: self.session@,
            revision: self.revision,
            acknowledged: self.acknowledged,
        }
    }
}

pub open spec fn error_text(error: Option<String>) -> Option<Seq<char>> {
    match error {
        Some(e) => Some(e@),
        None => None,
    }
}

impl View for CloseState {
    type V = CloseModel;

    open spec fn view(&self) -> CloseModel {
        CloseModel {
            open: self.open,
            error: error_text(self.error),
            save: match self.save {
                Some(save) => Some(save@),
                None => None,
            },
        }
    }
}

/// Nothing open, no error, no save awaited.
pub open spec fn idle_model() -> CloseModel {
    CloseModel { open: false, error: None, save: None }
}

pub open spec fn save_failed_message() -> Seq<char> {
    "Save failed. Your draft is still open."@
}

pub open spec fn project_changed_message() -> Seq<char> {
    "The project changed while saving. Review the latest changes before closing."@
}

/// The state after `begin_save` with this request and view.
pub open spec fn begun_model(model: CloseModel, request: Seq<char>, view: DocumentView) -> CloseModel {
    CloseModel {
        open: model.open,
        error: None,
        save: Some(SaveModel {
            request,
            session: view.session_id@,
            revision: view.revision,
            acknowledged: false,
        }),
    }
}

/// The message answers the awaited save request.
pub open spec fn answers_save(save: SaveModel, message: DocumentMessage) -> bool {
    message matches DocumentMessage::Response { request_id, session_id, .. }
        && request_id@ == save.request && session_id@ == save.session
}

/// The message is a view of another session or another revision than the one saved.
pub open spec fn moves_away(save: SaveModel, message: DocumentMessage) -> bool {
    message matches DocumentMessage::Event { view, .. }
        && (view.session_id@ != save.session || view.revision != save.revision)
}

/// The text shown when the service refuses the save.
pub open spec fn refusal_text(error: Option<DocumentError>) -> Seq<char> {
    match error {
        Some(e) => e.message@,
        None => save_failed_message(),
    }
}

/// The state after observing a message.
pub open spec fn observed_model(model: CloseModel, message: DocumentMessage) -> CloseModel {
    match model.save {
        None => model,
        Some(save) => if answers_save(save, message) {
            match message {
                DocumentMessage::Response { accepted, error, .. } => if accepted {
                    CloseModel { save: Some(SaveModel { acknowledged: true, ..save }), ..model }
                } else {
                    CloseModel { error: Some(refusal_text(error)), save: None, ..model }
                },
                _ => model,
            }
        } else if moves_away(save, message) {
            CloseModel { error: Some(project_changed_message()), save: None, ..model }
        } else {
            model
        },
    }
}

/// The document may close now: its save was acknowledged, nothing is pending,
/// and the view is the clean, ready view of the saved session and revision.
pub open spec fn completes(model: CloseModel, view: Option<DocumentView>, pending: bool) -> bool {
    match (model.save, view) {
        (Some(save), Some(view)) => {
            &&& save.acknowledged
            &&& !pending
            &&& !view.modified
            &&& !view.saving
            &&& view.status@ == "ready"@
            &&& view.session_id@ == save.session
            &&& view.revision == save.revision
            &&& view.saved_revision >= 0
            &&& view.saved_revision == save.revision
        },
        _ => false,
    }
}

impl CloseState {
    /// A closed dialog with no error and no save awaited.
    pub fn new() -> (state: CloseState)
        ensures
            state@ == idle_model(),
    {
        CloseState { open: false, error: None, save: None }
    }

    pub fn saving(&self) -> (saving: bool)
        ensures
            saving == self@.save.is_some(),
    {
        self.save.is_some()
    }

    pub fn cancel(&mut self)
        ensures
            final(self)@ == idle_model(),
    {
        *self = CloseState::new();
    }

    pub fn begin_save(&mut self, request: String, view: &DocumentView)
        ensures
            final(self)@ == begun_model(old(self)@, request@, *view),
    {
        self.error = None;
        self.save = Some(Save {
            request,
            session: view.session_id.clone(),
            revision: view.revision,
            acknowledged: false,
        });
    }

    pub fn observe(&mut self, message: &DocumentMessage)
        ensures
            final(self)@ == observed_model(old(self)@, *message),
    {
        let ghost before = self@;
        let (answers, moved) = match &self.save {
            None => { return; },
            Some(save) => {
                let answers = match message {
                    DocumentMessage::Response { request_id, session_id, .. } =>
                        request_id.eq(&save.request) && session_id.eq(&save.session),
                    _ => false,
                };
                let moved = match message {
                    DocumentMessage::Event { view, .. } =>
                        !view.session_id.eq(&save.session) || view.revision != save.revision,
                    _ => false,
                };
                (answers, moved)
            },
        };
        if answers {
            match message {
                DocumentMessage::Response { accepted, error, .. } => {
                    if *accepted {
                        let mut save = self.save.take().unwrap();
                        save.acknowledged = true;
                        self.save = Some(save);
                        assert(self@.save == Some(SaveModel { acknowledged: true, ..before.save.unwrap() }));
                    } else {
                        let text = match error {
                            Some(e) => e.message.clone(),
                            None => {
                                proof { reveal_strlit("Save failed. Your draft is still open."); }
                                String::from_str("Save failed. Your draft is still open.")
                            },
                        };
                        self.error = Some(text);
                        self.save = None;
                    }
                },
                _ => {},
            }
        } else if moved {
            proof {
                reveal_strlit("The project changed while saving. Review the latest changes before closing.");
            }
            self.error = Some(String::from_str(
                "The project changed while saving. Review the latest changes before closing.",
            ));
            self.save = None;
        }
    }

    pub fn complete(&self, view: Option<&DocumentView>, pending: bool) -> (done: bool)
        ensures
            done == completes(self@, match view { Some(v) => Some(*v), None => None }, pending),
    {
        proof { reveal_strlit("ready"); }
        match (&self.save, view) {
            (Some(save), Some(view)) => {
                save.acknowledged && !pending && !view.modified && !view.saving
                    && text_is(&view.status, "ready") && view.session_id.eq(&save.session)
                    && view.revision == save.revision && view.saved_revision >= 0
                    && view.saved_revision as u64 == save.revision
            },
            _ => false,
        }
    }
}

impl Default for CloseState {
    fn default() -> (state: CloseState)
        ensures
            state@ == idle_model(),
    {
        CloseState::new()
    }
}

/// A document only closes once its own save was acknowledged, nothing is
/// pending, and the view is clean at the saved revision.
pub proof fn lemma_complete_requires_acknowledged_save(model: CloseModel, view: Option<DocumentView>, pending: bool)
    requires
        completes(model, view, pending),
    ensures
        model.save is Some,
        model.save.unwrap().acknowledged,
        !pending,
        view is Some,
        !view.unwrap().modified,
        view.unwrap().saved_revision == model.save.unwrap().revision,
{
}

/// Starting a save clears the error and never closes at once, whatever the view.
pub proof fn lemma_begin_save_waits(model: CloseModel, request: Seq<char>, view: DocumentView, shown: Option<DocumentView>, pending: bool)
    ensures
        begun_model(model, request, view).error is None,
        !completes(begun_model(model, request, view), shown, pending),
{
}

/// Without an awaited save, no message changes the state: a late acknowledgement
/// of a cancelled or refused save cannot bring it back.
pub proof fn lemma_idle_ignores_messages(model: CloseModel, message: DocumentMessage, view: Option<DocumentView>, pending: bool)
    requires
        model.save is None,
    ensures
        observed_model(model, message) == model,
        !completes(observed_model(model, message), view, pending),
{
}

/// After a cancel nothing closes, whatever arrives next.
pub proof fn lemma_cancel_never_closes(message: DocumentMessage, view: Option<DocumentView>, pending: bool)
    ensures
        !completes(observed_model(idle_model(), message), view, pending),
{
}

/// A refused save ends the wait with an error, and the document does not close.
pub proof fn lemma_refusal_ends_wait(model: CloseModel, message: DocumentMessage, view: Option<DocumentView>, pending: bool)
    requires
        model.save is Some,
        answers_save(model.save.unwrap(), message),
        message matches DocumentMessage::Response { accepted, .. } && !accepted,
    ensures
        observed_model(model, message).save is None,
        observed_model(model, message).error is Some,
        !completes(observed_model(model, message), view, pending),
{
}

/// A view of a newer revision or of a restarted session cancels the automatic close.
pub proof fn lemma_moved_view_cancels(model: CloseModel, message: DocumentMessage, view: Option<DocumentView>, pending: bool)
    requires
        model.save is Some,
        moves_away(model.save.unwrap(), message),
    ensures
        observed_model(model, message).save is None,
        observed_model(model, message).error == Some(project_changed_message()),
        !completes(observed_model(model, message), view, pending),
{
}

/// Responses to other requests, or from other sessions, leave the state as it was.
pub proof fn lemma_other_responses_ignored(model: CloseModel, message: DocumentMessage)
    requires
        message is Response,
        model.save is Some ==> !answers_save(model.save.unwrap(), message),
    ensures
        observed_model(model, message) == model,
{
}

/// The acknowledgement and the matching clean view may arrive in either order:
/// both orders reach the same state, in which the save is acknowledged.
pub proof fn lemma_ack_and_view_commute(model: CloseModel, ack: DocumentMessage, event: DocumentMessage)
    requires
        model.save is Some,
        answers_save(model.save.unwrap(), ack),
        ack matches DocumentMessage::Response { accepted, .. } && accepted,
        event matches DocumentMessage::Event { view, .. }
            && view.session_id@ == model.save.unwrap().session
            && view.revision == model.save.unwrap().revision,
    ensures
        observed_model(observed_model(model, ack), event) == observed_model(observed_model(model, event), ack),
        observed_model(observed_model(model, ack), event).save is Some,
        observed_model(observed_model(model, ack), event).save.unwrap().acknowledged,
{
}

/// One call on a close state: `begin_save` with its request and view,
/// `observe` with a message, or `cancel`.
pub enum CloseStep {
    Begin { request: Seq<char>, view: DocumentView },
    Observe { message: DocumentMessage },
    Cancel,
}

/// The state after one call.
pub open spec fn after_step(model: CloseModel, step: CloseStep) -> CloseModel {
    match step {
        CloseStep::Begin { request, view } => begun_model(model, request, view),
        CloseStep::Observe { message } => observed_model(model, message),
        CloseStep::Cancel => idle_model(),
    }
}

/// The state a default close state reaches after the calls, in order.
pub open spec fn run_close(steps: Seq<CloseStep>) -> CloseModel
    decreases steps.len(),
{
    if steps.len() == 0 {
        idle_model()
    } else {
        after_step(run_close(steps.drop_last()), steps.last())
    }
}

/// The save that a `begin_save` with this request and view waits for.
pub open spec fn begun_save(request: Seq<char>, view: DocumentView, acknowledged: bool) -> SaveModel {
    SaveModel { request, session: view.session_id@, revision: view.revision, acknowledged }
}

/// The call ends the wait for that save: a cancel, a refusal of its request
/// in its session, or a view of another session or revision.
pub open spec fn ends_save(request: Seq<char>, view: DocumentView, step: CloseStep) -> bool {
    match step {
        CloseStep::Cancel => true,
        CloseStep::Begin { .. } => false,
        CloseStep::Observe { message } => {
            let save = begun_save(request, view, false);
            ||| answers_save(save, message) && (message matches DocumentMessage::Response { accepted, .. } && !accepted)
            ||| moves_away(save, message)
        },
    }
}

/// The call observes the acceptance of that save.
pub open spec fn acknowledges(request: Seq<char>, view: DocumentView, step: CloseStep) -> bool {
    step matches CloseStep::Observe { message }
        && answers_save(begun_save(request, view, false), message)
        && (message matches DocumentMessage::Response { accepted, .. } && accepted)
}

/// Call `b` began the save that is still awaited: it is the last `begin_save`,
/// and no later call ended its wait.
pub open spec fn live_begin(steps: Seq<CloseStep>, b: int) -> bool {
    &&& 0 <= b < steps.len()
    &&& steps[b] matches CloseStep::Begin { request, view }
        && forall|k: int| b < k < steps.len() ==> !(#[trigger] steps[k] is Begin) && !ends_save(request, view, steps[k])
}

/// Some call after `b` observed the acceptance of the save that `b` began.
pub open spec fn acknowledged_since(steps: Seq<CloseStep>, b: int) -> bool {
    steps[b] matches CloseStep::Begin { request, view }
        && exists|k: int| b < k < steps.len() && acknowledges(request, view, #[trigger] steps[k])
}

/// The save that the calls leave awaited when `b` began it.
pub open spec fn save_since(steps: Seq<CloseStep>, b: int) -> SaveModel {
    match steps[b] {
        CloseStep::Begin { request, view } => begun_save(request, view, acknowledged_since(steps, b)),
        _ => arbitrary(),
    }
}

proof fn lemma_run_close(steps: Seq<CloseStep>)
    ensures
        forall|b: int| #[trigger] live_begin(steps, b) ==> run_close(steps).save == Some(save_since(steps, b)),
        (forall|b: int| !#[trigger] live_begin(steps, b)) ==> run_close(steps).save is None,
    decreases steps.len(),
{
    if steps.len() == 0 {
        return;
    }
    let init = steps.drop_last();
    let n = steps.len() - 1;
    lemma_run_close(init);
    assert(forall|k: int| 0 <= k < n ==> #[trigger] steps[k] == init[k]);
    match steps.last() {
        CloseStep::Begin { request, view } => {
            assert forall|b: int| #[trigger] live_begin(steps, b) implies b == n by {
                if b < n {
                    assert(steps[n] is Begin);
                }
            }
            assert(live_begin(steps, n));
            assert(!acknowledged_since(steps, n));
        },
        CloseStep::Cancel => {
            assert forall|b: int| !#[trigger] live_begin(steps, b) by {
                if 0 <= b < n && steps[b] is Begin {
                    assert(ends_save(steps[b]->request, steps[b]->view, steps[n]));
                }
            }
        },
        CloseStep::Observe { message } => {
            assert forall|b: int| #[trigger] live_begin(steps, b) implies live_begin(init, b)
                && !ends_save(steps[b]->request, steps[b]->view, steps[n]) by {
                assert(b != n);
                assert forall|k: int| b < k < init.len() implies !(#[trigger] init[k] is Begin)
                    && !ends_save(steps[b]->request, steps[b]->view, init[k]) by {
                    assert(steps[k] == init[k]);
                }
            }
            if exists|b: int| live_begin(init, b) {
                let b = choose|b: int| live_begin(init, b);
                let request = init[b]->request;
                let view = init[b]->view;
                assert(run_close(init).save == Some(save_since(init, b)));
                if ends_save(request, view, steps[n]) {
                    assert forall|c: int| !#[trigger] live_begin(steps, c) by {
                        if live_begin(steps, c) {
                            assert(live_begin(init, c));
                            assert(save_since(init, c) == save_since(init, b));
                        }
                    }
                } else {
                    assert(live_begin(steps, b)) by {
                        assert forall|k: int| b < k < steps.len() implies !(#[trigger] steps[k] is Begin)
                            && !ends_save(request, view, steps[k]) by {
                            if k < n {
                                assert(init[k] == steps[k]);
                            }
                        }
                    }
                    assert(acknowledged_since(steps, b) == (acknowledged_since(init, b)
                        || acknowledges(request, view, steps[n]))) by {
                        if acknowledged_since(init, b) {
                            let k = choose|k: int| b < k < init.len() && acknowledges(request, view, #[trigger] init[k]);
                            assert(steps[k] == init[k]);
                        }
                        if acknowledged_since(steps, b) && !acknowledges(request, view, steps[n]) {
                            let k = choose|k: int| b < k < steps.len() && acknowledges(request, view, #[trigger] steps[k]);
                            assert(init[k] == steps[k]);
                        }
                    }
                    assert forall|c: int| #[trigger] live_begin(steps, c) implies c == b by {
                        if live_begin(steps, c) && c != b {
                            assert(live_begin(init, c));
                            if c < b {
                                assert(init[b] is Begin);
                            } else {
                                assert(init[c] is Begin);
                            }
                        }
                    }
                }
            } else {
                assert forall|c: int| !#[trigger] live_begin(steps, c) by {
                    if live_begin(steps, c) {
                        assert(live_begin(init, c));
                    }
                }
            }
        },
    }
}

/// Over any sequence of `begin_save`, `observe` and `cancel` calls on a
/// default close state, a save is awaited exactly when some `begin_save` was
/// made and, since the last one, no cancel, no refusal of its request in its
/// session, and no view of another session or revision was seen. The save
/// awaited is the one that `begin_save` named, acknowledged exactly when an
/// acceptance of its request in its session was observed since.
pub proof fn lemma_saving_history(steps: Seq<CloseStep>)
    ensures
        run_close(steps).save is Some <==> exists|b: int| live_begin(steps, b),
        forall|b: int| #[trigger] live_begin(steps, b) ==> run_close(steps).save == Some(save_since(steps, b)),
{
    lemma_run_close(steps);
}

/// Over any sequence of calls, the document closes exactly when the save that
/// the last `begin_save` named is still awaited, an acceptance of it was
/// observed since, nothing is pending, and the view shown is the clean, ready
/// view of that session at that revision, saved at that revision.
pub proof fn lemma_complete_history(steps: Seq<CloseStep>, view: Option<DocumentView>, pending: bool)
    ensures
        completes(run_close(steps), view, pending) <==> exists|b: int| #[trigger] live_begin(steps, b) && {
            let save = save_since(steps, b);
            &&& save.acknowledged
            &&& !pending
            &&& view matches Some(v) && {
                &&& !v.modified
                &&& !v.saving
                &&& v.status@ == "ready"@
                &&& v.session_id@ == save.session
                &&& v.revision == save.revision
                &&& v.saved_revision >= 0
                &&& v.saved_revision == save.revision
            }
        },
{
    lemma_run_close(steps);
}

} // verus!
