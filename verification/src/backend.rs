//! The control thread's queue of document requests: bounded, first in first
//! out, handed to the service with the reply to its next frame.
use vstd::prelude::*;
use std::collections::VecDeque;
use crate::document_wire::{DocumentError, DocumentMessage, DocumentRequest, protocol_version};

verus! {

/// The most document requests that wait for the service at once.
pub const QUEUE_LIMIT: usize = 64;

/// Document requests waiting for the service's next frame.
pub struct DocumentQueue<E> {
    requests: VecDeque<DocumentRequest<E>>,
}

impl<E> View for DocumentQueue<E> {
    type V = Seq<DocumentRequest<E>>;

    closed spec fn view(&self) -> Seq<DocumentRequest<E>> {
        self.requests@
    }
}

pub open spec fn budget_code() -> Seq<char> {
    "BudgetExceeded"@
}

pub open spec fn queue_full_message() -> Seq<char> {
    "document request queue is full"@
}

/// The refusal a request receives when the queue is full: a response of
/// protocol 2.0 for the request's session, identifier and base revision.
pub open spec fn is_refusal<E>(request: DocumentRequest<E>, message: DocumentMessage) -> bool {
    match message {
        DocumentMessage::Response { document_protocol_version, session_id, request_id, accepted, revision, error } => {
            &&& document_protocol_version@ == protocol_version()
            &&& session_id == request.session_id
            &&& request_id == request.request_id
            &&& revision == request.base_revision
            &&& !accepted
            &&& error matches Some(e) && e.code@ == budget_code() && e.message@ == queue_full_message()
        },
        _ => false,
    }
}

/// The queue after a request arrives: appended at the back while there is
/// room, refused otherwise.
pub open spec fn queued_after<E>(queued: Seq<DocumentRequest<E>>, request: DocumentRequest<E>) -> Seq<DocumentRequest<E>> {
    if queued.len() < QUEUE_LIMIT {
        queued.push(request)
    } else {
        queued
    }
}

/// The queue after the requests arrive, in order, with no drain between.
pub open spec fn queued_all<E>(queued: Seq<DocumentRequest<E>>, requests: Seq<DocumentRequest<E>>) -> Seq<DocumentRequest<E>>
    decreases requests.len(),
{
    if requests.len() == 0 {
        queued
    } else {
        queued_after(queued_all(queued, requests.drop_last()), requests.last())
    }
}

impl<E> DocumentQueue<E> {
    pub fn new() -> (queue: DocumentQueue<E>)
        ensures
            queue@ == Seq::<DocumentRequest<E>>::empty(),
    {
        DocumentQueue { requests: VecDeque::new() }
    }

    pub fn len(&self) -> (n: usize)
        ensures
            n == self@.len(),
    {
        self.requests.len()
    }

    /// Queues a request; when the queue is full the request is refused instead,
    /// and the refusal to report to the preview is returned.
    pub fn push(&mut self, request: DocumentRequest<E>) -> (refusal: Option<DocumentMessage>)
        ensures
            final(self)@ == queued_after(old(self)@, request),
            refusal is Some <==> old(self)@.len() >= QUEUE_LIMIT,
            refusal matches Some(m) ==> is_refusal(request, m),
    {
        if self.requests.len() < QUEUE_LIMIT {
            self.requests.push_back(request);
            None
        } else {
            proof {
                reveal_strlit("2.0");
                reveal_strlit("BudgetExceeded");
                reveal_strlit("document request queue is full");
            }
            Some(DocumentMessage::Response {
                document_protocol_version: String::from_str("2.0"),
                session_id: request.session_id,
                request_id: request.request_id,
                revision: request.base_revision,
                accepted: false,
                error: Some(DocumentError {
                    code: String::from_str("BudgetExceeded"),
                    message: String::from_str("document request queue is full"),
                }),
            })
        }
    }

    /// Hands over every queued request, oldest first, to go out with a frame's
    /// reply; nothing when the queue is empty.
    pub fn drain(&mut self) -> (requests: Option<Vec<DocumentRequest<E>>>)
        ensures
            final(self)@ == Seq::<DocumentRequest<E>>::empty(),
            match requests {
                Some(v) => old(self)@.len() > 0 && v@ == old(self)@,
                None => old(self)@.len() == 0,
            },
    {
        if self.requests.len() == 0 {
            return None;
        }
        let mut drained: Vec<DocumentRequest<E>> = Vec::new();
        let ghost all = self.requests@;
        while self.requests.len() > 0
            invariant
                all == drained@ + self.requests@,
            decreases self.requests@.len(),
        {
            let next = self.requests.pop_front().unwrap();
            drained.push(next);
            assert(all =~= drained@ + self.requests@);
        }
        assert(drained@ =~= all);
        Some(drained)
    }
}

/// What reaches the control thread: a document request from the preview, a
/// frame of the service (whether it waits for a reply, and whether it asks to
/// shut down), or the preview stopping.
pub enum ControlCommand<E> {
    Document { request: DocumentRequest<E> },
    Frame { wants_reply: bool, shutdown: bool },
    Stop,
}

/// What the control thread does for a command: the refusal to report to the
/// preview, the requests to send with the frame's reply, and whether it stops.
pub struct ControlOutcome<E> {
    pub refusal: Option<DocumentMessage>,
    pub outgoing: Option<Vec<DocumentRequest<E>>>,
    pub stop: bool,
}

impl<E> DocumentQueue<E> {
    /// One turn of the control thread: a request is queued or refused; a frame
    /// that waits for a reply takes every queued request along; a shutdown
    /// frame or a stop ends the thread.
    pub fn step(&mut self, command: ControlCommand<E>) -> (outcome: ControlOutcome<E>)
        ensures
            match command {
                ControlCommand::Document { request } => {
                    &&& final(self)@ == queued_after(old(self)@, request)
                    &&& (outcome.refusal is Some <==> old(self)@.len() >= QUEUE_LIMIT)
                    &&& (outcome.refusal matches Some(m) ==> is_refusal(request, m))
                    &&& outcome.outgoing is None
                    &&& !outcome.stop
                },
                ControlCommand::Frame { wants_reply, shutdown } => {
                    &&& outcome.refusal is None
                    &&& outcome.stop == shutdown
                    &&& final(self)@ == (if wants_reply { Seq::<DocumentRequest<E>>::empty() } else { old(self)@ })
                    &&& match outcome.outgoing {
                        Some(v) => wants_reply && old(self)@.len() > 0 && v@ == old(self)@,
                        None => !wants_reply || old(self)@.len() == 0,
                    }
                },
                ControlCommand::Stop => {
                    &&& outcome.refusal is None
                    &&& outcome.outgoing is None
                    &&& outcome.stop
                    &&& final(self)@ == old(self)@
                },
            },
    {
        match command {
            ControlCommand::Document { request } => {
                let refusal = self.push(request);
                ControlOutcome { refusal, outgoing: None, stop: false }
            },
            ControlCommand::Frame { wants_reply, shutdown } => {
                let outgoing = if wants_reply { self.drain() } else { None };
                ControlOutcome { refusal: None, outgoing, stop: shutdown }
            },
            ControlCommand::Stop => ControlOutcome { refusal: None, outgoing: None, stop: true },
        }
    }
}

/// Requests leave in the order they arrived, and the queue never holds more
/// than its limit: after any run of pushes onto a queue within the limit, the
/// queue holds what it held, then the first arrivals that found room, in the
/// order they came; every later one was refused.
pub proof fn lemma_queue_first_in_first_out<E>(queued: Seq<DocumentRequest<E>>, requests: Seq<DocumentRequest<E>>)
    requires
        queued.len() <= QUEUE_LIMIT,
    ensures
        queued_all(queued, requests) == queued + requests.take(
            if requests.len() <= QUEUE_LIMIT - queued.len() { requests.len() as int } else { QUEUE_LIMIT - queued.len() },
        ),
        queued_all(queued, requests).len() <= QUEUE_LIMIT,
    decreases requests.len(),
{
    if requests.len() > 0 {
        let init = requests.drop_last();
        lemma_queue_first_in_first_out(queued, init);
        let room = QUEUE_LIMIT - queued.len();
        if requests.len() <= room {
            assert(init.take(init.len() as int) =~= init);
            assert(requests.take(requests.len() as int) =~= requests);
            assert(queued + init.push(requests.last()) =~= (queued + init).push(requests.last()));
            assert(init.push(requests.last()) =~= requests);
        } else {
            if init.len() <= room {
                assert(init.take(init.len() as int) =~= init);
                assert(init.len() == room);
                assert(requests.take(room) =~= init);
            } else {
                assert(requests.take(room) =~= init.take(room));
            }
        }
    }
}

} // verus!
