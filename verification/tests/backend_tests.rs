use oxitone_preview::backend::{ControlCommand, DocumentQueue, QUEUE_LIMIT};
use oxitone_preview::document_wire::{DocumentMessage, DocumentOperation, DocumentRequest};

fn request(n: u64) -> DocumentRequest<()> {
    DocumentRequest {
        document_protocol_version: "2.0".into(),
        session_id: "session".into(),
        request_id: format!("stream/gpui/{n}"),
        base_revision: n,
        operation: DocumentOperation::Save,
    }
}

#[test]
fn queued_requests_leave_in_arrival_order_with_the_next_reply() {
    let mut queue = DocumentQueue::new();
    assert!(queue.drain().is_none());
    assert!(queue.push(request(1)).is_none());
    assert!(queue.push(request(2)).is_none());
    let drained = queue.drain().unwrap();
    assert_eq!(drained.iter().map(|r| r.request_id.as_str()).collect::<Vec<_>>(), ["stream/gpui/1", "stream/gpui/2"]);
    assert_eq!(queue.len(), 0);
    assert!(queue.drain().is_none(), "a second reply carries no requests");
}

#[test]
fn a_full_queue_refuses_with_a_budget_response() {
    let mut queue = DocumentQueue::new();
    for n in 0..QUEUE_LIMIT as u64 {
        assert!(queue.push(request(n)).is_none());
    }
    match queue.push(request(99)) {
        Some(DocumentMessage::Response { document_protocol_version, session_id, request_id, accepted, revision, error }) => {
            assert_eq!(document_protocol_version, "2.0");
            assert_eq!(session_id, "session");
            assert_eq!(request_id, "stream/gpui/99");
            assert!(!accepted);
            assert_eq!(revision, 99);
            let error = error.unwrap();
            assert_eq!(error.code, "BudgetExceeded");
            assert_eq!(error.message, "document request queue is full");
        }
        _ => panic!("refusal expected"),
    }
    assert_eq!(queue.len(), QUEUE_LIMIT);
}

#[test]
fn the_first_arrivals_that_find_room_stay_in_order() {
    let mut queue = DocumentQueue::new();
    for n in 0..(QUEUE_LIMIT as u64 + 5) {
        let refused = queue.push(request(n)).is_some();
        assert_eq!(refused, n >= QUEUE_LIMIT as u64);
    }
    let drained = queue.drain().unwrap();
    assert_eq!(drained.len(), QUEUE_LIMIT);
    assert!(drained.iter().enumerate().all(|(i, r)| r.base_revision == i as u64));
}

#[test]
fn the_control_step_sends_queued_requests_only_with_a_reply() {
    let mut queue = DocumentQueue::new();
    let outcome = queue.step(ControlCommand::Document { request: request(7) });
    assert!(outcome.refusal.is_none() && outcome.outgoing.is_none() && !outcome.stop);
    let outcome = queue.step(ControlCommand::Frame { wants_reply: false, shutdown: false });
    assert!(outcome.outgoing.is_none() && !outcome.stop);
    assert_eq!(queue.len(), 1);
    let outcome = queue.step(ControlCommand::Frame { wants_reply: true, shutdown: true });
    let sent = outcome.outgoing.unwrap();
    assert_eq!(sent.len(), 1);
    assert_eq!(sent[0].request_id, "stream/gpui/7");
    assert!(outcome.stop);
    assert_eq!(queue.len(), 0);
    let outcome = queue.step(ControlCommand::Frame { wants_reply: true, shutdown: false });
    assert!(outcome.outgoing.is_none());
    assert!(queue.step(ControlCommand::Stop).stop);
}
