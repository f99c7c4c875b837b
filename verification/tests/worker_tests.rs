use ezdb::errors::PersistenceError;
use ezdb::persistence::SqlitePersistence;
use ezdb::worker::DataMessage;
use ezdb::worker::DataOutput;
use ezdb::worker::EzdbMessage;
use ezdb::worker::HandleAction;
use ezdb::worker::LogisticsMessage;
use ezdb::worker::MAILBOX_SIZE;
use ezdb::worker::Mailbox;
use ezdb::worker::handle_data_request;
use ezdb::worker::interrupt_acknowledgement;
use ezdb::worker::handle_message;
use ezdb::worker::worker_step;

#[test]
fn mailbox_serves_in_acceptance_order() {
    let mut mb: Mailbox<i64> = Mailbox::new();
    assert!(mb.enqueue(10));
    assert!(mb.enqueue(20));
    assert!(mb.enqueue(30));
    assert_eq!(mb.dequeue(), Some((10, false)));
    assert!(mb.enqueue(40));
    assert_eq!(mb.dequeue(), Some((20, false)));
    assert_eq!(mb.dequeue(), Some((30, false)));
    assert_eq!(mb.dequeue(), Some((40, false)));
    assert_eq!(mb.dequeue(), None);
}

#[test]
fn seventeenth_outstanding_request_is_refused() {
    let mut mb: Mailbox<i64> = Mailbox::new();
    for k in 0..MAILBOX_SIZE {
        assert!(mb.enqueue(k as i64));
    }
    assert!(!mb.enqueue(999));
    // the refusal changed nothing: the queue still drains in order
    for k in 0..MAILBOX_SIZE {
        assert_eq!(mb.dequeue(), Some((k as i64, false)));
    }
    assert_eq!(mb.dequeue(), None);
}

#[test]
fn interrupt_invalidates_queued_jobs() {
    let mut mb: Mailbox<i64> = Mailbox::new();
    assert!(mb.enqueue(1));
    mb.interrupt();
    assert!(mb.enqueue(2));
    assert_eq!(mb.dequeue(), Some((1, true)));
    assert_eq!(mb.dequeue(), Some((2, false)));
}

#[test]
fn two_interrupts_look_like_one_to_queued_jobs() {
    let mut once: Mailbox<i64> = Mailbox::new();
    let mut twice: Mailbox<i64> = Mailbox::new();
    assert!(once.enqueue(1));
    assert!(twice.enqueue(1));
    once.interrupt();
    twice.interrupt();
    twice.interrupt();
    assert_eq!(once.dequeue(), Some((1, true)));
    assert_eq!(twice.dequeue(), Some((1, true)));
}

#[test]
fn message_handling_verdicts() {
    let mut mb: Mailbox<DataMessage> = Mailbox::new();
    let queued = handle_message(&mut mb, EzdbMessage::Data(DataMessage::FetchPolicy));
    assert!(matches!(queued, HandleAction::Queued));
    let signalled = handle_message(
        &mut mb,
        EzdbMessage::Logistics(LogisticsMessage::Interrupt),
    );
    assert!(matches!(signalled, HandleAction::SignalEngine));
    for _ in 1..MAILBOX_SIZE {
        let again = handle_message(&mut mb, EzdbMessage::Data(DataMessage::FetchPolicy));
        assert!(matches!(again, HandleAction::Queued));
    }
    let refused = handle_message(&mut mb, EzdbMessage::Data(DataMessage::FetchPolicy));
    assert!(matches!(refused, HandleAction::RejectBusy));
}

#[test]
fn worker_executes_fresh_jobs_and_cancels_stale_ones() {
    let p = SqlitePersistence::in_memory().unwrap();
    let mut mb: Mailbox<DataMessage> = Mailbox::new();
    assert!(mb.enqueue(DataMessage::MutateRaw("CREATE TABLE foo (x INTEGER)".to_string())));
    match worker_step(&mut mb, &p) {
        Some(Ok(DataOutput::Done)) => {},
        other => panic!("unexpected worker result: {:?}", other),
    }
    assert!(mb.enqueue(DataMessage::QueryRaw("SELECT x FROM foo".to_string())));
    mb.interrupt();
    match worker_step(&mut mb, &p) {
        Some(Err(PersistenceError::Interrupted)) => {},
        other => panic!("a stale job was not cancelled: {:?}", other),
    }
    assert!(mb.enqueue(DataMessage::QueryRaw("SELECT x FROM foo".to_string())));
    match worker_step(&mut mb, &p) {
        Some(Ok(DataOutput::Rows(rows))) => assert!(rows.is_empty()),
        other => panic!("unexpected worker result: {:?}", other),
    }
    assert!(worker_step(&mut mb, &p).is_none());
}

#[test]
fn dispatch_shapes_output_by_request() {
    let p = SqlitePersistence::in_memory().unwrap();
    match handle_data_request(&p, DataMessage::MutateRaw("CREATE TABLE t (x INTEGER)".to_string()))
    {
        Ok(DataOutput::Done) => {},
        other => panic!("unexpected output: {:?}", other),
    }
    match handle_data_request(&p, DataMessage::QueryRaw("SELECT x FROM t".to_string())) {
        Ok(DataOutput::Rows(rows)) => assert!(rows.is_empty()),
        other => panic!("unexpected output: {:?}", other),
    }
    match handle_data_request(&p, DataMessage::FetchPolicy) {
        Ok(DataOutput::Policy(pol)) => {
            assert!(pol.queries.is_empty());
            assert!(pol.mutations.is_empty());
        },
        other => panic!("unexpected output: {:?}", other),
    }
    match handle_data_request(&p, DataMessage::QueryNamed("missing".to_string(), vec![])) {
        Err(PersistenceError::NoSuchQuery(n)) => assert_eq!(n, "missing"),
        other => panic!("unexpected output: {:?}", other),
    }
}

#[test]
fn interrupt_is_acknowledged_with_ok() {
    assert_eq!(interrupt_acknowledgement(), "ok");
}
