use reactor::{
    EventSet, EventType, PollOp, ReactorConfig, ReactorCtrl, ReactorHandler, ReactorState,
    ReactorError, ReadyStep, SlotKind, TimerStep, Token,
};

type Handler = ReactorHandler<String, String, String, String, String>;

fn small_config() -> ReactorConfig {
    ReactorConfig {
        out_queue_size: 16,
        max_connections: 4,
        timers_per_connection: 1,
        poll_timeout_ms: 100,
    }
}

fn fresh() -> Handler {
    ReactorHandler { state: ReactorState::new(small_config()) }
}

fn readable_hup() -> EventSet {
    let mut es = EventSet::readable();
    es.hup = true;
    es
}

#[test]
fn config_default_values() {
    let cfg = ReactorConfig::default();
    assert_eq!(cfg.out_queue_size, 524288);
    assert_eq!(cfg.max_connections, 10240);
    assert_eq!(cfg.timers_per_connection, 1);
    assert_eq!(cfg.poll_timeout_ms, 100);
}

#[test]
fn register_deregister_round_trip() {
    let mut h = fresh();
    let tok = h.state.register("alpha".to_string(), EventSet::readable()).unwrap();
    // Connection tokens start at 256 and are allocated lowest-first.
    assert_eq!(tok, Token(256));
    assert_eq!(h.state.conn_state(tok), SlotKind::Connected);
    assert!(h.state.poll.is_io_registered(tok));
    assert_eq!(h.state.conn_count(), 1);

    let back = h.state.deregister(tok).unwrap();
    // The very same context comes back, and registry and poller are as before.
    assert_eq!(back, "alpha");
    assert_eq!(h.state.conn_state(tok), SlotKind::Absent);
    assert!(!h.state.poll.is_io_registered(tok));
    assert_eq!(h.state.conn_count(), 0);

    // The command log recorded both actions, in order.
    let ops = h.state.take_ops();
    assert_eq!(
        ops,
        vec![
            PollOp::Register { token: tok, interest: EventSet::readable() },
            PollOp::Deregister { token: tok },
        ]
    );

    // A second deregister finds nothing and changes nothing.
    assert_eq!(h.state.deregister(tok), Err(ReactorError::NotFound));
}

#[test]
fn register_past_max_connections_is_refused_without_registration() {
    let mut h = fresh();
    for i in 0..4usize {
        let tok = h.state.register(format!("c{i}"), EventSet::readable()).unwrap();
        assert_eq!(tok, Token(256 + i));
    }
    let before_ops = h.state.take_ops().len();
    assert_eq!(before_ops, 4);
    // The fifth registration reports a full slab and registers nothing.
    let r = h.state.register("c4".to_string(), EventSet::readable());
    assert_eq!(r, Err(ReactorError::SlabFull));
    assert_eq!(h.state.conn_count(), 4);
    assert_eq!(h.state.take_ops().len(), 0);
    assert!(!h.state.poll.is_io_registered(Token(260)));
}

#[test]
fn deregister_pending_discards_and_reports() {
    let mut h = fresh();
    let tok = h.state.connect("sock".to_string(), "on-connect".to_string()).unwrap();
    assert_eq!(h.state.conn_state(tok), SlotKind::Pending);
    assert_eq!(h.state.deregister(tok), Err(ReactorError::PendingConnection));
    assert_eq!(h.state.conn_state(tok), SlotKind::Absent);
    assert!(!h.state.poll.is_io_registered(tok));
}

#[test]
fn shutdown_stops_the_loop_and_is_idempotent() {
    let mut h = fresh();
    assert!(h.state.is_running());
    h.state.shutdown();
    assert!(!h.state.is_running());
    h.state.shutdown();
    assert!(!h.state.is_running());
    let ops = h.state.take_ops();
    assert_eq!(ops, vec![PollOp::Shutdown, PollOp::Shutdown]);
}

#[test]
fn readable_with_hangup_dispatches_readable_then_disconnect_then_removes() {
    let mut h = fresh();
    let tok = h.state.register("conn".to_string(), EventSet::readable()).unwrap();
    match h.ready(tok, readable_hup()) {
        ReadyStep::CloseDispatch { ctx, events } => {
            assert_eq!(ctx, "conn");
            assert_eq!(events, vec![EventType::Readable, EventType::Disconnect]);
        }
        _ => panic!("expected the close dispatch"),
    }
    h.discard_dispatched(tok);
    assert_eq!(h.state.conn_state(tok), SlotKind::Absent);
    assert!(!h.state.poll.is_io_registered(tok));
}

#[test]
fn readable_without_hangup_dispatches_exactly_one_readable() {
    let mut h = fresh();
    let tok = h.state.register("conn".to_string(), EventSet::readable()).unwrap();
    match h.ready(tok, EventSet::readable()) {
        ReadyStep::Dispatch { ctx, events } => {
            assert_eq!(ctx, "conn");
            assert_eq!(events, vec![EventType::Readable]);
            // During the dispatch the slot is vacated.
            assert_eq!(h.state.conn_state(tok), SlotKind::Vacant);
            h.dispatch_done(tok, ctx, EventSet::readable());
        }
        _ => panic!("expected a plain dispatch"),
    }
    assert_eq!(h.state.conn_state(tok), SlotKind::Connected);
    // The re-registration carries hangup on top of the declared interest.
    let mut expected = EventSet::readable();
    expected.hup = true;
    let ops = h.state.take_ops();
    assert_eq!(ops.last(), Some(&PollOp::Reregister { token: tok, interest: expected }));
}

#[test]
fn writable_dispatches_writable() {
    let mut h = fresh();
    let tok = h.state.register("conn".to_string(), EventSet::writable()).unwrap();
    match h.ready(tok, EventSet::writable()) {
        ReadyStep::Dispatch { ctx, events } => {
            assert_eq!(events, vec![EventType::Writable]);
            h.dispatch_done(tok, ctx, EventSet::writable());
        }
        _ => panic!("expected a plain dispatch"),
    }
    assert_eq!(h.state.conn_state(tok), SlotKind::Connected);
}

#[test]
fn pending_hangup_reports_failure_and_releases_the_token() {
    let mut h = fresh();
    let tok = h.state.connect("sock".to_string(), "on-connect".to_string()).unwrap();
    match h.ready(tok, readable_hup()) {
        ReadyStep::ConnectFailed { sock, handler } => {
            // Exactly the stored socket and handler come back; no context
            // was ever created.
            assert_eq!(sock, "sock");
            assert_eq!(handler, "on-connect");
        }
        _ => panic!("expected the connect failure"),
    }
    assert_eq!(h.state.conn_state(tok), SlotKind::Absent);
    assert!(!h.state.poll.is_io_registered(tok));
    // The freed slot is reused by the next registration.
    let again = h.state.register("fresh".to_string(), EventSet::readable()).unwrap();
    assert_eq!(again, tok);
}

#[test]
fn pending_writable_completes_the_connection() {
    let mut h = fresh();
    let tok = h.state.connect("sock".to_string(), "on-connect".to_string()).unwrap();
    match h.ready(tok, EventSet::writable()) {
        ReadyStep::ConnectReady { sock, handler } => {
            assert_eq!(sock, "sock");
            assert_eq!(handler, "on-connect");
            // The connect handler accepted: a context takes over the slot.
            h.dispatch_done(tok, "ctx-from-handler".to_string(), EventSet::readable());
        }
        _ => panic!("expected the connect completion"),
    }
    assert_eq!(h.state.conn_state(tok), SlotKind::Connected);
    assert!(h.state.poll.is_io_registered(tok));
    assert_eq!(h.state.deregister(tok).unwrap(), "ctx-from-handler");
}

#[test]
fn declined_connection_leaves_no_slot_behind() {
    let mut h = fresh();
    let tok = h.state.connect("sock".to_string(), "on-connect".to_string()).unwrap();
    match h.ready(tok, EventSet::writable()) {
        ReadyStep::ConnectReady { .. } => {
            // The connect handler returned no context.
            h.discard_dispatched(tok);
        }
        _ => panic!("expected the connect completion"),
    }
    assert_eq!(h.state.conn_state(tok), SlotKind::Absent);
    assert!(!h.state.poll.is_io_registered(tok));
    assert_eq!(h.state.conn_count(), 0);
}

#[test]
fn accept_flow_registers_then_deregister_returns_the_context() {
    let mut h = fresh();
    let ltok = h.state.listen("listener".to_string(), "on-accept".to_string()).unwrap();
    assert_eq!(ltok, Token(0));
    assert!(h.state.is_listener(ltok));

    let (listener, handler) = match h.ready(ltok, EventSet::readable()) {
        ReadyStep::Accept { listener, handler } => (listener, handler),
        _ => panic!("expected the accept step"),
    };
    assert_eq!(listener, "listener");
    assert_eq!(handler, "on-accept");

    // A socket was accepted: reserve a token, store the context the accept
    // handler returned, and put the listener back.
    let newtok = h.accept_reserve().unwrap();
    assert_eq!(newtok, Token(256));
    assert_eq!(h.state.conn_state(newtok), SlotKind::Vacant);
    h.accept_done(newtok, "server-ctx".to_string(), EventSet::readable());
    h.accept_restore(ltok, listener, handler);

    assert_eq!(h.state.conn_state(newtok), SlotKind::Connected);
    assert!(h.state.is_listener(ltok));
    assert!(h.state.poll.is_io_registered(newtok));
    assert!(h.state.poll.is_io_registered(ltok));

    // Deregistering hands back the very context the handler created.
    let back = h.state.deregister(newtok).unwrap();
    assert_eq!(back, "server-ctx");
    assert!(!h.state.poll.is_io_registered(newtok));
}

#[test]
fn accept_rejected_releases_the_reserved_token() {
    let mut h = fresh();
    let ltok = h.state.listen("listener".to_string(), "on-accept".to_string()).unwrap();
    let (listener, handler) = match h.ready(ltok, EventSet::readable()) {
        ReadyStep::Accept { listener, handler } => (listener, handler),
        _ => panic!("expected the accept step"),
    };
    let newtok = h.accept_reserve().unwrap();
    // The accept handler declined the connection.
    h.accept_reject(newtok);
    h.accept_restore(ltok, listener, handler);
    assert_eq!(h.state.conn_state(newtok), SlotKind::Absent);
    assert_eq!(h.state.conn_count(), 0);
    // The released token is handed out again next time.
    let tok = h.state.register("other".to_string(), EventSet::readable()).unwrap();
    assert_eq!(tok, newtok);
}

#[test]
fn notify_delivers_the_payload_bit_identical() {
    let mut h = fresh();
    let tok = h.state.register("conn".to_string(), EventSet::readable()).unwrap();
    let payload: Vec<u8> = (0u16..300).map(|i| (i % 251) as u8).collect();
    let (ctx, event) = h.notify(tok, payload.clone());
    assert_eq!(ctx, "conn");
    match event {
        EventType::Notify(bytes) => assert_eq!(bytes, payload),
        _ => panic!("expected the notify event"),
    }
    h.dispatch_done(tok, ctx, EventSet::readable());
    assert_eq!(h.state.conn_state(tok), SlotKind::Connected);
}

#[test]
fn connection_timer_fires_into_the_context_three_rounds_then_shutdown() {
    let mut h = fresh();
    let tok = h.state.register("server".to_string(), EventSet::readable()).unwrap();
    for round in 0..3usize {
        let timer = h.state.timeout_conn(1000, tok).unwrap();
        assert!(h.state.poll.is_timer_set(timer));
        match h.timeout(timer.0) {
            TimerStep::Conn { token, ctx, event } => {
                assert_eq!(token, tok);
                assert_eq!(ctx, "server");
                assert_eq!(event, EventType::Timeout(timer.0));
                h.timeout_done(token, ctx);
            }
            _ => panic!("round {round}: expected the connection timer"),
        }
        assert!(!h.state.poll.is_timer_set(timer));
        assert_eq!(h.state.conn_state(tok), SlotKind::Connected);
    }
    h.state.shutdown();
    assert!(!h.state.is_running());
}

#[test]
fn timer_for_a_deregistered_token_dispatches_nothing() {
    let mut h = fresh();
    let tok = h.state.register("conn".to_string(), EventSet::readable()).unwrap();
    let timer = h.state.timeout_conn(500, tok).unwrap();
    h.state.deregister(tok).unwrap();
    match h.timeout(timer.0) {
        TimerStep::Gone => {}
        _ => panic!("a timer whose target is gone must dispatch nothing"),
    }
    assert!(!h.state.poll.is_timer_set(timer));
    assert_eq!(h.state.conn_count(), 0);
}

#[test]
fn standalone_timer_hands_its_handler_back() {
    let mut h = fresh();
    let timer = h.state.timeout(250, "standalone".to_string()).unwrap();
    assert_eq!(timer, Token(0));
    match h.timeout(timer.0) {
        TimerStep::Standalone { handler } => assert_eq!(handler, "standalone"),
        _ => panic!("expected the standalone timer"),
    }
    assert!(!h.state.poll.is_timer_set(timer));
}

#[test]
fn timer_slab_full_is_reported() {
    let mut h = fresh();
    // max_connections 4 and one timer per connection slot: 260 timer slots.
    for _ in 0..260usize {
        h.state.timeout(10, "t".to_string()).unwrap();
    }
    assert_eq!(h.state.timeout(10, "t".to_string()), Err(ReactorError::SlabFull));
}

#[test]
fn event_without_readiness_bits_is_quiet() {
    let mut h = fresh();
    let tok = h.state.register("conn".to_string(), EventSet::readable()).unwrap();
    match h.ready(tok, EventSet::none()) {
        ReadyStep::Quiet => {}
        _ => panic!("expected nothing to happen"),
    }
    assert_eq!(h.state.conn_state(tok), SlotKind::Connected);
}

#[test]
fn ctrl_operations_delegate_to_the_registry() {
    let mut st: ReactorState<String, String, String, String, String> =
        ReactorState::new(small_config());
    let mut ctrl = ReactorCtrl::new(&mut st);
    let tok = ctrl.register("via-ctrl".to_string(), EventSet::readable()).unwrap();
    let pend = ctrl.connect("sock".to_string(), "h".to_string()).unwrap();
    let ltok = ctrl.listen("lsock".to_string(), "ah".to_string()).unwrap();
    let timer = ctrl.timeout_conn(100, tok).unwrap();
    let timer2 = ctrl.timeout(100, "th".to_string()).unwrap();
    assert_ne!(timer, timer2);
    assert_eq!(ctrl.deregister(tok).unwrap(), "via-ctrl");
    assert_eq!(ctrl.deregister(pend), Err(ReactorError::PendingConnection));
    ctrl.shutdown();
    assert_eq!(ltok, Token(0));
    assert!(!st.is_running());
    assert_eq!(st.conn_count(), 0);
}

#[test]
fn registered_tokens_always_name_live_slots() {
    // A spot check of the sync between the poller model and the slabs,
    // after a mixed history of operations.
    let mut h = fresh();
    let a = h.state.register("a".to_string(), EventSet::readable()).unwrap();
    let b = h.state.connect("sb".to_string(), "hb".to_string()).unwrap();
    let l = h.state.listen("sl".to_string(), "hl".to_string()).unwrap();
    h.state.deregister(a).unwrap();
    for t in 0..600usize {
        let tok = Token(t);
        if h.state.poll.is_io_registered(tok) {
            if t < 256 {
                assert!(h.state.is_listener(tok));
            } else {
                let k = h.state.conn_state(tok);
                assert!(k == SlotKind::Pending || k == SlotKind::Connected);
            }
        }
    }
    assert!(h.state.poll.is_io_registered(b));
    assert!(h.state.poll.is_io_registered(l));
    assert!(!h.state.poll.is_io_registered(a));
}

#[test]
fn handlers_reenter_the_reactor_while_their_slot_is_vacated() {
    let mut h = fresh();
    let a = h.state.register("a".to_string(), EventSet::readable()).unwrap();
    let b = h.state.register("b".to_string(), EventSet::readable()).unwrap();

    // Open a dispatch frame on `a`: its slot is vacated for the duration.
    let ctx_a = match h.ready(a, EventSet::readable()) {
        ReadyStep::Dispatch { ctx, .. } => ctx,
        _ => panic!("expected a plain dispatch"),
    };
    assert_eq!(h.state.conn_state(a), SlotKind::Vacant);

    // What a handler would do mid-frame, through the control interface.
    let timer = {
        let mut ctrl = ReactorCtrl::new(&mut h.state);
        // Deregistering one's own token is refused: the slot is vacated.
        assert_eq!(ctrl.deregister(a), Err(ReactorError::NotFound));
        // Other slots can be removed and created freely.
        assert_eq!(ctrl.deregister(b).unwrap(), "b");
        let c = ctrl.register("c".to_string(), EventSet::writable()).unwrap();
        // The freed slot is reused; the vacated one is not touched.
        assert_eq!(c, b);
        ctrl.timeout_conn(10, a).unwrap()
    };

    // Close the frame; everything is consistent again.
    h.dispatch_done(a, ctx_a, EventSet::readable());
    assert_eq!(h.state.conn_state(a), SlotKind::Connected);
    assert_eq!(h.state.conn_state(b), SlotKind::Connected);
    assert_eq!(h.state.conn_count(), 2);

    // The timer armed mid-frame fires into `a`.
    match h.timeout(timer.0) {
        TimerStep::Conn { token, ctx, event } => {
            assert_eq!(token, a);
            assert_eq!(ctx, "a");
            assert_eq!(event, EventType::Timeout(timer.0));
            h.timeout_done(token, ctx);
        }
        _ => panic!("expected the connection timer"),
    }
}

#[test]
fn fifth_register_through_the_ctrl_is_refused() {
    let mut st: ReactorState<String, String, String, String, String> =
        ReactorState::new(small_config());
    let mut ctrl = ReactorCtrl::new(&mut st);
    for i in 0..4usize {
        ctrl.register(format!("c{i}"), EventSet::readable()).unwrap();
    }
    assert_eq!(
        ctrl.register("c4".to_string(), EventSet::readable()),
        Err(ReactorError::SlabFull)
    );
    assert_eq!(st.conn_count(), 4);
}
