use vstd::prelude::*;
use crate::context::EventType;
use crate::poller::{EventSet, PollOp};
use crate::reactor_ctrl::{ConnRec, ReactorError, ReactorState, SlotKind};
use crate::slab::Token;

verus! {

/// What the driver must do after readiness fired for a token. Each variant
/// hands out the values that were vacated from the slot, to be passed back
/// into the matching finish operation once the user callback has run.
pub enum ReadyStep<C, S, L, H> {
    /// A listener is ready: accept from it, then reserve a token with
    /// [`ReactorHandler::accept_reserve`], run the accept handler, settle
    /// the new slot with [`ReactorHandler::accept_done`] or
    /// [`ReactorHandler::accept_reject`], and finish with
    /// [`ReactorHandler::accept_restore`].
    Accept { listener: L, handler: H },
    /// Deliver `events` to `ctx` in order, then finish with
    /// [`ReactorHandler::dispatch_done`].
    Dispatch { ctx: C, events: Vec<EventType> },
    /// Deliver `events` to `ctx` in order — a `Readable` then the terminal
    /// `Disconnect` — then drop the context and finish with
    /// [`ReactorHandler::discard_dispatched`].
    CloseDispatch { ctx: C, events: Vec<EventType> },
    /// A pending connection failed before completing: its slot is already
    /// released; call the handler with the failure. There is nothing to
    /// finish.
    ConnectFailed { sock: S, handler: H },
    /// A pending connection completed: call the handler with the connected
    /// socket; settle with [`ReactorHandler::dispatch_done`] if it returns a
    /// context, with [`ReactorHandler::discard_dispatched`] if it declines.
    ConnectReady { sock: S, handler: H },
    /// Nothing to do; the state is unchanged.
    Quiet,
}

/// What the driver must do after a timer fired.
pub enum TimerStep<C, T> {
    /// Deliver `event` to the context registered under `token`, then finish
    /// with [`ReactorHandler::timeout_done`] on that token.
    Conn { token: Token, ctx: C, event: EventType },
    /// Call the standalone handler with the timer token. There is nothing
    /// to finish.
    Standalone { handler: T },
    /// The timer's target is no longer a connected context: nothing is
    /// dispatched.
    Gone,
}

/// The dispatch half of the reactor: it owns the state and turns raw poller
/// events into vacate-and-restore dispatch frames. Every frame is opened by
/// `ready`, `notify` or `timeout` and closed by the matching finish
/// operation; between the two the slot being dispatched is `Vacant`, so the
/// user callback may re-enter the reactor freely.
pub struct ReactorHandler<C, S, L, H, T> {
    pub state: ReactorState<C, S, L, H, T>,
}

impl<C, S, L, H, T> ReactorHandler<C, S, L, H, T> {
    /// Everything observable is unchanged between the two states; the
    /// connection slab is compared by contents because a slot may have been
    /// vacated and restored in between.
    pub open spec fn state_equiv(a: ReactorState<C, S, L, H, T>, b: ReactorState<C, S, L, H, T>) -> bool {
        &&& b.listeners == a.listeners
        &&& b.conns.slots() == a.conns.slots()
        &&& b.conns.start() == a.conns.start()
        &&& b.conns.capacity_spec() == a.conns.capacity_spec()
        &&& b.conns.count_spec() == a.conns.count_spec()
        &&& b.timeouts == a.timeouts
        &&& b.config == a.config
        &&& forall|u: int| b.poll.io_interest(u) == a.poll.io_interest(u)
        &&& forall|u: int| b.poll.timer_set(u) == a.poll.timer_set(u)
        &&& b.poll.running() == a.poll.running()
        &&& b.poll.io_cap() == a.poll.io_cap()
        &&& b.poll.timer_cap() == a.poll.timer_cap()
        &&& b.ops@ == a.ops@
        &&& b.dispatching == a.dispatching
    }

    /// The connection slab is as before except that slot `t0` now holds
    /// `rec`; everything else — other slabs, poller, command log — is
    /// unchanged.
    pub open spec fn only_conn_slot_set(
        pre: ReactorState<C, S, L, H, T>,
        post: ReactorState<C, S, L, H, T>,
        t0: int,
        rec: ConnRec<C, S, H>,
    ) -> bool {
        &&& post.conns.slots() == pre.conns.slots().update(pre.conns.idx(t0), Some(rec))
        &&& post.conns.start() == pre.conns.start()
        &&& post.conns.capacity_spec() == pre.conns.capacity_spec()
        &&& post.conns.count_spec() == pre.conns.count_spec()
        &&& post.listeners == pre.listeners
        &&& post.timeouts == pre.timeouts
        &&& post.config == pre.config
        &&& forall|u: int| post.poll.io_interest(u) == pre.poll.io_interest(u)
        &&& forall|u: int| post.poll.timer_set(u) == pre.poll.timer_set(u)
        &&& post.poll.running() == pre.poll.running()
        &&& post.poll.io_cap() == pre.poll.io_cap()
        &&& post.poll.timer_cap() == pre.poll.timer_cap()
        &&& post.ops@ == pre.ops@
    }

    /// The events the poller may report for `token` must match what the
    /// registry holds for it: readiness for a listener token needs a present
    /// listener, readiness for a connection token needs a `Pending` or
    /// `Connected` slot. Readiness for anything else is the fatal
    /// "event for an unregistered token" of the dispatch contract, which
    /// the driver rules out before calling in.
    pub open spec fn ready_allowed(
        st: ReactorState<C, S, L, H, T>,
        token: Token,
        events: EventSet,
    ) -> bool {
        if events.readable {
            if st.listeners.occupied(token.0 as int) {
                st.listeners.value_at(token.0 as int) is Some
            } else {
                st.conn_live(token.0 as int)
            }
        } else if events.writable {
            st.conn_live(token.0 as int)
        } else {
            true
        }
    }

    /// Routes one readiness report: a readable listener token goes to the
    /// accept path, a readable connection token to the read path, a
    /// writable connection token to the write path. Anything else is quiet.
    pub fn ready(&mut self, token: Token, events: EventSet) -> (step: ReadyStep<C, S, L, H>)
        requires
            old(self).state.wf(),
            old(self).state.at_rest(),
            Self::ready_allowed(old(self).state, token, events),
        ensures
            final(self).state.wf(),
            ({
                let st0 = old(self).state;
                let st1 = final(self).state;
                let t0 = token.0 as int;
                match step {
                    ReadyStep::Accept { listener, handler } => {
                        &&& events.readable
                        &&& st0.listeners.occupied(t0)
                        &&& st0.listeners.value_at(t0) == Some((listener, handler))
                        &&& st1.listeners.slots() == st0.listeners.slots().update(
                            st0.listeners.idx(t0),
                            Some(None),
                        )
                        &&& st1.listeners.count_spec() == st0.listeners.count_spec()
                        &&& st1.conns == st0.conns
                        &&& st1.timeouts == st0.timeouts
                        &&& st1.config == st0.config
                        &&& st1.poll.running() == st0.poll.running()
                        &&& st1.ops@ == st0.ops@
                        &&& forall|u: int| st1.poll.io_interest(u) == st0.poll.io_interest(u)
                        &&& forall|u: int| st1.poll.timer_set(u) == st0.poll.timer_set(u)
                        &&& st1.dispatching@ == Some(t0)
                    },
                    ReadyStep::Dispatch { ctx, events: evs } => {
                        &&& st0.conns.occupied(t0)
                        &&& st0.conns.value_at(t0) == ConnRec::<C, S, H>::Connected(ctx)
                        &&& evs@ == if events.readable {
                            seq![EventType::Readable]
                        } else {
                            seq![EventType::Writable]
                        }
                        &&& events.readable ==> !events.spec_closing()
                        &&& Self::only_conn_slot_set(st0, st1, t0, ConnRec::Vacant)
                        &&& st1.dispatching@ == Some(t0)
                    },
                    ReadyStep::CloseDispatch { ctx, events: evs } => {
                        &&& events.readable && events.spec_closing()
                        &&& st0.conns.occupied(t0)
                        &&& st0.conns.value_at(t0) == ConnRec::<C, S, H>::Connected(ctx)
                        &&& evs@ == seq![EventType::Readable, EventType::Disconnect]
                        &&& Self::only_conn_slot_set(st0, st1, t0, ConnRec::Vacant)
                        &&& st1.dispatching@ == Some(t0)
                    },
                    ReadyStep::ConnectFailed { sock, handler } => {
                        &&& events.readable && events.spec_closing()
                        &&& st0.conns.occupied(t0)
                        &&& st0.conns.value_at(t0) == ConnRec::<C, S, H>::Pending(sock, handler)
                        &&& st1.conns.slots() == st0.conns.slots().update(st0.conns.idx(t0), None)
                        &&& st1.conns.count_spec() == st0.conns.count_spec() - 1
                        &&& st1.poll.io_interest(t0) is None
                        &&& forall|u: int|
                            u != t0 ==> st1.poll.io_interest(u) == st0.poll.io_interest(u)
                        &&& forall|u: int| st1.poll.timer_set(u) == st0.poll.timer_set(u)
                        &&& st1.ops@ == st0.ops@.push(PollOp::Deregister { token })
                        &&& st1.listeners == st0.listeners
                        &&& st1.timeouts == st0.timeouts
                        &&& st1.config == st0.config
                        &&& st1.poll.running() == st0.poll.running()
                        &&& st1.at_rest()
                    },
                    ReadyStep::ConnectReady { sock, handler } => {
                        &&& !events.readable && events.writable
                        &&& st0.conns.occupied(t0)
                        &&& st0.conns.value_at(t0) == ConnRec::<C, S, H>::Pending(sock, handler)
                        &&& Self::only_conn_slot_set(st0, st1, t0, ConnRec::Vacant)
                        &&& st1.dispatching@ == Some(t0)
                    },
                    ReadyStep::Quiet => {
                        &&& (events.readable && !events.spec_closing() && st0.conns.occupied(t0)
                            && st0.conns.value_at(t0) is Pending) || (!events.readable
                            && !events.writable)
                        &&& Self::state_equiv(st0, st1)
                        &&& st1.at_rest()
                    },
                }
            }),
            events.readable && old(self).state.listener_live(token.0 as int) ==> step is Accept,
    {
        if events.readable {
            if self.state.is_listener(token) {
                self.accept(token)
            } else {
                self.on_read(token, events)
            }
        } else if events.writable {
            self.on_write(token)
        } else {
            ReadyStep::Quiet
        }
    }

    /// The accept path: vacates the listener slot for the duration of the
    /// accept dispatch, so the accept handler may re-enter the reactor.
    fn accept(&mut self, token: Token) -> (step: ReadyStep<C, S, L, H>)
        requires
            old(self).state.wf(),
            old(self).state.at_rest(),
            old(self).state.listener_live(token.0 as int),
        ensures
            final(self).state.wf(),
            step is Accept,
            ({
                let st0 = old(self).state;
                let st1 = final(self).state;
                let t0 = token.0 as int;
                step matches ReadyStep::Accept { listener, handler } ==> {
                    &&& st0.listeners.value_at(t0) == Some((listener, handler))
                    &&& st1.listeners.slots() == st0.listeners.slots().update(
                        st0.listeners.idx(t0),
                        Some(None),
                    )
                    &&& st1.listeners.count_spec() == st0.listeners.count_spec()
                    &&& st1.conns == st0.conns
                    &&& st1.timeouts == st0.timeouts
                    &&& st1.config == st0.config
                    &&& st1.poll.running() == st0.poll.running()
                    &&& st1.ops@ == st0.ops@
                    &&& forall|u: int| st1.poll.io_interest(u) == st0.poll.io_interest(u)
                    &&& forall|u: int| st1.poll.timer_set(u) == st0.poll.timer_set(u)
                    &&& st1.dispatching@ == Some(t0)
                }
            }),
    {
        let rec = self.state.listeners.replace(token, None);
        self.state.dispatching = Ghost(Some(token.0 as int));
        proof {
            let t0 = token.0 as int;
            assert forall|t: int|
                #[trigger] self.state.poll.io_registered(t) && Some(t) != self.state.dispatching@ implies self.state.io_token_live(
                t,
            ) by {
                assert(old(self).state.poll.io_registered(t));
                assert(old(self).state.io_token_live(t));
                assert(t != t0);
            }
            assert forall|t: int| #[trigger] self.state.poll.timer_set(t) implies self.state.timeouts.occupied(
                t,
            ) by {
                assert(old(self).state.poll.timer_set(t));
            }
        }
        match rec {
            Some((listener, handler)) => ReadyStep::Accept { listener, handler },
            None => unreached(),
        }
    }

    /// The read path: a `Pending` slot whose first readiness carries hangup
    /// failed to connect — its handler is told so and the token released; a
    /// `Connected` slot is dispatched `Readable`, followed by a terminal
    /// `Disconnect` when hangup or error is set.
    fn on_read(&mut self, token: Token, events: EventSet) -> (step: ReadyStep<C, S, L, H>)
        requires
            old(self).state.wf(),
            old(self).state.at_rest(),
            old(self).state.conn_live(token.0 as int),
            events.readable,
        ensures
            final(self).state.wf(),
            !(step is Accept) && !(step is ConnectReady),
            ({
                let st0 = old(self).state;
                let st1 = final(self).state;
                let t0 = token.0 as int;
                match step {
                    ReadyStep::Dispatch { ctx, events: evs } => {
                        &&& st0.conns.value_at(t0) == ConnRec::<C, S, H>::Connected(ctx)
                        &&& !events.spec_closing()
                        &&& evs@ == seq![EventType::Readable]
                        &&& Self::only_conn_slot_set(st0, st1, t0, ConnRec::Vacant)
                        &&& st1.dispatching@ == Some(t0)
                    },
                    ReadyStep::CloseDispatch { ctx, events: evs } => {
                        &&& st0.conns.value_at(t0) == ConnRec::<C, S, H>::Connected(ctx)
                        &&& events.spec_closing()
                        &&& evs@ == seq![EventType::Readable, EventType::Disconnect]
                        &&& Self::only_conn_slot_set(st0, st1, t0, ConnRec::Vacant)
                        &&& st1.dispatching@ == Some(t0)
                    },
                    ReadyStep::ConnectFailed { sock, handler } => {
                        &&& st0.conns.value_at(t0) == ConnRec::<C, S, H>::Pending(sock, handler)
                        &&& events.spec_closing()
                        &&& st1.conns.slots() == st0.conns.slots().update(st0.conns.idx(t0), None)
                        &&& st1.conns.count_spec() == st0.conns.count_spec() - 1
                        &&& st1.poll.io_interest(t0) is None
                        &&& forall|u: int|
                            u != t0 ==> st1.poll.io_interest(u) == st0.poll.io_interest(u)
                        &&& forall|u: int| st1.poll.timer_set(u) == st0.poll.timer_set(u)
                        &&& st1.ops@ == st0.ops@.push(PollOp::Deregister { token })
                        &&& st1.listeners == st0.listeners
                        &&& st1.timeouts == st0.timeouts
                        &&& st1.config == st0.config
                        &&& st1.poll.running() == st0.poll.running()
                        &&& st1.at_rest()
                    },
                    ReadyStep::Quiet => {
                        &&& st0.conns.value_at(t0) is Pending
                        &&& !events.spec_closing()
                        &&& Self::state_equiv(st0, st1)
                        &&& st1.at_rest()
                    },
                    _ => false,
                }
            }),
    {
        let close = events.is_closing();
        let prev = self.state.conns.replace(token, ConnRec::Vacant);
        match prev {
            ConnRec::Pending(sock, handler) => {
                if close {
                    let _ = self.state.conns.remove(token);
                    self.state.poll.clear_io(token);
                    self.state.ops.push(PollOp::Deregister { token });
                    proof {
                        let t0 = token.0 as int;
                        assert(final(self).state.conns.slots() =~= old(
                            self,
                        ).state.conns.slots().update(old(self).state.conns.idx(t0), None));
                        assert forall|t: int|
                            #[trigger] self.state.poll.io_registered(t) && Some(t)
                                != self.state.dispatching@ implies self.state.io_token_live(t) by {
                            assert(t != t0);
                            assert(old(self).state.poll.io_registered(t));
                            assert(old(self).state.io_token_live(t));
                        }
                        assert forall|t: int| #[trigger] self.state.poll.timer_set(t) implies self.state.timeouts.occupied(
                            t,
                        ) by {
                            assert(old(self).state.poll.timer_set(t));
                        }
                    }
                    ReadyStep::ConnectFailed { sock, handler }
                } else {
                    let _ = self.state.conns.replace(token, ConnRec::Pending(sock, handler));
                    proof {
                        assert(self.state.conns.slots() =~= old(self).state.conns.slots());
                        assert forall|t: int|
                            #[trigger] self.state.poll.io_registered(t) && Some(t)
                                != self.state.dispatching@ implies self.state.io_token_live(t) by {
                            assert(old(self).state.poll.io_registered(t));
                            assert(old(self).state.io_token_live(t));
                        }
                        assert forall|t: int| #[trigger] self.state.poll.timer_set(t) implies self.state.timeouts.occupied(
                            t,
                        ) by {
                            assert(old(self).state.poll.timer_set(t));
                        }
                    }
                    ReadyStep::Quiet
                }
            },
            ConnRec::Connected(ctx) => {
                self.state.dispatching = Ghost(Some(token.0 as int));
                proof {
                    self.lemma_vacate_synced(old(self).state, token.0 as int);
                }
                let mut evs: Vec<EventType> = Vec::new();
                evs.push(EventType::Readable);
                if close {
                    evs.push(EventType::Disconnect);
                    proof {
                        assert(evs@ =~= seq![EventType::Readable, EventType::Disconnect]);
                    }
                    ReadyStep::CloseDispatch { ctx, events: evs }
                } else {
                    proof {
                        assert(evs@ =~= seq![EventType::Readable]);
                    }
                    ReadyStep::Dispatch { ctx, events: evs }
                }
            },
            ConnRec::Vacant => unreached(),
        }
    }

    /// The write path: a `Connected` slot is dispatched `Writable`; a
    /// `Pending` slot's first writability is the connect completion, which
    /// goes to the connect handler.
    fn on_write(&mut self, token: Token) -> (step: ReadyStep<C, S, L, H>)
        requires
            old(self).state.wf(),
            old(self).state.at_rest(),
            old(self).state.conn_live(token.0 as int),
        ensures
            final(self).state.wf(),
            ({
                let st0 = old(self).state;
                let st1 = final(self).state;
                let t0 = token.0 as int;
                match step {
                    ReadyStep::Dispatch { ctx, events: evs } => {
                        &&& st0.conns.value_at(t0) == ConnRec::<C, S, H>::Connected(ctx)
                        &&& evs@ == seq![EventType::Writable]
                        &&& Self::only_conn_slot_set(st0, st1, t0, ConnRec::Vacant)
                        &&& st1.dispatching@ == Some(t0)
                    },
                    ReadyStep::ConnectReady { sock, handler } => {
                        &&& st0.conns.value_at(t0) == ConnRec::<C, S, H>::Pending(sock, handler)
                        &&& Self::only_conn_slot_set(st0, st1, t0, ConnRec::Vacant)
                        &&& st1.dispatching@ == Some(t0)
                    },
                    _ => false,
                }
            }),
    {
        let prev = self.state.conns.replace(token, ConnRec::Vacant);
        self.state.dispatching = Ghost(Some(token.0 as int));
        proof {
            self.lemma_vacate_synced(old(self).state, token.0 as int);
        }
        match prev {
            ConnRec::Connected(ctx) => {
                let mut evs: Vec<EventType> = Vec::new();
                evs.push(EventType::Writable);
                proof {
                    assert(evs@ =~= seq![EventType::Writable]);
                }
                ReadyStep::Dispatch { ctx, events: evs }
            },
            ConnRec::Pending(sock, handler) => ReadyStep::ConnectReady { sock, handler },
            ConnRec::Vacant => unreached(),
        }
    }

    /// Closes a dispatch frame by restoring the context into its slot and
    /// re-registering it with its declared interest plus hangup, so that a
    /// peer closing the socket is always detected.
    pub fn dispatch_done(&mut self, token: Token, ctx: C, interest: EventSet)
        requires
            old(self).state.wf(),
            old(self).state.dispatching@ == Some(token.0 as int),
            token.0 >= 256,
        ensures
            final(self).state.wf(),
            final(self).state.at_rest(),
            ({
                let st0 = old(self).state;
                let st1 = final(self).state;
                let t0 = token.0 as int;
                let es = EventSet { hup: true, ..interest };
                &&& st1.conns.slots() == st0.conns.slots().update(
                    st0.conns.idx(t0),
                    Some(ConnRec::Connected(ctx)),
                )
                &&& st1.conns.count_spec() == st0.conns.count_spec()
                &&& st1.poll.io_interest(t0) == Some(es)
                &&& forall|u: int| u != t0 ==> st1.poll.io_interest(u) == st0.poll.io_interest(u)
                &&& forall|u: int| st1.poll.timer_set(u) == st0.poll.timer_set(u)
                &&& st1.ops@ == st0.ops@.push(PollOp::Reregister { token, interest: es })
                &&& st1.listeners == st0.listeners
                &&& st1.timeouts == st0.timeouts
                &&& st1.config == st0.config
                &&& st1.poll.running() == st0.poll.running()
            }),
    {
        let es = interest.with_hup();
        let _ = self.state.conns.replace(token, ConnRec::Connected(ctx));
        self.state.poll.set_io(token, es);
        self.state.ops.push(PollOp::Reregister { token, interest: es });
        self.state.dispatching = Ghost(None);
        proof {
            self.lemma_close_frame(old(self).state, token.0 as int);
        }
    }

    /// Closes a dispatch frame by dropping the slot and releasing its
    /// token: after a terminal `Disconnect` was delivered, or when a
    /// connect handler declined the completed connection.
    pub fn discard_dispatched(&mut self, token: Token)
        requires
            old(self).state.wf(),
            old(self).state.dispatching@ == Some(token.0 as int),
            token.0 >= 256,
        ensures
            final(self).state.wf(),
            final(self).state.at_rest(),
            ({
                let st0 = old(self).state;
                let st1 = final(self).state;
                let t0 = token.0 as int;
                &&& st1.conns.slots() == st0.conns.slots().update(st0.conns.idx(t0), None)
                &&& st1.conns.count_spec() == st0.conns.count_spec() - 1
                &&& !st1.conns.occupied(t0)
                &&& st1.poll.io_interest(t0) is None
                &&& forall|u: int| u != t0 ==> st1.poll.io_interest(u) == st0.poll.io_interest(u)
                &&& forall|u: int| st1.poll.timer_set(u) == st0.poll.timer_set(u)
                &&& st1.ops@ == st0.ops@.push(PollOp::Deregister { token })
                &&& st1.listeners == st0.listeners
                &&& st1.timeouts == st0.timeouts
                &&& st1.config == st0.config
                &&& st1.poll.running() == st0.poll.running()
            }),
    {
        let _ = self.state.conns.remove(token);
        self.state.poll.clear_io(token);
        self.state.ops.push(PollOp::Deregister { token });
        self.state.dispatching = Ghost(None);
        proof {
            self.lemma_close_frame(old(self).state, token.0 as int);
        }
    }

    /// Closes a timer dispatch frame by restoring the context into its
    /// slot. Unlike the readiness paths, a timer firing does not touch the
    /// poller, so nothing is re-registered.
    pub fn timeout_done(&mut self, token: Token, ctx: C)
        requires
            old(self).state.wf(),
            old(self).state.dispatching@ == Some(token.0 as int),
            token.0 >= 256,
        ensures
            final(self).state.wf(),
            final(self).state.at_rest(),
            ({
                let st0 = old(self).state;
                let st1 = final(self).state;
                let t0 = token.0 as int;
                &&& st1.conns.slots() == st0.conns.slots().update(
                    st0.conns.idx(t0),
                    Some(ConnRec::Connected(ctx)),
                )
                &&& st1.conns.count_spec() == st0.conns.count_spec()
                &&& forall|u: int| st1.poll.io_interest(u) == st0.poll.io_interest(u)
                &&& forall|u: int| st1.poll.timer_set(u) == st0.poll.timer_set(u)
                &&& st1.ops@ == st0.ops@
                &&& st1.listeners == st0.listeners
                &&& st1.timeouts == st0.timeouts
                &&& st1.config == st0.config
                &&& st1.poll.running() == st0.poll.running()
            }),
    {
        let _ = self.state.conns.replace(token, ConnRec::Connected(ctx));
        self.state.dispatching = Ghost(None);
        proof {
            self.lemma_close_frame(old(self).state, token.0 as int);
        }
    }

    /// After the dispatching slot `t0` was settled — restored to a live
    /// record or removed, with its poller registration kept in step — and
    /// the window closed, the invariant holds again at rest.
    proof fn lemma_close_frame(self, pre: ReactorState<C, S, L, H, T>, t0: int)
        requires
            pre.wf(),
            pre.dispatching@ == Some(t0),
            t0 >= 256,
            self.state.at_rest(),
            self.state.listeners == pre.listeners,
            self.state.timeouts == pre.timeouts,
            self.state.conns.start() == pre.conns.start(),
            self.state.conns.capacity_spec() == pre.conns.capacity_spec(),
            self.state.conns.slots().len() == pre.conns.slots().len(),
            forall|u: int|
                0 <= u < pre.conns.slots().len() && u != pre.conns.idx(t0)
                    ==> self.state.conns.slots()[u] == pre.conns.slots()[u],
            self.state.poll.io_registered(t0) ==> self.state.io_token_live(t0),
            forall|u: int| u != t0 ==> self.state.poll.io_interest(u) == pre.poll.io_interest(u),
            forall|u: int| self.state.poll.timer_set(u) == pre.poll.timer_set(u),
            self.state.poll.io_cap() == pre.poll.io_cap(),
            self.state.poll.timer_cap() == pre.poll.timer_cap(),
        ensures
            self.state.synced(),
            self.state.dispatch_window(),
            self.state.timers_legal(),
    {
        assert forall|t: int|
            #[trigger] self.state.poll.io_registered(t) && Some(t) != self.state.dispatching@ implies self.state.io_token_live(
            t,
        ) by {
            if t != t0 {
                assert(pre.poll.io_registered(t));
                assert(pre.io_token_live(t));
                assert(self.state.conns.idx(t) != pre.conns.idx(t0));
            }
        }
        assert forall|t: int| #[trigger] self.state.poll.timer_set(t) implies self.state.timeouts.occupied(
            t,
        ) by {
            assert(pre.poll.timer_set(t));
        }
    }

    /// Reserves a fresh connection token for a socket just accepted; the
    /// slot stays `Vacant` until the accept handler decides its fate.
    pub fn accept_reserve(&mut self) -> (r: Result<Token, ReactorError>)
        requires
            old(self).state.wf(),
        ensures
            final(self).state.wf(),
            match r {
                Ok(tok) => {
                    let st0 = old(self).state;
                    let st1 = final(self).state;
                    let t0 = tok.0 as int;
                    &&& st0.conns.in_range(t0)
                    &&& !st0.conns.occupied(t0)
                    &&& !st0.poll.io_registered(t0)
                    &&& Some(t0) != st0.dispatching@
                    &&& st1.conns.slots() == st0.conns.slots().update(
                        st0.conns.idx(t0),
                        Some(ConnRec::Vacant),
                    )
                    &&& st1.conns.count_spec() == st0.conns.count_spec() + 1
                    &&& st1.listeners == st0.listeners
                    &&& st1.timeouts == st0.timeouts
                    &&& st1.config == st0.config
                    &&& st1.poll.running() == st0.poll.running()
                    &&& st1.poll == st0.poll
                    &&& st1.ops@ == st0.ops@
                    &&& st1.dispatching == st0.dispatching
                },
                Err(e) => {
                    &&& e == ReactorError::SlabFull
                    &&& *final(self) == *old(self)
                },
            },
            (r is Err) <==> old(self).state.conns.count_spec() >= old(
                self,
            ).state.config.max_connections,
    {
        if self.state.conns.count() >= self.state.config.max_connections {
            return Err(ReactorError::SlabFull);
        }
        match self.state.conns.insert(ConnRec::Vacant) {
            Ok(tok) => {
                proof {
                    let t0 = tok.0 as int;
                    if old(self).state.poll.io_registered(t0) {
                        if Some(t0) != old(self).state.dispatching@ {
                            assert(old(self).state.io_token_live(t0));
                        }
                        assert(false);
                    }
                    assert forall|t: int|
                        #[trigger] self.state.poll.io_registered(t) && Some(t)
                            != self.state.dispatching@ implies self.state.io_token_live(t) by {
                        assert(t != t0);
                        assert(old(self).state.poll.io_registered(t));
                        assert(old(self).state.io_token_live(t));
                    }
                    assert forall|t: int| #[trigger] self.state.poll.timer_set(t) implies self.state.timeouts.occupied(
                        t,
                    ) by {
                        assert(old(self).state.poll.timer_set(t));
                    }
                    match self.state.dispatching@ {
                        Some(d) => {
                            if d >= 256 {
                                assert(old(self).state.conns.value_at(d) is Vacant);
                                assert(d != t0);
                            }
                        },
                        None => {},
                    }
                }
                Ok(tok)
            },
            Err(_) => unreached(),
        }
    }

    /// The accept handler returned a context for the accepted socket: store
    /// it under the reserved token and register it with its declared
    /// interest plus hangup.
    pub fn accept_done(&mut self, newtok: Token, ctx: C, interest: EventSet)
        requires
            old(self).state.wf(),
            old(self).state.conns.occupied(newtok.0 as int),
            old(self).state.conns.value_at(newtok.0 as int) is Vacant,
            old(self).state.dispatching@ != Some(newtok.0 as int),
        ensures
            final(self).state.wf(),
            ({
                let st0 = old(self).state;
                let st1 = final(self).state;
                let t0 = newtok.0 as int;
                let es = EventSet { hup: true, ..interest };
                &&& st1.conns.slots() == st0.conns.slots().update(
                    st0.conns.idx(t0),
                    Some(ConnRec::Connected(ctx)),
                )
                &&& st1.conns.count_spec() == st0.conns.count_spec()
                &&& st1.poll.io_interest(t0) == Some(es)
                &&& forall|u: int| u != t0 ==> st1.poll.io_interest(u) == st0.poll.io_interest(u)
                &&& forall|u: int| st1.poll.timer_set(u) == st0.poll.timer_set(u)
                &&& st1.ops@ == st0.ops@.push(PollOp::Register { token: newtok, interest: es })
                &&& st1.listeners == st0.listeners
                &&& st1.timeouts == st0.timeouts
                &&& st1.config == st0.config
                &&& st1.poll.running() == st0.poll.running()
                &&& st1.dispatching == st0.dispatching
            }),
    {
        let es = interest.with_hup();
        let _ = self.state.conns.replace(newtok, ConnRec::Connected(ctx));
        self.state.poll.set_io(newtok, es);
        self.state.ops.push(PollOp::Register { token: newtok, interest: es });
        proof {
            let t0 = newtok.0 as int;
            assert forall|t: int|
                #[trigger] self.state.poll.io_registered(t) && Some(t) != self.state.dispatching@ implies self.state.io_token_live(
                t,
            ) by {
                if t == t0 {
                    assert(self.state.conns.occupied(t));
                } else {
                    assert(old(self).state.poll.io_registered(t));
                    assert(old(self).state.io_token_live(t));
                }
            }
            assert forall|t: int| #[trigger] self.state.poll.timer_set(t) implies self.state.timeouts.occupied(
                t,
            ) by {
                assert(old(self).state.poll.timer_set(t));
            }
            match self.state.dispatching@ {
                Some(d) => {
                    if d >= 256 {
                        assert(old(self).state.conns.value_at(d) is Vacant);
                        assert(d != t0);
                    }
                },
                None => {},
            }
        }
    }

    /// The accept handler declined the accepted socket: release the
    /// reserved token. Nothing was registered for it, so the poller is not
    /// touched.
    pub fn accept_reject(&mut self, newtok: Token)
        requires
            old(self).state.wf(),
            old(self).state.conns.occupied(newtok.0 as int),
            old(self).state.conns.value_at(newtok.0 as int) is Vacant,
            old(self).state.dispatching@ != Some(newtok.0 as int),
        ensures
            final(self).state.wf(),
            ({
                let st0 = old(self).state;
                let st1 = final(self).state;
                let t0 = newtok.0 as int;
                &&& st1.conns.slots() == st0.conns.slots().update(st0.conns.idx(t0), None)
                &&& st1.conns.count_spec() == st0.conns.count_spec() - 1
                &&& !st1.conns.occupied(t0)
                &&& st1.listeners == st0.listeners
                &&& st1.timeouts == st0.timeouts
                &&& st1.config == st0.config
                &&& st1.poll.running() == st0.poll.running()
                &&& st1.poll == st0.poll
                &&& st1.ops@ == st0.ops@
                &&& st1.dispatching == st0.dispatching
            }),
    {
        proof {
            let t0 = newtok.0 as int;
            if self.state.poll.io_registered(t0) {
                assert(old(self).state.io_token_live(t0));
                assert(false);
            }
        }
        let _ = self.state.conns.remove(newtok);
        proof {
            let t0 = newtok.0 as int;
            assert forall|t: int|
                #[trigger] self.state.poll.io_registered(t) && Some(t) != self.state.dispatching@ implies self.state.io_token_live(
                t,
            ) by {
                assert(t != t0);
                assert(old(self).state.poll.io_registered(t));
                assert(old(self).state.io_token_live(t));
            }
            assert forall|t: int| #[trigger] self.state.poll.timer_set(t) implies self.state.timeouts.occupied(
                t,
            ) by {
                assert(old(self).state.poll.timer_set(t));
            }
            match self.state.dispatching@ {
                Some(d) => {
                    if d >= 256 {
                        assert(old(self).state.conns.value_at(d) is Vacant);
                        assert(d != t0);
                    }
                },
                None => {},
            }
        }
    }

    /// Closes the accept frame: the listener and its handler go back into
    /// the listener slot, and the listener is re-armed for readable edges.
    pub fn accept_restore(&mut self, token: Token, listener: L, handler: H)
        requires
            old(self).state.wf(),
            old(self).state.dispatching@ == Some(token.0 as int),
            token.0 < 256,
        ensures
            final(self).state.wf(),
            final(self).state.at_rest(),
            ({
                let st0 = old(self).state;
                let st1 = final(self).state;
                let t0 = token.0 as int;
                let es = EventSet { readable: true, writable: false, hup: false, error: false };
                &&& st1.listeners.slots() == st0.listeners.slots().update(
                    st0.listeners.idx(t0),
                    Some(Some((listener, handler))),
                )
                &&& st1.listeners.count_spec() == st0.listeners.count_spec()
                &&& st1.conns == st0.conns
                &&& st1.timeouts == st0.timeouts
                &&& st1.config == st0.config
                &&& st1.poll.running() == st0.poll.running()
                &&& st1.poll.io_interest(t0) == Some(es)
                &&& forall|u: int| u != t0 ==> st1.poll.io_interest(u) == st0.poll.io_interest(u)
                &&& forall|u: int| st1.poll.timer_set(u) == st0.poll.timer_set(u)
                &&& st1.ops@ == st0.ops@.push(PollOp::Reregister { token, interest: es })
            }),
    {
        let es = EventSet::readable();
        let _ = self.state.listeners.replace(token, Some((listener, handler)));
        self.state.poll.set_io(token, es);
        self.state.ops.push(PollOp::Reregister { token, interest: es });
        self.state.dispatching = Ghost(None);
        proof {
            let t0 = token.0 as int;
            assert forall|t: int|
                #[trigger] self.state.poll.io_registered(t) && Some(t) != self.state.dispatching@ implies self.state.io_token_live(
                t,
            ) by {
                if t == t0 {
                    assert(self.state.listeners.occupied(t));
                } else {
                    assert(old(self).state.poll.io_registered(t));
                    assert(old(self).state.io_token_live(t));
                }
            }
            assert forall|t: int| #[trigger] self.state.poll.timer_set(t) implies self.state.timeouts.occupied(
                t,
            ) by {
                assert(old(self).state.poll.timer_set(t));
            }
        }
    }

    /// A notify message arrived for a connection token: vacates the slot
    /// and hands out its context together with the `Notify` event carrying
    /// the payload, to be delivered and then finished with
    /// [`ReactorHandler::dispatch_done`]. Notify for a `Pending` or absent
    /// slot is the fatal dispatch-contract violation, which the driver
    /// rules out before calling in.
    pub fn notify(&mut self, token: Token, payload: Vec<u8>) -> (r: (C, EventType))
        requires
            old(self).state.wf(),
            old(self).state.at_rest(),
            old(self).state.conns.occupied(token.0 as int),
            old(self).state.conns.value_at(token.0 as int) is Connected,
        ensures
            final(self).state.wf(),
            ({
                let st0 = old(self).state;
                let st1 = final(self).state;
                let t0 = token.0 as int;
                &&& st0.conns.value_at(t0) == ConnRec::<C, S, H>::Connected(r.0)
                &&& r.1 == EventType::Notify(payload)
                &&& Self::only_conn_slot_set(st0, st1, t0, ConnRec::Vacant)
                &&& st1.dispatching@ == Some(t0)
            }),
    {
        let prev = self.state.conns.replace(token, ConnRec::Vacant);
        self.state.dispatching = Ghost(Some(token.0 as int));
        proof {
            self.lemma_vacate_synced(old(self).state, token.0 as int);
        }
        match prev {
            ConnRec::Connected(ctx) => (ctx, EventType::Notify(payload)),
            _ => unreached(),
        }
    }

    /// A timer fired: removes its slot and decides the dispatch. A
    /// connection-bound timer whose target is still `Connected` opens a
    /// dispatch frame on the target; one whose target is gone dispatches
    /// nothing. A standalone timer hands its handler out to be called with
    /// the timer token. A firing for a token without a timer slot is the
    /// fatal dispatch-contract violation, which the driver rules out.
    pub fn timeout(&mut self, timeout_id: usize) -> (step: TimerStep<C, T>)
        requires
            old(self).state.wf(),
            old(self).state.at_rest(),
            old(self).state.timeouts.occupied(timeout_id as int),
        ensures
            final(self).state.wf(),
            ({
                let st0 = old(self).state;
                let st1 = final(self).state;
                let tid = timeout_id as int;
                let rec = st0.timeouts.value_at(tid);
                &&& st1.timeouts.slots() == st0.timeouts.slots().update(
                    st0.timeouts.idx(tid),
                    None,
                )
                &&& st1.timeouts.count_spec() == st0.timeouts.count_spec() - 1
                &&& !st1.poll.timer_set(tid)
                &&& forall|u: int| u != tid ==> st1.poll.timer_set(u) == st0.poll.timer_set(u)
                &&& forall|u: int| st1.poll.io_interest(u) == st0.poll.io_interest(u)
                &&& st1.listeners == st0.listeners
                &&& st1.ops@ == st0.ops@
                &&& st1.config == st0.config
                &&& st1.poll.running() == st0.poll.running()
                &&& match step {
                    TimerStep::Conn { token, ctx, event } => {
                        &&& rec.0 == Some(token)
                        &&& rec.0 matches Some(ct)
                        &&& st0.conns.value_at(ct.0 as int) == ConnRec::<C, S, H>::Connected(ctx)
                        &&& event == EventType::Timeout(timeout_id)
                        &&& st1.conns.slots() == st0.conns.slots().update(
                            st0.conns.idx(ct.0 as int),
                            Some(ConnRec::Vacant),
                        )
                        &&& st1.conns.count_spec() == st0.conns.count_spec()
                        &&& st1.dispatching@ == Some(ct.0 as int)
                    },
                    TimerStep::Standalone { handler } => {
                        &&& rec == (None::<Token>, Some(handler))
                        &&& st1.conns == st0.conns
                        &&& st1.at_rest()
                    },
                    TimerStep::Gone => {
                        &&& rec.0 matches Some(ct)
                        &&& !(st0.conns.occupied(ct.0 as int) && st0.conns.value_at(
                            ct.0 as int,
                        ) is Connected)
                        &&& st1.conns == st0.conns
                        &&& st1.at_rest()
                    },
                }
            }),
    {
        let tok = Token(timeout_id);
        let rec = self.state.timeouts.remove(tok);
        self.state.poll.clear_timer(tok);
        proof {
            let tid = timeout_id as int;
            assert forall|t: int|
                #[trigger] self.state.poll.io_registered(t) && Some(t) != self.state.dispatching@ implies self.state.io_token_live(
                t,
            ) by {
                assert(old(self).state.poll.io_registered(t));
                assert(old(self).state.io_token_live(t));
            }
            assert forall|t: int| #[trigger] self.state.poll.timer_set(t) implies self.state.timeouts.occupied(
                t,
            ) by {
                assert(t != tid);
                assert(old(self).state.poll.timer_set(t));
                assert(old(self).state.timeouts.occupied(t));
            }
            assert forall|t: int| self.state.timeouts.occupied(t) implies ((
            #[trigger] self.state.timeouts.value_at(t)).0 is Some) != (self.state.timeouts.value_at(
                t,
            ).1 is Some) by {
                assert(old(self).state.timeouts.occupied(t));
                assert(self.state.timeouts.value_at(t) == old(self).state.timeouts.value_at(t));
            }
        }
        match rec {
            Some((Some(ctxtok), None)) => {
                match self.state.conn_state(ctxtok) {
                    SlotKind::Connected => {
                        let ghost mid = self.state;
                        let prev = self.state.conns.replace(ctxtok, ConnRec::Vacant);
                        self.state.dispatching = Ghost(Some(ctxtok.0 as int));
                        proof {
                            self.lemma_vacate_synced(mid, ctxtok.0 as int);
                        }
                        match prev {
                            ConnRec::Connected(ctx) => TimerStep::Conn {
                                token: ctxtok,
                                ctx,
                                event: EventType::Timeout(timeout_id),
                            },
                            _ => unreached(),
                        }
                    },
                    _ => TimerStep::Gone,
                }
            },
            Some((None, Some(handler))) => TimerStep::Standalone { handler },
            Some((Some(_), Some(_))) => unreached(),
            Some((None, None)) => unreached(),
            None => unreached(),
        }
    }

    /// After a connection slot `t0` was swapped to `Vacant` and the
    /// dispatch window opened on it, the poller stays in sync.
    proof fn lemma_vacate_synced(self, pre: ReactorState<C, S, L, H, T>, t0: int)
        requires
            pre.wf(),
            pre.at_rest(),
            pre.conns.occupied(t0),
            self.state.conns.slots() == pre.conns.slots().update(pre.conns.idx(t0), Some(
                ConnRec::<C, S, H>::Vacant,
            )),
            self.state.conns.start() == pre.conns.start(),
            self.state.conns.capacity_spec() == pre.conns.capacity_spec(),
            self.state.listeners == pre.listeners,
            self.state.timeouts == pre.timeouts,
            self.state.config == pre.config,
            self.state.poll == pre.poll,
            self.state.dispatching@ == Some(t0),
        ensures
            self.state.synced(),
            self.state.dispatch_window(),
            self.state.timers_legal(),
    {
        assert forall|t: int|
            #[trigger] self.state.poll.io_registered(t) && Some(t) != self.state.dispatching@ implies self.state.io_token_live(
            t,
        ) by {
            assert(t != t0);
            assert(pre.poll.io_registered(t));
            assert(pre.io_token_live(t));
        }
        assert forall|t: int| #[trigger] self.state.poll.timer_set(t) implies self.state.timeouts.occupied(
            t,
        ) by {
            assert(pre.poll.timer_set(t));
        }
        assert(t0 >= 256);
        assert(self.state.conns.occupied(t0));
        assert(self.state.conns.value_at(t0) is Vacant);
    }
}

} // verus!
