use vstd::prelude::*;
use crate::poller::{EventSet, PollModel, PollOp};
use crate::slab::{Slab, Token};

verus! {

/// Configuration for the reactor: notify channel capacity, the upper bound
/// on live connection slots, the timer-slab multiplier, and the upper bound
/// on one poll tick in milliseconds.
#[derive(Clone, Copy, PartialEq, Eq, Structural, Debug)]
pub struct ReactorConfig {
    pub out_queue_size: usize,
    pub max_connections: usize,
    pub timers_per_connection: usize,
    pub poll_timeout_ms: usize,
}

impl Default for ReactorConfig {
    /// The stock configuration.
    fn default() -> (r: Self)
        ensures
            r == (ReactorConfig {
                out_queue_size: 524288,
                max_connections: 10240,
                timers_per_connection: 1,
                poll_timeout_ms: 100,
            }),
    {
        ReactorConfig {
            out_queue_size: 524288,
            max_connections: 10240,
            timers_per_connection: 1,
            poll_timeout_ms: 100,
        }
    }
}

/// The bookkeeping errors the reactor reports to its caller. I/O failures
/// are the driver's business; these cover the registry itself.
#[derive(Clone, Copy, PartialEq, Eq, Structural, Debug)]
pub enum ReactorError {
    /// The targeted slab is at its configured capacity; nothing was changed.
    SlabFull,
    /// The token names no live entry.
    NotFound,
    /// The connection for the token is still pending, so there is no context
    /// to return; the pending connection was discarded.
    PendingConnection,
}

/// A connection slot: the tagged variant at the heart of the dispatch
/// protocol. While a handler runs, its own slot is `Vacant`.
pub enum ConnRec<C, S, H> {
    /// The slot owns a connected context.
    Connected(C),
    /// An outbound connection in progress: the socket and the handler to
    /// call on its first readiness.
    Pending(S, H),
    /// Reserved, or momentarily emptied for the duration of a dispatch.
    Vacant,
}

/// A listener slot: the bound socket and its accept handler. The slot is
/// `None` only while an accept dispatch is running on it.
pub type ListenRec<L, H> = Option<(L, H)>;

/// A timer slot: either the connection token the timer fires into, or a
/// standalone handler — never both, never neither.
pub type TimerRec<T> = (Option<Token>, Option<T>);

/// What a connection token currently names.
#[derive(Clone, Copy, PartialEq, Eq, Structural, Debug)]
pub enum SlotKind {
    Absent,
    Vacant,
    Pending,
    Connected,
}

/// The reactor's registry and its model of the poller. `C` is the
/// user-supplied per-socket context, `S` a stream socket, `L` a listener
/// socket, `H` a connect/accept handler and `T` a standalone timer handler;
/// all five are opaque to the core, which only stores and routes them.
pub struct ReactorState<C, S, L, H, T> {
    pub listeners: Slab<ListenRec<L, H>>,
    pub conns: Slab<ConnRec<C, S, H>>,
    pub timeouts: Slab<TimerRec<T>>,
    pub config: ReactorConfig,
    /// What the poller holds, as far as the commands issued so far go.
    pub poll: PollModel,
    /// Commands not yet carried out by the driver that owns the real poller.
    pub ops: Vec<PollOp>,
    /// The token whose slot is vacated because a dispatch into it is running.
    pub dispatching: Ghost<Option<int>>,
}

impl<C, S, L, H, T> ReactorState<C, S, L, H, T> {
    /// Whether `t` names a listener slot that holds its listener.
    pub open spec fn listener_live(self, t: int) -> bool {
        self.listeners.occupied(t) && self.listeners.value_at(t) is Some
    }

    /// Whether `t` names a connection slot that is `Pending` or `Connected`.
    pub open spec fn conn_live(self, t: int) -> bool {
        self.conns.occupied(t) && !(self.conns.value_at(t) is Vacant)
    }

    /// Whether the resource the poller polls under `t` is present in the
    /// slab that owns `t`'s range.
    pub open spec fn io_token_live(self, t: int) -> bool {
        if t < 256 {
            self.listener_live(t)
        } else {
            self.conn_live(t)
        }
    }

    /// Every timer slot is either connection-bound or standalone.
    pub open spec fn timers_legal(self) -> bool {
        forall|t: int|
            self.timeouts.occupied(t) ==> ((#[trigger] self.timeouts.value_at(t)).0 is Some)
                != (self.timeouts.value_at(t).1 is Some)
    }

    /// The poller never holds a token whose slot is gone: every registered
    /// I/O token names a live listener or connection — except the one token
    /// whose dispatch is running — and every armed timer token names a timer
    /// slot.
    pub open spec fn synced(self) -> bool {
        &&& forall|t: int|
            #[trigger] self.poll.io_registered(t) && Some(t) != self.dispatching@
                ==> self.io_token_live(t)
        &&& forall|t: int| #[trigger] self.poll.timer_set(t) ==> self.timeouts.occupied(t)
    }

    /// While a dispatch runs, the slot it came from stays reserved and is
    /// emptied, so the handler can re-enter the reactor without aliasing it.
    pub open spec fn dispatch_window(self) -> bool {
        self.dispatching@ matches Some(d) ==> {
            if d < 256 {
                self.listeners.occupied(d) && self.listeners.value_at(d) is None
            } else {
                self.conns.occupied(d) && self.conns.value_at(d) is Vacant
            }
        }
    }

    /// Well-formedness: slab geometry as configured, the poller model sized
    /// to the token ranges, legal timer slots, and the poller in sync with
    /// the slabs.
    pub open spec fn wf(self) -> bool {
        &&& self.listeners.wf()
        &&& self.listeners.start() == 0
        &&& self.listeners.capacity_spec() == 255
        &&& self.conns.wf()
        &&& self.conns.start() == 256
        &&& self.conns.capacity_spec() == self.config.max_connections + 256
        &&& self.timeouts.wf()
        &&& self.timeouts.start() == 0
        &&& self.timeouts.capacity_spec() == (self.config.max_connections + 256)
            * self.config.timers_per_connection
        &&& self.poll.io_cap() == self.conns.end()
        &&& self.poll.timer_cap() == self.timeouts.capacity_spec()
        &&& self.timers_legal()
        &&& self.synced()
        &&& self.dispatch_window()
    }

    /// Whether no dispatch frame is currently running.
    pub open spec fn at_rest(self) -> bool {
        self.dispatching@ is None
    }

    /// A fresh registry sized by `cfg`: 255 listener slots from token 0,
    /// `max_connections + 256` connection slots from token 256, and
    /// `timers_per_connection` timer slots per connection slot from token 0.
    pub fn new(cfg: ReactorConfig) -> (s: Self)
        requires
            cfg.max_connections + 512 <= usize::MAX,
            (cfg.max_connections + 256) * cfg.timers_per_connection <= usize::MAX,
        ensures
            s.wf(),
            s.at_rest(),
            s.config == cfg,
            s.conns.count_spec() == 0,
            s.listeners.count_spec() == 0,
            s.timeouts.count_spec() == 0,
            forall|t: int| !s.conns.occupied(t),
            forall|t: int| !s.listeners.occupied(t),
            forall|t: int| !s.timeouts.occupied(t),
            forall|t: int| !s.poll.io_registered(t),
            forall|t: int| !s.poll.timer_set(t),
            s.poll.running(),
            s.ops@.len() == 0,
    {
        let conn_slots = cfg.max_connections + 256;
        let timer_slots = conn_slots * cfg.timers_per_connection;
        let io_cap = 256 + conn_slots;
        ReactorState {
            listeners: Slab::new_starting_at(Token(0), 255),
            conns: Slab::new_starting_at(Token(256), conn_slots),
            timeouts: Slab::new_starting_at(Token(0), timer_slots),
            config: cfg,
            poll: PollModel::new(io_cap, timer_slots),
            ops: Vec::new(),
            dispatching: Ghost(None),
        }
    }

    /// What the connection token currently names.
    pub fn conn_state(&self, tok: Token) -> (k: SlotKind)
        ensures
            (k == SlotKind::Absent) <==> !self.conns.occupied(tok.0 as int),
            (k == SlotKind::Vacant) <==> (self.conns.occupied(tok.0 as int) && self.conns.value_at(
                tok.0 as int,
            ) is Vacant),
            (k == SlotKind::Pending) <==> (self.conns.occupied(tok.0 as int)
                && self.conns.value_at(tok.0 as int) is Pending),
            (k == SlotKind::Connected) <==> (self.conns.occupied(tok.0 as int)
                && self.conns.value_at(tok.0 as int) is Connected),
    {
        match self.conns.get(tok) {
            None => SlotKind::Absent,
            Some(rec) => match rec {
                ConnRec::Vacant => SlotKind::Vacant,
                ConnRec::Pending(_, _) => SlotKind::Pending,
                ConnRec::Connected(_) => SlotKind::Connected,
            },
        }
    }

    /// Whether the token names a listener slot.
    pub fn is_listener(&self, tok: Token) -> (r: bool)
        ensures
            r == self.listeners.occupied(tok.0 as int),
    {
        self.listeners.contains(tok)
    }

    /// How many connection slots are filled.
    pub fn conn_count(&self) -> (r: usize)
        ensures
            r as int == self.conns.count_spec(),
    {
        self.conns.count()
    }

    /// Whether the loop is still meant to run.
    pub fn is_running(&self) -> (r: bool)
        ensures
            r == self.poll.running(),
    {
        self.poll.is_running()
    }

    /// A mutable borrow of the connection record under `tok`, for the
    /// driver that must reach the socket stored in it — to register it with
    /// the real poller, say. The borrow must leave a live slot live: the
    /// poller's sync rests on it.
    pub fn conn_mut(&mut self, tok: Token) -> (r: Option<&mut ConnRec<C, S, H>>)
        requires
            old(self).wf(),
        ensures
            match r {
                Some(v) => {
                    &&& old(self).conns.occupied(tok.0 as int)
                    &&& *v == old(self).conns.value_at(tok.0 as int)
                    &&& final(self).conns.slots() == old(self).conns.slots().update(
                        old(self).conns.idx(tok.0 as int),
                        Some(*final(v)),
                    )
                    &&& final(self).conns.count_spec() == old(self).conns.count_spec()
                    &&& final(self).conns.start() == old(self).conns.start()
                    &&& final(self).listeners == old(self).listeners
                    &&& final(self).timeouts == old(self).timeouts
                    &&& final(self).config == old(self).config
                    &&& final(self).poll == old(self).poll
                    &&& final(self).ops == old(self).ops
                    &&& final(self).dispatching == old(self).dispatching
                },
                None => !old(self).conns.occupied(tok.0 as int) && *final(self) == *old(self),
            },
    {
        self.conns.get_mut(tok)
    }

    /// A mutable borrow of the listener record under `tok`, for the driver
    /// that must reach the listening socket stored in it. The borrow must
    /// leave a present listener present.
    pub fn listener_mut(&mut self, tok: Token) -> (r: Option<&mut ListenRec<L, H>>)
        requires
            old(self).wf(),
        ensures
            match r {
                Some(v) => {
                    &&& old(self).listeners.occupied(tok.0 as int)
                    &&& *v == old(self).listeners.value_at(tok.0 as int)
                    &&& final(self).listeners.slots() == old(self).listeners.slots().update(
                        old(self).listeners.idx(tok.0 as int),
                        Some(*final(v)),
                    )
                    &&& final(self).listeners.count_spec() == old(self).listeners.count_spec()
                    &&& final(self).listeners.start() == old(self).listeners.start()
                    &&& final(self).conns == old(self).conns
                    &&& final(self).timeouts == old(self).timeouts
                    &&& final(self).config == old(self).config
                    &&& final(self).poll == old(self).poll
                    &&& final(self).ops == old(self).ops
                    &&& final(self).dispatching == old(self).dispatching
                },
                None => !old(self).listeners.occupied(tok.0 as int) && *final(self) == *old(self),
            },
    {
        self.listeners.get_mut(tok)
    }

    /// Hands the accumulated poller commands to the driver, in the order
    /// they were issued, and clears the log.
    pub fn take_ops(&mut self) -> (r: Vec<PollOp>)
        ensures
            r@ == old(self).ops@,
            final(self).ops@.len() == 0,
            final(self).listeners == old(self).listeners,
            final(self).conns == old(self).conns,
            final(self).timeouts == old(self).timeouts,
            final(self).config == old(self).config,
            final(self).poll == old(self).poll,
            final(self).dispatching == old(self).dispatching,
    {
        let mut r: Vec<PollOp> = Vec::new();
        core::mem::swap(&mut r, &mut self.ops);
        r
    }

    /// Requests the poller to stop; the run loop returns at the next tick.
    /// Idempotent.
    pub fn shutdown(&mut self)
        requires
            old(self).wf(),
        ensures
            final(self).wf(),
            !final(self).poll.running(),
            final(self).ops@ == old(self).ops@.push(PollOp::Shutdown),
            final(self).listeners == old(self).listeners,
            final(self).conns == old(self).conns,
            final(self).timeouts == old(self).timeouts,
            final(self).config == old(self).config,
            final(self).dispatching == old(self).dispatching,
            forall|u: int| final(self).poll.io_interest(u) == old(self).poll.io_interest(u),
            forall|u: int| final(self).poll.timer_set(u) == old(self).poll.timer_set(u),
            final(self).poll.io_cap() == old(self).poll.io_cap(),
            final(self).poll.timer_cap() == old(self).poll.timer_cap(),
    {
        self.poll.stop();
        self.ops.push(PollOp::Shutdown);
        proof {
            assert forall|t: int|
                #[trigger] self.poll.io_registered(t) && Some(t) != self.dispatching@ implies self.io_token_live(
                t,
            ) by {
                assert(self.poll.io_interest(t) == old(self).poll.io_interest(t));
                assert(old(self).poll.io_registered(t));
                assert(old(self).io_token_live(t));
                assert(self.listeners == old(self).listeners);
                assert(self.conns == old(self).conns);
            }
            assert forall|t: int| #[trigger] self.poll.timer_set(t) implies self.timeouts.occupied(
                t,
            ) by {
                assert(self.poll.timer_set(t) == old(self).poll.timer_set(t));
            }
        }
    }
}

impl<C, S, L, H, T> ReactorState<C, S, L, H, T> {
    /// What holds after a connection record was installed under a fresh
    /// token `tok` with interest `interest`: the slot is filled with `rec`,
    /// the poller was asked to poll `tok`, and nothing else changed.
    pub open spec fn install_post(
        pre: Self,
        post: Self,
        rec: ConnRec<C, S, H>,
        interest: EventSet,
        tok: Token,
    ) -> bool {
        &&& pre.conns.in_range(tok.0 as int)
        &&& !pre.conns.occupied(tok.0 as int)
        &&& !pre.poll.io_registered(tok.0 as int)
        &&& forall|t: int| pre.conns.start() <= t < tok.0 ==> pre.conns.occupied(t)
        &&& post.conns.slots() == pre.conns.slots().update(
            pre.conns.idx(tok.0 as int),
            Some(rec),
        )
        &&& post.conns.count_spec() == pre.conns.count_spec() + 1
        &&& post.conns.start() == pre.conns.start()
        &&& post.conns.capacity_spec() == pre.conns.capacity_spec()
        &&& post.poll.io_interest(tok.0 as int) == Some(interest)
        &&& forall|u: int| u != tok.0 ==> post.poll.io_interest(u) == pre.poll.io_interest(u)
        &&& forall|u: int| post.poll.timer_set(u) == pre.poll.timer_set(u)
        &&& post.poll.running() == pre.poll.running()
        &&& post.poll.io_cap() == pre.poll.io_cap()
        &&& post.poll.timer_cap() == pre.poll.timer_cap()
        &&& post.ops@ == pre.ops@.push(PollOp::Register { token: tok, interest })
        &&& post.listeners == pre.listeners
        &&& post.timeouts == pre.timeouts
        &&& post.config == pre.config
        &&& post.dispatching == pre.dispatching
    }

    /// Installs a connection record under a fresh token and asks the poller
    /// to poll it; refused without side effects once `max_connections` slots
    /// are live.
    fn install_conn(&mut self, rec: ConnRec<C, S, H>, interest: EventSet) -> (r: Result<
        Token,
        ReactorError,
    >)
        requires
            old(self).wf(),
            !(rec is Vacant),
        ensures
            final(self).wf(),
            match r {
                Ok(tok) => Self::install_post(*old(self), *final(self), rec, interest, tok),
                Err(e) => {
                    &&& e == ReactorError::SlabFull
                    &&& *final(self) == *old(self)
                },
            },
            (r is Err) <==> old(self).conns.count_spec() >= old(self).config.max_connections,
    {
        if self.conns.count() >= self.config.max_connections {
            return Err(ReactorError::SlabFull);
        }
        match self.conns.insert(rec) {
            Ok(tok) => {
                proof {
                    let t0 = tok.0 as int;
                    if old(self).poll.io_registered(t0) {
                        if Some(t0) != old(self).dispatching@ {
                            assert(old(self).io_token_live(t0));
                        }
                        assert(false);
                    }
                }
                self.poll.set_io(tok, interest);
                self.ops.push(PollOp::Register { token: tok, interest });
                proof {
                    let t0 = tok.0 as int;
                    assert forall|t: int|
                        #[trigger] self.poll.io_registered(t) && Some(t) != self.dispatching@ implies self.io_token_live(
                        t,
                    ) by {
                        if t == t0 {
                            assert(t >= 256);
                            assert(self.conns.occupied(t));
                            assert(self.conns.value_at(t) == rec);
                        } else {
                            assert(self.poll.io_interest(t) == old(self).poll.io_interest(t));
                            assert(old(self).poll.io_registered(t));
                            assert(self.dispatching == old(self).dispatching);
                            assert(old(self).io_token_live(t));
                        }
                    }
                    assert forall|t: int| #[trigger] self.poll.timer_set(t) implies self.timeouts.occupied(
                        t,
                    ) by {
                        assert(old(self).poll.timer_set(t));
                    }
                    match self.dispatching@ {
                        Some(d) => {
                            if d >= 256 {
                                assert(old(self).conns.value_at(d) is Vacant);
                                assert(d != t0);
                            }
                        },
                        None => {},
                    }
                }
                Ok(tok)
            },
            Err(_) => unreached(),
        }
    }

    /// Stores an outbound connection in progress: the slot becomes
    /// `Pending(sock, handler)` and the poller is asked to watch for
    /// writability, whose first edge reports the connection's outcome.
    pub fn connect(&mut self, sock: S, handler: H) -> (r: Result<Token, ReactorError>)
        requires
            old(self).wf(),
        ensures
            final(self).wf(),
            match r {
                Ok(tok) => Self::install_post(
                    *old(self),
                    *final(self),
                    ConnRec::Pending(sock, handler),
                    EventSet { readable: false, writable: true, hup: false, error: false },
                    tok,
                ),
                Err(e) => {
                    &&& e == ReactorError::SlabFull
                    &&& *final(self) == *old(self)
                },
            },
            (r is Err) <==> old(self).conns.count_spec() >= old(self).config.max_connections,
    {
        self.install_conn(ConnRec::Pending(sock, handler), EventSet::writable())
    }

    /// Trades a connected context in for a token; the poller is asked to
    /// poll it with exactly the interest the caller declares for it.
    pub fn register(&mut self, ctx: C, interest: EventSet) -> (r: Result<Token, ReactorError>)
        requires
            old(self).wf(),
        ensures
            final(self).wf(),
            match r {
                Ok(tok) => Self::install_post(
                    *old(self),
                    *final(self),
                    ConnRec::Connected(ctx),
                    interest,
                    tok,
                ),
                Err(e) => {
                    &&& e == ReactorError::SlabFull
                    &&& *final(self) == *old(self)
                },
            },
            (r is Err) <==> old(self).conns.count_spec() >= old(self).config.max_connections,
    {
        self.install_conn(ConnRec::Connected(ctx), interest)
    }

    /// What holds after a listener was installed under a fresh token `tok`:
    /// the slot holds the listener and its accept handler, and the poller
    /// was asked to watch it for readability.
    pub open spec fn listen_post(pre: Self, post: Self, rec: (L, H), tok: Token) -> bool {
        &&& pre.listeners.in_range(tok.0 as int)
        &&& !pre.listeners.occupied(tok.0 as int)
        &&& post.listeners.slots() == pre.listeners.slots().update(
            pre.listeners.idx(tok.0 as int),
            Some(Some(rec)),
        )
        &&& post.listeners.count_spec() == pre.listeners.count_spec() + 1
        &&& post.listeners.start() == pre.listeners.start()
        &&& post.listeners.capacity_spec() == pre.listeners.capacity_spec()
        &&& post.poll.io_interest(tok.0 as int) == Some(
            EventSet { readable: true, writable: false, hup: false, error: false },
        )
        &&& forall|u: int| u != tok.0 ==> post.poll.io_interest(u) == pre.poll.io_interest(u)
        &&& forall|u: int| post.poll.timer_set(u) == pre.poll.timer_set(u)
        &&& post.poll.running() == pre.poll.running()
        &&& post.poll.io_cap() == pre.poll.io_cap()
        &&& post.poll.timer_cap() == pre.poll.timer_cap()
        &&& post.ops@ == pre.ops@.push(
            PollOp::Register {
                token: tok,
                interest: EventSet { readable: true, writable: false, hup: false, error: false },
            },
        )
        &&& post.conns == pre.conns
        &&& post.timeouts == pre.timeouts
        &&& post.config == pre.config
        &&& post.dispatching == pre.dispatching
    }

    /// Stores a bound listener and its accept handler under a fresh listener
    /// token and asks the poller to watch it for readability.
    pub fn listen(&mut self, sock: L, handler: H) -> (r: Result<Token, ReactorError>)
        requires
            old(self).wf(),
        ensures
            final(self).wf(),
            match r {
                Ok(tok) => Self::listen_post(*old(self), *final(self), (sock, handler), tok),
                Err(e) => {
                    &&& e == ReactorError::SlabFull
                    &&& *final(self) == *old(self)
                },
            },
            (r is Err) <==> old(self).listeners.count_spec()
                == old(self).listeners.capacity_spec(),
    {
        match self.listeners.insert(Some((sock, handler))) {
            Ok(tok) => {
                let es = EventSet::readable();
                self.poll.set_io(tok, es);
                self.ops.push(PollOp::Register { token: tok, interest: es });
                proof {
                    let t0 = tok.0 as int;
                    assert forall|t: int|
                        #[trigger] self.poll.io_registered(t) && Some(t) != self.dispatching@ implies self.io_token_live(
                        t,
                    ) by {
                        if t == t0 {
                            assert(self.listeners.occupied(t));
                        } else {
                            assert(self.poll.io_interest(t) == old(self).poll.io_interest(t));
                            assert(old(self).poll.io_registered(t));
                            assert(self.dispatching == old(self).dispatching);
                            assert(old(self).io_token_live(t));
                        }
                    }
                    assert forall|t: int| #[trigger] self.poll.timer_set(t) implies self.timeouts.occupied(
                        t,
                    ) by {
                        assert(old(self).poll.timer_set(t));
                    }
                    match self.dispatching@ {
                        Some(d) => {
                            if d < 256 {
                                assert(old(self).listeners.value_at(d) is None);
                                assert(d != t0);
                            }
                        },
                        None => {},
                    }
                }
                Ok(tok)
            },
            Err(_) => Err(ReactorError::SlabFull),
        }
    }

    /// What holds after a timer slot was installed under a fresh timer token
    /// `tok` for a timer of `duration` milliseconds.
    pub open spec fn timer_post(
        pre: Self,
        post: Self,
        rec: TimerRec<T>,
        duration: u64,
        tok: Token,
    ) -> bool {
        &&& pre.timeouts.in_range(tok.0 as int)
        &&& !pre.timeouts.occupied(tok.0 as int)
        &&& post.timeouts.slots() == pre.timeouts.slots().update(
            pre.timeouts.idx(tok.0 as int),
            Some(rec),
        )
        &&& post.timeouts.count_spec() == pre.timeouts.count_spec() + 1
        &&& post.timeouts.start() == pre.timeouts.start()
        &&& post.timeouts.capacity_spec() == pre.timeouts.capacity_spec()
        &&& post.poll.timer_set(tok.0 as int)
        &&& forall|u: int| u != tok.0 ==> post.poll.timer_set(u) == pre.poll.timer_set(u)
        &&& forall|u: int| post.poll.io_interest(u) == pre.poll.io_interest(u)
        &&& post.poll.running() == pre.poll.running()
        &&& post.poll.io_cap() == pre.poll.io_cap()
        &&& post.poll.timer_cap() == pre.poll.timer_cap()
        &&& post.ops@ == pre.ops@.push(PollOp::SetTimer { delay_ms: duration, timer: tok })
        &&& post.listeners == pre.listeners
        &&& post.conns == pre.conns
        &&& post.config == pre.config
        &&& post.dispatching == pre.dispatching
    }

    /// Installs a timer slot and asks the poller to arm the one-shot timer.
    fn install_timer(&mut self, rec: TimerRec<T>, duration: u64) -> (r: Result<
        Token,
        ReactorError,
    >)
        requires
            old(self).wf(),
            (rec.0 is Some) != (rec.1 is Some),
        ensures
            final(self).wf(),
            match r {
                Ok(tok) => Self::timer_post(*old(self), *final(self), rec, duration, tok),
                Err(e) => {
                    &&& e == ReactorError::SlabFull
                    &&& *final(self) == *old(self)
                },
            },
            (r is Err) <==> old(self).timeouts.count_spec() == old(self).timeouts.capacity_spec(),
    {
        match self.timeouts.insert(rec) {
            Ok(tok) => {
                self.poll.set_timer(tok);
                self.ops.push(PollOp::SetTimer { delay_ms: duration, timer: tok });
                proof {
                    let t0 = tok.0 as int;
                    assert forall|t: int|
                        #[trigger] self.poll.io_registered(t) && Some(t) != self.dispatching@ implies self.io_token_live(
                        t,
                    ) by {
                        assert(self.poll.io_interest(t) == old(self).poll.io_interest(t));
                        assert(old(self).poll.io_registered(t));
                        assert(self.dispatching == old(self).dispatching);
                        assert(old(self).io_token_live(t));
                    }
                    assert forall|t: int| #[trigger] self.poll.timer_set(t) implies self.timeouts.occupied(
                        t,
                    ) by {
                        if t != t0 {
                            assert(old(self).poll.timer_set(t));
                            assert(old(self).timeouts.occupied(t));
                        }
                    }
                    assert forall|t: int| self.timeouts.occupied(t) implies ((
                    #[trigger] self.timeouts.value_at(t)).0 is Some) != (self.timeouts.value_at(
                        t,
                    ).1 is Some) by {
                        if t != t0 {
                            assert(old(self).timeouts.occupied(t));
                            assert(self.timeouts.value_at(t) == old(self).timeouts.value_at(t));
                        }
                    }
                }
                Ok(tok)
            },
            Err(_) => Err(ReactorError::SlabFull),
        }
    }

    /// Arms a one-shot timer of `duration` milliseconds that fires into the
    /// standalone handler; returns the timer token the firing will carry.
    pub fn timeout(&mut self, duration: u64, handler: T) -> (r: Result<Token, ReactorError>)
        requires
            old(self).wf(),
        ensures
            final(self).wf(),
            match r {
                Ok(tok) => Self::timer_post(
                    *old(self),
                    *final(self),
                    (None, Some(handler)),
                    duration,
                    tok,
                ),
                Err(e) => {
                    &&& e == ReactorError::SlabFull
                    &&& *final(self) == *old(self)
                },
            },
            (r is Err) <==> old(self).timeouts.count_spec() == old(self).timeouts.capacity_spec(),
    {
        self.install_timer((None, Some(handler)), duration)
    }

    /// Arms a one-shot timer of `duration` milliseconds that fires into the
    /// event handler of the context registered under `ctxtok`.
    pub fn timeout_conn(&mut self, duration: u64, ctxtok: Token) -> (r: Result<
        Token,
        ReactorError,
    >)
        requires
            old(self).wf(),
        ensures
            final(self).wf(),
            match r {
                Ok(tok) => Self::timer_post(
                    *old(self),
                    *final(self),
                    (Some(ctxtok), None),
                    duration,
                    tok,
                ),
                Err(e) => {
                    &&& e == ReactorError::SlabFull
                    &&& *final(self) == *old(self)
                },
            },
            (r is Err) <==> old(self).timeouts.count_spec() == old(self).timeouts.capacity_spec(),
    {
        self.install_timer((Some(ctxtok), None), duration)
    }

    /// What holds after `deregister` returned the context that was
    /// registered under `tok`: the slot is empty, the poller was asked to
    /// stop polling it, and nothing else changed.
    pub open spec fn deregister_post(pre: Self, post: Self, tok: Token, ctx: C) -> bool {
        &&& pre.conns.occupied(tok.0 as int)
        &&& pre.conns.value_at(tok.0 as int) == ConnRec::<C, S, H>::Connected(ctx)
        &&& post.conns.slots() == pre.conns.slots().update(pre.conns.idx(tok.0 as int), None)
        &&& post.conns.count_spec() == pre.conns.count_spec() - 1
        &&& post.conns.start() == pre.conns.start()
        &&& post.conns.capacity_spec() == pre.conns.capacity_spec()
        &&& post.poll.io_interest(tok.0 as int) is None
        &&& forall|u: int| u != tok.0 ==> post.poll.io_interest(u) == pre.poll.io_interest(u)
        &&& forall|u: int| post.poll.timer_set(u) == pre.poll.timer_set(u)
        &&& post.poll.running() == pre.poll.running()
        &&& post.poll.io_cap() == pre.poll.io_cap()
        &&& post.poll.timer_cap() == pre.poll.timer_cap()
        &&& post.ops@ == pre.ops@.push(PollOp::Deregister { token: tok })
        &&& post.listeners == pre.listeners
        &&& post.timeouts == pre.timeouts
        &&& post.config == pre.config
        &&& post.dispatching == pre.dispatching
    }

    /// Trades a token back in for its context and stops polling its socket.
    /// A `Pending` slot has no context to return: it is discarded and an
    /// error reported. A `Vacant` or absent slot is refused untouched — in
    /// particular the slot of the currently running dispatch, which is
    /// `Vacant` for the duration of the callback.
    pub fn deregister(&mut self, tok: Token) -> (r: Result<C, ReactorError>)
        requires
            old(self).wf(),
        ensures
            final(self).wf(),
            match r {
                Ok(ctx) => Self::deregister_post(*old(self), *final(self), tok, ctx),
                Err(e) => match e {
                    ReactorError::NotFound => {
                        &&& !old(self).conn_live(tok.0 as int)
                        &&& *final(self) == *old(self)
                    },
                    ReactorError::PendingConnection => {
                        &&& old(self).conns.occupied(tok.0 as int)
                        &&& old(self).conns.value_at(tok.0 as int) is Pending
                        &&& final(self).conns.slots() == old(self).conns.slots().update(
                            old(self).conns.idx(tok.0 as int),
                            None,
                        )
                        &&& final(self).conns.count_spec() == old(self).conns.count_spec() - 1
                        &&& final(self).poll.io_interest(tok.0 as int) is None
                        &&& forall|u: int|
                            u != tok.0 ==> final(self).poll.io_interest(u) == old(
                                self,
                            ).poll.io_interest(u)
                        &&& final(self).ops@ == old(self).ops@.push(
                            PollOp::Deregister { token: tok },
                        )
                        &&& final(self).listeners == old(self).listeners
                        &&& final(self).timeouts == old(self).timeouts
                        &&& final(self).dispatching == old(self).dispatching
                    },
                    ReactorError::SlabFull => false,
                },
            },
            (r is Ok) <==> (old(self).conns.occupied(tok.0 as int) && old(self).conns.value_at(
                tok.0 as int,
            ) is Connected),
    {
        match self.conn_state(tok) {
            SlotKind::Absent | SlotKind::Vacant => Err(ReactorError::NotFound),
            SlotKind::Pending => {
                let _rec = self.conns.remove(tok);
                self.poll.clear_io(tok);
                self.ops.push(PollOp::Deregister { token: tok });
                proof {
                    self.lemma_remove_conn_synced(*old(self), tok.0 as int);
                }
                Err(ReactorError::PendingConnection)
            },
            SlotKind::Connected => {
                let rec = self.conns.remove(tok);
                self.poll.clear_io(tok);
                self.ops.push(PollOp::Deregister { token: tok });
                proof {
                    self.lemma_remove_conn_synced(*old(self), tok.0 as int);
                }
                match rec {
                    Some(ConnRec::Connected(ctx)) => Ok(ctx),
                    _ => unreached(),
                }
            },
        }
    }

    /// After a live connection slot `t0` is removed and its token cleared
    /// from the poller, the poller stays in sync and the dispatch window,
    /// which never points at a live slot, is untouched.
    proof fn lemma_remove_conn_synced(self, pre: Self, t0: int)
        requires
            pre.wf(),
            pre.conns.occupied(t0),
            !(pre.conns.value_at(t0) is Vacant),
            self.conns.slots() == pre.conns.slots().update(pre.conns.idx(t0), None),
            self.conns.start() == pre.conns.start(),
            self.conns.capacity_spec() == pre.conns.capacity_spec(),
            self.listeners == pre.listeners,
            self.timeouts == pre.timeouts,
            self.config == pre.config,
            self.dispatching == pre.dispatching,
            self.poll.io_interest(t0) is None,
            forall|u: int| u != t0 ==> self.poll.io_interest(u) == pre.poll.io_interest(u),
            forall|u: int| self.poll.timer_set(u) == pre.poll.timer_set(u),
            self.poll.io_cap() == pre.poll.io_cap(),
            self.poll.timer_cap() == pre.poll.timer_cap(),
        ensures
            self.synced(),
            self.dispatch_window(),
            self.timers_legal(),
    {
        assert forall|t: int|
            #[trigger] self.poll.io_registered(t) && Some(t) != self.dispatching@ implies self.io_token_live(
            t,
        ) by {
            assert(t != t0);
            assert(pre.poll.io_registered(t));
            assert(pre.io_token_live(t));
        }
        assert forall|t: int| #[trigger] self.poll.timer_set(t) implies self.timeouts.occupied(
            t,
        ) by {
            assert(pre.poll.timer_set(t));
        }
        match self.dispatching@ {
            Some(d) => {
                if d >= 256 {
                    assert(pre.conns.value_at(d) is Vacant);
                    assert(d != t0);
                }
            },
            None => {},
        }
    }
}

/// Registering a context and then deregistering the token it was given
/// returns the very same context and leaves the registry and the poller as
/// they were before the registration; only the command log has grown, by
/// the register command and the deregister command.
pub proof fn lemma_register_deregister_round_trip<C, S, L, H, T>(
    s0: ReactorState<C, S, L, H, T>,
    s1: ReactorState<C, S, L, H, T>,
    s2: ReactorState<C, S, L, H, T>,
    ctx: C,
    interest: EventSet,
    tok: Token,
    back: C,
)
    requires
        ReactorState::install_post(s0, s1, ConnRec::Connected(ctx), interest, tok),
        ReactorState::deregister_post(s1, s2, tok, back),
    ensures
        back == ctx,
        s2.conns.slots() == s0.conns.slots(),
        s2.conns.count_spec() == s0.conns.count_spec(),
        s2.conns.start() == s0.conns.start(),
        s2.conns.capacity_spec() == s0.conns.capacity_spec(),
        s2.listeners == s0.listeners,
        s2.timeouts == s0.timeouts,
        s2.config == s0.config,
        forall|u: int| s2.poll.io_interest(u) == s0.poll.io_interest(u),
        forall|u: int| s2.poll.timer_set(u) == s0.poll.timer_set(u),
        s2.poll.running() == s0.poll.running(),
        s2.dispatching == s0.dispatching,
{
    let t0 = tok.0 as int;
    let i = s0.conns.idx(t0);
    assert(s1.conns.slots()[i] == Some(ConnRec::<C, S, H>::Connected(ctx)));
    assert(s1.conns.value_at(t0) == ConnRec::<C, S, H>::Connected(ctx));
    assert(s2.conns.slots() =~= s0.conns.slots());
    assert forall|u: int| s2.poll.io_interest(u) == s0.poll.io_interest(u) by {
        if u != t0 {
        } else {
            assert(s0.poll.io_interest(u) is None);
        }
    }
}

/// The transient control interface handed to every handler while it runs:
/// a window onto the reactor's state, and the only legal way a handler
/// mutates it. Each operation delegates to the registry it wraps.
pub struct ReactorCtrl<'a, C, S, L, H, T> {
    pub state: &'a mut ReactorState<C, S, L, H, T>,
}

impl<'a, C, S, L, H, T> ReactorCtrl<'a, C, S, L, H, T> {
    /// Wraps the reactor state for the duration of one dispatch frame.
    pub fn new(st: &'a mut ReactorState<C, S, L, H, T>) -> (r: ReactorCtrl<'a, C, S, L, H, T>)
        ensures
            *r.state == *old(st),
            *final(r.state) == *final(st),
    {
        ReactorCtrl { state: st }
    }

    /// Stores an outbound connection in progress; see
    /// [`ReactorState::connect`].
    pub fn connect(&mut self, sock: S, handler: H) -> (r: Result<Token, ReactorError>)
        requires
            old(self).state.wf(),
        ensures
            final(self).state.wf(),
            match r {
                Ok(tok) => ReactorState::install_post(
                    *old(self).state,
                    *final(self).state,
                    ConnRec::Pending(sock, handler),
                    EventSet { readable: false, writable: true, hup: false, error: false },
                    tok,
                ),
                Err(e) => e == ReactorError::SlabFull && *final(self).state == *old(self).state,
            },
            (r is Err) <==> old(self).state.conns.count_spec() >= old(
                self,
            ).state.config.max_connections,
    {
        self.state.connect(sock, handler)
    }

    /// Stores a bound listener and its accept handler; see
    /// [`ReactorState::listen`].
    pub fn listen(&mut self, sock: L, handler: H) -> (r: Result<Token, ReactorError>)
        requires
            old(self).state.wf(),
        ensures
            final(self).state.wf(),
            match r {
                Ok(tok) => ReactorState::listen_post(
                    *old(self).state,
                    *final(self).state,
                    (sock, handler),
                    tok,
                ),
                Err(e) => e == ReactorError::SlabFull && *final(self).state == *old(self).state,
            },
            (r is Err) <==> old(self).state.listeners.count_spec() == old(
                self,
            ).state.listeners.capacity_spec(),
    {
        self.state.listen(sock, handler)
    }

    /// Arms a standalone one-shot timer; see [`ReactorState::timeout`].
    pub fn timeout(&mut self, duration: u64, handler: T) -> (r: Result<Token, ReactorError>)
        requires
            old(self).state.wf(),
        ensures
            final(self).state.wf(),
            match r {
                Ok(tok) => ReactorState::timer_post(
                    *old(self).state,
                    *final(self).state,
                    (None, Some(handler)),
                    duration,
                    tok,
                ),
                Err(e) => e == ReactorError::SlabFull && *final(self).state == *old(self).state,
            },
            (r is Err) <==> old(self).state.timeouts.count_spec() == old(
                self,
            ).state.timeouts.capacity_spec(),
    {
        self.state.timeout(duration, handler)
    }

    /// Arms a connection-bound one-shot timer; see
    /// [`ReactorState::timeout_conn`].
    pub fn timeout_conn(&mut self, duration: u64, ctxtok: Token) -> (r: Result<
        Token,
        ReactorError,
    >)
        requires
            old(self).state.wf(),
        ensures
            final(self).state.wf(),
            match r {
                Ok(tok) => ReactorState::timer_post(
                    *old(self).state,
                    *final(self).state,
                    (Some(ctxtok), None),
                    duration,
                    tok,
                ),
                Err(e) => e == ReactorError::SlabFull && *final(self).state == *old(self).state,
            },
            (r is Err) <==> old(self).state.timeouts.count_spec() == old(
                self,
            ).state.timeouts.capacity_spec(),
    {
        self.state.timeout_conn(duration, ctxtok)
    }

    /// Trades a context in for a token; see [`ReactorState::register`].
    pub fn register(&mut self, ctx: C, interest: EventSet) -> (r: Result<Token, ReactorError>)
        requires
            old(self).state.wf(),
        ensures
            final(self).state.wf(),
            match r {
                Ok(tok) => ReactorState::install_post(
                    *old(self).state,
                    *final(self).state,
                    ConnRec::Connected(ctx),
                    interest,
                    tok,
                ),
                Err(e) => e == ReactorError::SlabFull && *final(self).state == *old(self).state,
            },
            (r is Err) <==> old(self).state.conns.count_spec() >= old(
                self,
            ).state.config.max_connections,
    {
        self.state.register(ctx, interest)
    }

    /// Trades a token back in for its context; see
    /// [`ReactorState::deregister`]. Must not be called with the token of
    /// the currently dispatching frame: that slot is vacated, so the call
    /// reports `NotFound` and changes nothing.
    pub fn deregister(&mut self, tok: Token) -> (r: Result<C, ReactorError>)
        requires
            old(self).state.wf(),
        ensures
            final(self).state.wf(),
            match r {
                Ok(ctx) => ReactorState::deregister_post(
                    *old(self).state,
                    *final(self).state,
                    tok,
                    ctx,
                ),
                Err(e) => match e {
                    ReactorError::NotFound => {
                        &&& !old(self).state.conn_live(tok.0 as int)
                        &&& *final(self).state == *old(self).state
                    },
                    ReactorError::PendingConnection => {
                        &&& old(self).state.conns.occupied(tok.0 as int)
                        &&& old(self).state.conns.value_at(tok.0 as int) is Pending
                        &&& !final(self).state.conns.occupied(tok.0 as int)
                    },
                    ReactorError::SlabFull => false,
                },
            },
            (r is Ok) <==> (old(self).state.conns.occupied(tok.0 as int)
                && old(self).state.conns.value_at(tok.0 as int) is Connected),
    {
        self.state.deregister(tok)
    }

    /// Requests the poller to stop; see [`ReactorState::shutdown`].
    /// Idempotent, and nothing but the running flag and the command log
    /// moves: the registry and the poller's registrations survive.
    pub fn shutdown(&mut self)
        requires
            old(self).state.wf(),
        ensures
            final(self).state.wf(),
            !final(self).state.poll.running(),
            final(self).state.ops@ == old(self).state.ops@.push(PollOp::Shutdown),
            final(self).state.listeners == old(self).state.listeners,
            final(self).state.conns == old(self).state.conns,
            final(self).state.timeouts == old(self).state.timeouts,
            final(self).state.config == old(self).state.config,
            final(self).state.dispatching == old(self).state.dispatching,
            forall|u: int|
                final(self).state.poll.io_interest(u) == old(self).state.poll.io_interest(u),
            forall|u: int| final(self).state.poll.timer_set(u) == old(self).state.poll.timer_set(u),
    {
        self.state.shutdown()
    }
}

/// Every I/O token the poller holds at rest names a live slot: a present
/// listener in the listener range, or a `Pending` or `Connected` connection
/// slot — never a `Vacant` one.
pub proof fn lemma_registered_io_token_is_live<C, S, L, H, T>(
    st: ReactorState<C, S, L, H, T>,
    t: int,
)
    requires
        st.wf(),
        st.at_rest(),
        st.poll.io_registered(t),
    ensures
        st.io_token_live(t),
        t >= 256 ==> st.conns.occupied(t) && !(st.conns.value_at(t) is Vacant),
        t < 256 ==> st.listeners.occupied(t) && st.listeners.value_at(t) is Some,
{
}

/// Every timer token the poller holds still has its slot in the timer slab,
/// until the timer fires or the slot is removed.
pub proof fn lemma_set_timer_has_slot<C, S, L, H, T>(st: ReactorState<C, S, L, H, T>, t: int)
    requires
        st.wf(),
        st.poll.timer_set(t),
    ensures
        st.timeouts.occupied(t),
{
}

} // verus!
