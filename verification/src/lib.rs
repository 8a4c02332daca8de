mod context;
mod poller;
mod reactor_ctrl;
mod reactor_handler;
mod slab;
pub mod utils;

pub use context::EventType;
pub use reactor_ctrl::ConnRec;
pub use reactor_ctrl::ListenRec;
pub use reactor_ctrl::ReactorConfig;
pub use reactor_ctrl::ReactorError;
pub use reactor_ctrl::ReactorState;
pub use reactor_ctrl::SlotKind;
pub use reactor_ctrl::TimerRec;
pub use reactor_ctrl::ReactorCtrl;
pub use reactor_ctrl::lemma_register_deregister_round_trip;
pub use reactor_ctrl::lemma_registered_io_token_is_live;
pub use reactor_ctrl::lemma_set_timer_has_slot;
pub use reactor_handler::ReactorHandler;
pub use reactor_handler::ReadyStep;
pub use reactor_handler::TimerStep;
pub use poller::EventSet;
pub use poller::PollModel;
pub use poller::PollOp;
pub use slab::Slab;
pub use slab::Token;
pub use slab::num_some;
