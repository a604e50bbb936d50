//! A combinator algebra for signal transformers: time-stepped state machines
//! that consume a time delta and an input and yield a successor state and an
//! output, with discrete events and terminating tasks built on them.
//!
//! A transformer is described by its step relation (`SignalTrans::can_step`
//! and `SignalTrans::steps_to`); every combinator states the relation of the
//! whole in terms of the relations of its parts.

pub mod basic;
pub mod event;
pub mod func;
pub mod num;
pub mod operators;
pub mod sf;
pub mod task;
pub mod trace;

pub use crate::basic::{
    accum, accum_default, compose, constant, delay, delay_default, fanout, identity, lift, lift2,
    lift3, lift4, map2, map3, map4, split, Accum, Compose, Const, Delay, Fanout, Identity, Lift,
    LocalTime, Split,
};
pub use crate::event::{
    after, edge, edge_init, fold, hold, never, After, Edge, Event, Hold, Never,
};
pub use crate::func::Callable;
pub use crate::num::{Numeric, SignedNumeric};
pub use crate::operators::{derivative, integral};
pub use crate::sf::{SignalTrans, SF};
pub use crate::task::{
    forever, seq_abunch, sequence, stop_with, task, timeout, AddStop, BasicTask, SeqTask,
    TaskOutput,
};
