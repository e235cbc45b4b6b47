//! A helper for projects built on nidrs.
//!
//! The heart of the crate is [`flow`]: pipelines of steps that run in order against a
//! shared [`context`] and, when a step fails, roll back what was done, newest first.
//! Every function here is verified against its contract; [`laws`] proves what holds of
//! every run. The modules under [`subs`] hold what the commands of the tool decide and
//! compute; reading, writing and running other programs is left to the caller.

pub mod context;
pub mod event;
pub mod failure;
pub mod flow;
pub mod laws;
pub mod shared;
pub mod subs;
pub mod text;
