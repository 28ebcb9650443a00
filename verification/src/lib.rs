//! Verified core of a quest/reward protocol: a reward registry gated on
//! asynchronous custody verification, a settlement engine that allocates a
//! finite reward pool to completing participants, a factory that provisions
//! quest instances through a deploy-and-confirm protocol, and shared
//! storage-rent accounting.
//!
//! Every state transition is a pure function from the current state and the
//! plain values of one call (caller, attached payment, remote result) to the
//! next state, a result, and the external actions to perform. The host shell
//! that issues the asynchronous calls lives outside this crate and feeds the
//! remote outcomes back into the continuation functions defined here.

pub mod accounts;
pub mod effects;
pub mod errors;
pub mod factory;
pub mod quest;
pub mod rent;
pub mod reward;
pub mod text;
