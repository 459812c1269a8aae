//! A busy-forbidden reader-writer lock, verified.
//!
//! The heart of the crate is a state machine of the busy-forbidden
//! protocol: every handle owns a pair of flags (`busy`, `forbidden`),
//! readers publish intent through their own `busy` flag, and writers
//! veto all handles through `forbidden` under an administrative mutex.
//! The machine, its executable step functions and the safety proof
//! (mutual exclusion, writer serialization, scoped release) live in
//! [`protocol`] and [`safety`].
//!
//! On top of the lock sits an append-only vector whose growth policy
//! and element accounting are verified in [`bf_vec`].

pub mod bf_vec;
pub mod protocol;
pub mod safety;
pub mod text;
