//! A single-administrator custodial vault: anyone may deposit value into a
//! vault, only its administrator may withdraw, and every withdrawal is held
//! to a per-withdrawal cap and a cooldown interval since the last one.
//!
//! The crate models the whole system as a small closed ledger: a registry of
//! vault records (one per administrator) together with the participants'
//! own holdings. Every operation is a guarded transition on that ledger,
//! specified against the mathematical transition functions in [`state`] and
//! proved to move value only as the guards allow. Operations take the
//! ledger by exclusive reference, so transitions apply one at a time, in a
//! total order, each fully or not at all.

pub mod laws;
pub mod state;
pub mod treasury;
pub mod vault;
