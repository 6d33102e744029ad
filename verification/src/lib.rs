//! A registry of prisons, inmates and their case history, kept in the stable
//! memory of a canister and verified with Verus.
//!
//! The registry stores six kinds of record (prisons, inmates, disciplinary
//! actions, communication logs, court hearings and inmate records), each in
//! a durable table of its own, under identifiers drawn from one shared
//! counter. On top of the tables it offers the operations of a
//! correctional-facility service: creating and looking up records, updating
//! an inmate, assigning an inmate to a prison within the prison's capacity,
//! and gathering an inmate's court hearings into a running record.
//!
//! Reading from the bottom up:
//!
//! - [`stable`] is the only unverified part: a thin shell around the maps and
//!   the cell of `ic_stable_structures`, with the contracts that everything
//!   else is proved against.
//! - [`codec`] and [`record`] give each kind of record its layout in bytes,
//!   and prove that what is written is what is read back.
//! - [`table`] is a durable table of one kind of record; [`ids`] is the
//!   generator of identifiers.
//! - [`model`] holds the records, the payloads and the messages.
//! - [`state`] says what the registry is, as a mathematical value, and what
//!   each operation does to it.
//! - [`registry`] is the executable registry, proved to do exactly that.
//! - [`laws`] proves what follows for every history of calls: identifiers
//!   only grow, no prison exceeds its capacity, assignment is idempotent, an
//!   inmate's hearings accumulate in order.
//!
//! The library never reads the clock: operations that stamp a record take
//! the time as an argument.

pub mod codec;
pub mod ids;
pub mod laws;
pub mod model;
pub mod record;
pub mod registry;
pub mod stable;
pub mod state;
pub mod table;
