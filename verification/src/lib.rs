//! Detection of silent-payment outputs addressed to one receiver.
//!
//! A transaction is reduced to a scan unit, the keys revealed by its inputs
//! are combined with its smallest spent outpoint into a shared secret, and
//! the outputs are matched against the keys derived from that secret.
//!
//! - [`unit`] builds scan units from decoded transactions and the records of
//!   the outputs they spend.
//! - [`outpoint`] orders outpoints and picks the smallest.
//! - [`tweak`] computes the shared secret of a unit.
//! - [`receiver`] holds the keys and labels under scan.
//! - [`matcher`] matches outputs against a shared secret.
//! - [`scanner`] scans a transaction and the transactions of a block.
//! - [`walker`] decides which block of the chain comes next.
//! - [`hex`], [`bytes`] and [`text`] hold what the others need of byte
//!   strings and their text forms.
//! - [`crypto`] is the boundary to the elliptic-curve libraries; what it
//!   states of them is taken on trust.
//!
//! The walk ascends from a start height to the tip, the tip included.

pub mod bytes;
pub mod outpoint;
pub mod hex;
pub mod crypto;
pub mod unit;
pub mod tweak;
pub mod receiver;
pub mod matcher;
pub mod scanner;
pub mod walker;
pub mod text;
