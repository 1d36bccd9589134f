//! A single-pass batch ledger engine: it ingests an append-only log of
//! transaction records — deposits, withdrawals, disputes, resolves,
//! chargebacks — and produces a final per-account balance snapshot.
//!
//! The pieces, leaves first: exact fixed-point decimal amounts backed by
//! arbitrary-precision integers (`zz_amount`, over the trusted surface in
//! `bignum`); the row-grammar contract with its hand-rolled implementation
//! (`parsers`); the per-transaction lifecycle state machine
//! (`transaction`); the per-account balance ledger (`client_balance`); and
//! the memory-bounded streaming pipeline that reassembles logical rows from
//! arbitrarily-chunked byte reads and drives the rest
//! (`parsers::csv_parser`). The final sheet rendering lives in `utils`.
//!
//! Every public operation carries a contract stating exactly what it
//! returns or changes, over spec-level models of the data; the laws the
//! ledger obeys — withdrawal guarding, dispute round trips, lock
//! permanence, account isolation, display/parse round trips — are proved as
//! public proof functions beside the code they govern.

pub mod bignum;
pub mod client_balance;
pub mod parsers;
pub mod transaction;
pub mod utils;
pub mod zz_amount;

use vstd::prelude::*;

verus! {

/// How the ingestion pipeline reacts to a malformed row.
#[derive(Clone, Copy, Debug, PartialEq, Eq, Structural)]
pub enum ParsingStrictnessOptions {
    /// Abort the whole run.
    Fail,
    /// Keep the best-effort record where one exists, otherwise skip the row.
    Allow,
    /// Silently drop the row and continue.
    Ignore,
}

impl ParsingStrictnessOptions {
    pub fn fail(&self) -> (r: bool)
        ensures
            r == (*self is Fail),
    {
        matches!(self, ParsingStrictnessOptions::Fail)
    }

    pub fn ignore(&self) -> (r: bool)
        ensures
            r == (*self is Ignore),
    {
        matches!(self, ParsingStrictnessOptions::Ignore)
    }

    pub fn allow(&self) -> (r: bool)
        ensures
            r == (*self is Allow),
    {
        matches!(self, ParsingStrictnessOptions::Allow)
    }
}

/// Which row-grammar back-end drives the ingestion pipeline.
#[derive(Clone, Copy, Debug, PartialEq, Eq, Structural)]
pub enum ParserImplOptions {
    /// The hand-rolled grammar, verified in this crate.
    Nom,
    /// A generic record-deserialization grammar, supplied by a caller.
    Serde,
}

/// Configuration consumed by the row grammar and the ingestion pipeline.
#[derive(Clone, Copy, Debug, PartialEq, Eq, Structural)]
pub struct ZzParseOptions {
    /// The maximum count of integer digits an amount may carry.
    pub zz_amount_max_size: u16,
    /// What to do when a row lacks a required field.
    pub on_missing_field: ParsingStrictnessOptions,
    /// What to do when a row carries an amount its kind must not have.
    pub on_excessive_field: ParsingStrictnessOptions,
    /// What to do when a row fails to parse at all.
    pub on_parse_error: ParsingStrictnessOptions,
    /// The maximum byte length of one row; anything over this is fatal.
    pub max_line_width: usize,
    /// When set, whitespace around comma-delimited fields is kept as-is.
    pub dont_trim_spaces: bool,
}

impl Default for ZzParseOptions {
    fn default() -> (r: Self)
        ensures
            r == (ZzParseOptions {
                zz_amount_max_size: 200u16,
                on_missing_field: ParsingStrictnessOptions::Fail,
                on_excessive_field: ParsingStrictnessOptions::Fail,
                on_parse_error: ParsingStrictnessOptions::Fail,
                max_line_width: 4096usize,
                dont_trim_spaces: false,
            }),
    {
        ZzParseOptions {
            zz_amount_max_size: 200,
            on_missing_field: ParsingStrictnessOptions::Fail,
            on_excessive_field: ParsingStrictnessOptions::Fail,
            on_parse_error: ParsingStrictnessOptions::Fail,
            max_line_width: 4096,
            dont_trim_spaces: false,
        }
    }
}

/// Sizing knobs for the chunked reader that feeds the pipeline; owned by the
/// surrounding program and carried here as plain data.
#[derive(Clone, Copy, Debug, PartialEq, Eq, Structural)]
pub struct ZzExecuteOptions {
    /// The total size of each reader buffer, in megabytes.
    pub buffers_mb: Option<u8>,
    /// How many threads the surrounding program assigns to reading.
    pub io_threads: Option<u8>,
    /// How many buffers the surrounding program keeps in its ring.
    pub total_buffers: Option<u8>,
}

impl Default for ZzExecuteOptions {
    fn default() -> (r: Self)
        ensures
            r == (ZzExecuteOptions { buffers_mb: None, io_threads: None, total_buffers: None }),
    {
        ZzExecuteOptions { buffers_mb: None, io_threads: None, total_buffers: None }
    }
}

} // verus!
