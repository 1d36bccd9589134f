//! Row grammars and the streaming ingestion pipeline.

pub mod amount_parser;
pub mod csv_parser;
pub mod text;
pub mod tx_parser;
