//! Decoding of CODA bank statements: fixed-width text lines, each classified by
//! its leading characters, sliced into typed fields at fixed character offsets
//! and assembled into one statement.

pub mod calendar;
pub mod field;
pub mod record;
pub mod statement;
pub mod text;
