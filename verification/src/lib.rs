//! Data-access core of an event-log reporting service: the retry policy for
//! opening a bucket of a document store, the four analytical queries as
//! they are sent, and the decoding of the rows that the store answers with.

pub mod db;
pub mod decode;
pub mod json;
pub mod queries;
pub mod statements;
