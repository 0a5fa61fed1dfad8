//! Extraction of browser cookies into the Netscape cookie-file text format.
//!
//! The library holds the decisions and the text: the rendering of records,
//! the parameterised query, the recognition of the store file, and the step
//! function that drives one extraction run. Reading the store and writing
//! the result are left to the caller.
pub mod cookie;
pub mod decimal;
pub mod pipeline;
pub mod query;
