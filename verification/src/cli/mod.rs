//! Command-line vocabulary, startup selection and readable listings.
pub mod aliases;
pub mod args;
pub mod laws;
pub mod listings;
pub mod report;
pub mod starter;
