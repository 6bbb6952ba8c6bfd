//! The configuration of a SQL formatter that runs as a dprint plugin: the
//! store of overrides, their resolution against the options that the host
//! shares among its formatters, and a builder with one setter for each
//! option.

pub mod configuration;
