//! The rules behind an attribute that sets up logging for a test.
//!
//! Two things are decided here, and both are proved to be decided as stated:
//!
//! - at compile time, what the attribute's arguments ask for ([`args`]) and
//!   what becomes of the annotated function ([`expand`]);
//! - at run time, what the environment and those arguments make of the
//!   subscriber's configuration ([`runtime`]).
//!
//! The library reads no environment variable, parses no tokens and installs
//! no subscriber. Its callers do, and hand it what they found: the values of
//! the environment as [`runtime::EnvValue`]s, the attribute's arguments and
//! the function as the models of [`args`] and [`expand`]. What it takes from
//! `tracing-subscriber` is gathered in [`subscriber`]; [`text`] holds the
//! reading of text that the rest is built on.

pub mod args;
pub mod expand;
pub mod runtime;
pub mod subscriber;
pub mod text;
