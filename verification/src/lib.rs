//! A verified core for a small manager of API schema descriptors.
//!
//! A schema names an API, carries a version string, and lists endpoint
//! records. The library builds schemas from command-line style
//! arguments, encodes them to and decodes them from their on-disk JSON
//! form, renders Markdown documentation, and selects directory entries
//! for the listing command. All text is carried as UTF-8 bytes; all
//! file and console input/output stays with the caller.

pub mod codec;
pub mod commands;
pub mod decode;
pub mod endpoint_args;
pub mod listing;
pub mod markdown;
pub mod roundtrip;
pub mod schema;
pub mod text;
