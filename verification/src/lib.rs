//! A character-level JSON scanner: cooperating scanners that turn a text into a
//! typed token tree, each token recording how many characters its scan consumed.
//!
//! [`parse`] scans a document and [`pretty_print_token`] renders a token tree
//! for reading. The scanners of the single constructs are public too:
//! [`parse_value`], [`parse_string`], [`parse_number`], [`parse_array`],
//! [`parse_object`] and [`parse_pair`]. Each is specified by a function of the
//! text alone, which stands beside it, and [`laws`] holds what is proved of
//! those functions.

pub mod array;
pub mod classes;
pub mod endpoint;
pub mod error;
pub mod json;
pub mod laws;
pub mod number;
pub mod object;
pub mod pair;
pub mod render;
pub mod string;
pub mod text;
pub mod types;
pub mod value;

pub use array::parse_array;
pub use endpoint::{parse_endpoint, rocket, Mount, Reply};
pub use error::{ErrorKind, ParseError};
pub use json::parse;
pub use number::parse_number;
pub use object::parse_object;
pub use pair::parse_pair;
pub use render::pretty_print_token;
pub use string::parse_string;
pub use types::{Array, Json, Number, Object, Pair, ValueToken};
pub use value::parse_value;
