//! The HTTP `Forwarded` header (RFC 7239) and the older `X-Forwarded-For`,
//! `X-Forwarded-By` and `X-Forwarded-Proto` headers: parsing, a model of
//! their contents, and the canonical written form; with HTTP status codes.
pub mod forwarded;
pub mod legacy;
pub mod lexer;
pub mod round_trip;
pub mod status_code;
pub mod text;

pub use forwarded::{Forwarded, ParseError};
pub use legacy::{bracket_ipv6, split_forwarded_for};
pub use status_code::StatusCode;
