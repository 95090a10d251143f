//! Generation and validation of ASAP tokens: JSON web tokens signed by a
//! service, whose claims identify the issuer, the audience, a nonce and a
//! short lifetime.

pub mod cache;
pub mod claims;
pub mod cli;
pub mod errors;
pub mod generator;
pub mod json;
pub mod key_host;
pub mod keyserver;
pub mod jwt;
pub mod text;
pub mod util;
pub mod validator;
