//! Search over a small catalog of classification codes.
//!
//! A query is trimmed and folded to lower case ([`text`]). The catalog
//! ([`catalog`], [`entry`]) is scored entry by entry ([`score`]): a query
//! that has the shape of a code ([`pattern`]) is a lookup by code prefix, any
//! other query is matched against names exactly and then fuzzily. The
//! matches are ranked ([`rank`], [`order`]) and the result is kept in a
//! bounded cache ([`cache`]) by the engine that ties all of this together
//! ([`search`]).

pub mod cache;
pub mod catalog;
pub mod entry;
pub mod order;
pub mod pattern;
pub mod rank;
pub mod score;
pub mod search;
pub mod text;
pub mod text_laws;
