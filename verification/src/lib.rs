//! Core of a DMX-driven media player: decoding streaming-ACN channel data
//! into debounced, typed change events, plus the symmetric test transmitter
//! and the media filename conventions the events refer to.
//!
//! All network and file-system work lives outside this crate; these modules
//! hold the decisions and the wire-format arithmetic, each with a contract.

pub mod config;
pub mod errors;
pub mod frame;
pub mod listener;
pub mod mapper;
pub mod media;
pub mod net;
pub mod sender;
pub mod text;
