//! Price display logic for a desktop panel applet that tracks cryptocurrency quotes:
//! which coins to show, how a typed coin name is resolved, how a market response is
//! turned into quotes, how prices are laid out as text, and how the applet reacts to
//! each refresh.

pub mod text;
pub mod config;
pub mod search;
pub mod market;
pub mod display;
pub mod feed;
pub mod cache;
