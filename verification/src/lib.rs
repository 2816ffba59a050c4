//! Audio routing and capture core: discovery of candidate source
//! applications over two audio backends, idempotent lifecycle of the
//! virtual routing objects that isolate one application's audio, an
//! interactive re-selectable binding between a source and the capture
//! point, and supervision of the external capture process.

pub mod errors;

pub mod lifecycle;
pub mod listing;
pub mod routing;


pub mod selector;
pub mod streams;

pub mod supervisor;
pub mod text;

use vstd::prelude::*;

verus! {

/// The audio backend flavor, chosen once at startup: a mixing server
/// that moves whole streams between sinks, or a port graph whose named
/// ports are connected pairwise.
#[derive(Clone, Copy, PartialEq, Eq, Structural)]
pub enum Flavor {
    Mixing,
    Graph,
}

} // verus!
