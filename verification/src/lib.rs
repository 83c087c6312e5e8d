use vstd::prelude::*;

pub mod assoc;
pub mod browser;
pub mod cache;
pub mod chord;
pub mod config;
pub mod controls;
pub mod detail;
pub mod editor;
pub mod layout;
pub mod order;
pub mod panels;
pub mod paths;
pub mod playhead;
pub mod render;
pub mod routing;
pub mod tags;
pub mod text;

verus! {
} // verus!
