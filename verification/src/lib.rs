use vstd::prelude::*;

pub mod actions;
pub mod address;
pub mod capture;
pub mod desktop;
pub mod elements;
pub mod encoding;
pub mod geometry;
pub mod input;
pub mod json;
pub mod listing;
pub mod measure;
pub mod observation;
pub mod overlay;
pub mod picture;
pub mod sequence;
pub mod serve;
pub mod target;
pub mod text;
pub mod tree;
pub mod view;
pub mod waiting;
pub mod window_frames;
pub mod window_server;
pub mod wire;

verus! {

} // verus!
