use vstd::prelude::*;

pub mod browse;
pub mod cast;
pub mod config;
pub mod jellyfin;
pub mod instance;
pub mod json;
pub mod mpris;
pub mod mpv;
pub mod profile;
pub mod report;
pub mod runtime;
pub mod series;
pub mod session;
pub mod terminal;
pub mod text;
pub mod media;
pub mod track;
pub mod tray;
pub mod weburl;
pub mod window;

verus! {

} // verus!
