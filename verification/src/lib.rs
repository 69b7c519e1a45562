use vstd::prelude::*;

pub mod text;
pub mod order;
pub mod quality;
pub mod catalog;
pub mod library;
pub mod vpn;
pub mod font;
pub mod http;
pub mod aicix;
pub mod chat;
pub mod stream;
pub mod embeds;
pub mod videos;
pub mod cache;
pub mod system;
pub mod playback;
pub mod navigation;
pub mod tools;
pub mod covers;
pub mod settings;
pub mod views;
pub mod player;
pub mod segmented;
pub mod version;
pub mod music;
pub mod skip;
pub mod flashcard;
pub mod json;
pub mod rows;
pub mod episode_page;

verus! {

} // verus!
