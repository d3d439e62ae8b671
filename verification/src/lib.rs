use vstd::prelude::*;

pub mod text;
pub mod duration;
pub mod rng;
pub mod player;
pub mod radio;
pub mod embed;
pub mod log;
pub mod gemini;
pub mod numbers;
pub mod voice;
pub mod audio;
pub mod media;
pub mod youtube;
pub mod message;
pub mod transcribe;
pub mod commands;
pub mod image_fx;
pub mod laws;
