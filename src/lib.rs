//! A static site generator for photo galleries: the verified core that turns a
//! gallery model into output artifacts and decides how each one is written.
pub mod codec;
pub mod config;
pub mod error;
pub mod html;
pub mod images;
pub mod input;
pub mod markdown;
pub mod model;
pub mod ordering;
pub mod output;
