//! The rules of Ripple, which turns a before image and an after image into a video with a ripple
//! transition.
//!
//! The library decides: which images may be chosen, where a video may be saved, from where the
//! ripple may start, and what the interface is told. It does not touch the file system, open a
//! dialog or start a program: where such work comes between two decisions, a job says what is to be
//! done and is told what came of it.
pub mod dialog;
pub mod origin;
pub mod output;
pub mod path;
pub mod picking;
pub mod renderer;
pub mod rendering;
pub mod report;
pub mod selection;
pub mod text;
