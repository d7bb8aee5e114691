//! Geometry, coordinate transforms, annotation stores and history for an
//! interactive image-annotation tool.
//!
//! Positions live in one of two pixel spaces: the original image and the
//! view, which shows the image, or a zoomed part of it, scaled into a window.
//! Every function states its result over integers, sequences and the spec
//! functions of the module it belongs to.

pub mod domain;
pub mod file_util;
pub mod history;
pub mod menu;
pub mod result;
pub mod tools;
pub mod tools_data;
pub mod util;
pub mod view;
pub mod world;
