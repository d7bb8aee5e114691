//! The data of the annotation tools: colors and labels, and the stores of
//! the annotations themselves.

pub mod bbox_data;
pub mod color;
pub mod export_path;
pub mod label_info;
pub mod annotations;
