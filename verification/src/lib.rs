//! The workspace of a raster editor as plain, verified state: the dock and its
//! saved layouts, the view toggles, and the dialogs that turn a user's choices
//! into requests.

pub mod accuracy;
pub mod arrangement;
pub mod camera;
pub mod closeness;
pub mod dialogs;
pub mod dock;
pub mod dock_laws;
pub mod drawings;
pub mod geometry;
pub mod guides;
pub mod icons;
pub mod ieee;
pub mod intent;
pub mod keymap;
pub mod keys;
pub mod layer_id;
pub mod paths;
pub mod ratios;
pub mod rgba;
pub mod roots;
pub mod rounding;
pub mod sequences;
pub mod sources;
pub mod strings;
pub mod tabs;
pub mod text;
pub mod text_laws;
pub mod theme;
pub mod tool_id;
pub mod values;
pub mod wholes;
pub mod workspace;
