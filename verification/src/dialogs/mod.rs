//! The dialogs: each turns the user's choices into a request, or says why it
//! cannot yet.

pub mod batch;
pub mod blending;
pub mod chrome;
pub mod conversions;
pub mod csv;
pub mod fitting;
pub mod fraction_laws;
pub mod guide_laws;
pub mod mask_laws;
pub mod naming_laws;
pub mod new_document;
pub mod new_guide;
pub mod new_guide_layout;
pub mod pdf_import;
pub mod perspective_warp;
pub mod plane_laws;
pub mod preferences;
pub mod preset_laws;
pub mod preset_manager;
pub mod preset_sizes;
pub mod profiles;
pub mod puppet_warp;
pub mod refine_mask;
pub mod rename_layer;
pub mod resize_images;
pub mod scale_effects;
pub mod script;
pub mod selection_modify;
pub mod selection_name;
pub mod shortcut_sheet;
pub mod sizes;
pub mod slice_options;
pub mod spot_channel;
pub mod trim;
pub mod unit_laws;
pub mod units;
pub mod vanishing_point;
pub mod variables;
pub mod vectorize;
pub mod view_laws;
pub mod viewfinder;
pub mod w13f;
pub mod warp_text;
