//! The fixed extents the dialogs share, in grid units.
//!
//! No dialog writes a dimension as a bare number: a size that is a literal in a
//! body function is a size nobody can re-scale. Every extent is a whole number
//! of grid units.

use vstd::prelude::*;

verus! {

/// A width and a height, in grid units.
#[derive(Clone, Copy, PartialEq, Eq, Structural, Debug)]
pub struct Extent {
    pub width: u32,
    pub height: u32,
}

/// A colour swatch in an inspector row: wide enough to read a tint, short
/// enough to sit on one control line.
pub fn swatch() -> (r: Extent)
    ensures
        r == (Extent { width: 12, height: 6 }),
{
    Extent { width: 12, height: 6 }
}

/// A square swatch beside a menu, for a "Custom" entry's colour.
pub fn swatch_square() -> (r: Extent)
    ensures
        r == (Extent { width: 6, height: 6 }),
{
    Extent { width: 6, height: 6 }
}

/// One chip in the recent-colours strip. Square, and still a full hit target:
/// it is a control, not a legend.
pub fn swatch_recent() -> (r: Extent)
    ensures
        r == (Extent { width: 6, height: 6 }),
{
    Extent { width: 6, height: 6 }
}

/// The before/after pair at the foot of the colour picker.
pub fn swatch_compare() -> (r: Extent)
    ensures
        r == (Extent { width: 10, height: 6 }),
{
    Extent { width: 10, height: 6 }
}

/// A gradient preset chip.
pub fn preset_chip() -> (r: Extent)
    ensures
        r == (Extent { width: 14, height: 6 }),
{
    Extent { width: 14, height: 6 }
}

/// The colour picker's saturation/value square.
pub fn saturation_value_field() -> (r: Extent)
    ensures
        r == (Extent { width: 60, height: 50 }),
{
    Extent { width: 60, height: 50 }
}

/// The layer style editor's schematic preview.
pub fn style_preview() -> (r: Extent)
    ensures
        r == (Extent { width: 40, height: 40 }),
{
    Extent { width: 40, height: 40 }
}

/// The stroke preview in the brush editor, in points, not in the texture pixels
/// it is rendered in.
pub fn brush_stroke_preview() -> (r: Extent)
    ensures
        r == (Extent { width: 70, height: 24 }),
{
    Extent { width: 70, height: 24 }
}

/// The narrowest a dropdown may be drawn: wide enough for a colour-mode or a
/// format name plus the caret.
pub fn combo_min_width() -> (r: u32)
    ensures
        r == 30,
{
    30
}

/// Width of the hue and alpha strips beside the saturation/value square.
pub fn color_strip_width() -> (r: u32)
    ensures
        r == 5,
{
    5
}

/// Height of the gradient editor's ramp bar.
pub fn gradient_bar_height() -> (r: u32)
    ensures
        r == 9,
{
    9
}

/// Width the filter preview image is fitted to.
pub fn filter_preview_width() -> (r: u32)
    ensures
        r == 50,
{
    50
}

/// Width the export preview image is fitted to.
pub fn export_preview_width() -> (r: u32)
    ensures
        r == 65,
{
    65
}

/// A list or section sidebar inside a dialog.
pub fn sidebar_width() -> (r: u32)
    ensures
        r == 45,
{
    45
}

/// The parameter column beside such a sidebar.
pub fn params_column_width() -> (r: u32)
    ensures
        r == 60,
{
    60
}

/// The export dialog's preview column.
pub fn preview_column_width() -> (r: u32)
    ensures
        r == 70,
{
    70
}

/// The preferences dialog's content pane.
pub fn pane_width() -> (r: u32)
    ensures
        r == 105,
{
    105
}

/// How tall a scrolling list inside a dialog may get before it scrolls.
pub fn list_max_height() -> (r: u32)
    ensures
        r == 80,
{
    80
}

/// The same, for the preferences pane.
pub fn pane_max_height() -> (r: u32)
    ensures
        r == 90,
{
    90
}

/// A wide single-line text field: a file name.
pub fn text_field_wide() -> (r: u32)
    ensures
        r == 50,
{
    50
}

/// A document or preset name field.
pub fn text_field_name() -> (r: u32)
    ensures
        r == 45,
{
    45
}

/// A short text field: a hex colour, a file-name suffix.
pub fn text_field_short() -> (r: u32)
    ensures
        r == 22,
{
    22
}

/// A path field.
pub fn text_field_path() -> (r: u32)
    ensures
        r == 60,
{
    60
}

/// Every extent under its name; one with two sides contributes both of them.
pub fn all() -> (r: Vec<(&'static str, u32)>)
    ensures
        r@.len() == 31,
        forall|i: int| 0 <= i < r@.len() ==> (#[trigger] r@[i]).1 > 0,
        r@[0].0@ == "swatch"@ && r@[0].1 == 12 && r@[1].0@ == "swatch"@ && r@[1].1 == 6,
        r@[2].0@ == "swatch_square"@ && r@[2].1 == 6 && r@[3].0@ == "swatch_square"@ && r@[3].1 == 6,
        r@[4].0@ == "swatch_recent"@ && r@[4].1 == 6 && r@[5].0@ == "swatch_recent"@ && r@[5].1 == 6,
        r@[6].0@ == "swatch_compare"@ && r@[6].1 == 10 && r@[7].0@ == "swatch_compare"@ && r@[7].1 == 6,
        r@[8].0@ == "preset_chip"@ && r@[8].1 == 14 && r@[9].0@ == "preset_chip"@ && r@[9].1 == 6,
        r@[10].0@ == "saturation_value_field"@ && r@[10].1 == 60 && r@[11].0@ == "saturation_value_field"@ && r@[11].1 == 50,
        r@[12].0@ == "style_preview"@ && r@[12].1 == 40 && r@[13].0@ == "style_preview"@ && r@[13].1 == 40,
        r@[14].0@ == "brush_stroke_preview"@ && r@[14].1 == 70 && r@[15].0@ == "brush_stroke_preview"@ && r@[15].1 == 24,
        r@[16].0@ == "combo_min_width"@ && r@[16].1 == 30,
        r@[17].0@ == "color_strip_width"@ && r@[17].1 == 5,
        r@[18].0@ == "gradient_bar_height"@ && r@[18].1 == 9,
        r@[19].0@ == "filter_preview_width"@ && r@[19].1 == 50,
        r@[20].0@ == "export_preview_width"@ && r@[20].1 == 65,
        r@[21].0@ == "sidebar_width"@ && r@[21].1 == 45,
        r@[22].0@ == "params_column_width"@ && r@[22].1 == 60,
        r@[23].0@ == "preview_column_width"@ && r@[23].1 == 70,
        r@[24].0@ == "pane_width"@ && r@[24].1 == 105,
        r@[25].0@ == "list_max_height"@ && r@[25].1 == 80,
        r@[26].0@ == "pane_max_height"@ && r@[26].1 == 90,
        r@[27].0@ == "text_field_wide"@ && r@[27].1 == 50,
        r@[28].0@ == "text_field_name"@ && r@[28].1 == 45,
        r@[29].0@ == "text_field_short"@ && r@[29].1 == 22,
        r@[30].0@ == "text_field_path"@ && r@[30].1 == 60,
{
    let mut out: Vec<(&'static str, u32)> = Vec::new();
    out.push(("swatch", swatch().width));
    out.push(("swatch", swatch().height));
    out.push(("swatch_square", swatch_square().width));
    out.push(("swatch_square", swatch_square().height));
    out.push(("swatch_recent", swatch_recent().width));
    out.push(("swatch_recent", swatch_recent().height));
    out.push(("swatch_compare", swatch_compare().width));
    out.push(("swatch_compare", swatch_compare().height));
    out.push(("preset_chip", preset_chip().width));
    out.push(("preset_chip", preset_chip().height));
    out.push(("saturation_value_field", saturation_value_field().width));
    out.push(("saturation_value_field", saturation_value_field().height));
    out.push(("style_preview", style_preview().width));
    out.push(("style_preview", style_preview().height));
    out.push(("brush_stroke_preview", brush_stroke_preview().width));
    out.push(("brush_stroke_preview", brush_stroke_preview().height));
    out.push(("combo_min_width", combo_min_width()));
    out.push(("color_strip_width", color_strip_width()));
    out.push(("gradient_bar_height", gradient_bar_height()));
    out.push(("filter_preview_width", filter_preview_width()));
    out.push(("export_preview_width", export_preview_width()));
    out.push(("sidebar_width", sidebar_width()));
    out.push(("params_column_width", params_column_width()));
    out.push(("preview_column_width", preview_column_width()));
    out.push(("pane_width", pane_width()));
    out.push(("list_max_height", list_max_height()));
    out.push(("pane_max_height", pane_max_height()));
    out.push(("text_field_wide", text_field_wide()));
    out.push(("text_field_name", text_field_name()));
    out.push(("text_field_short", text_field_short()));
    out.push(("text_field_path", text_field_path()));
    out
}

} // verus!
