//! The catalogue: the English text behind each key the dialogs name.

use crate::text;
use vstd::prelude::*;

verus! {

/// The text behind a key; a key the catalogue does not hold has none.
#[verifier::opaque]
pub open spec fn entry(key: Seq<char>) -> Seq<char> {
    if key == "ui.adjustment.blocked.identity"@ {
        "This adjustment changes nothing"@
    } else if key == "ui.adjustment.confirm"@ {
        "OK"@
    } else if key == "ui.adjustment.density"@ {
        "Density"@
    } else if key == "ui.adjustment.nothing.to.preview"@ {
        "Nothing to preview"@
    } else if key == "ui.adjustment.reset"@ {
        "Reset"@
    } else if key == "ui.adjustment.subtitle"@ {
        "Changes the pixels of the active layer"@
    } else if key == "ui.batch.choose"@ {
        "Choose…"@
    } else if key == "ui.batch.destination"@ {
        "Destination"@
    } else if key == "ui.batch.format"@ {
        "Format"@
    } else if key == "ui.batch.source"@ {
        "Source"@
    } else if key == "ui.docks.channels.saved.hint"@ {
        "Click to open Load Selection"@
    } else if key == "ui.docks.properties.nothing.to.measure"@ {
        "Nothing to measure"@
    } else if key == "ui.folder_job.enlarge"@ {
        "Enlarge smaller images"@
    } else if key == "ui.folder_job.height"@ {
        "Height"@
    } else if key == "ui.folder_job.mockups.subtitle"@ {
        "Replaces the active smart object with each image and exports the document"@
    } else if key == "ui.folder_job.mockups.title"@ {
        "Generate Mockups"@
    } else if key == "ui.folder_job.need_folders"@ {
        "Choose a source and a destination folder"@
    } else if key == "ui.folder_job.resize.subtitle"@ {
        "Fits every image of a folder into a box"@
    } else if key == "ui.folder_job.resize.title"@ {
        "Resize Images"@
    } else if key == "ui.folder_job.run"@ {
        "Run"@
    } else if key == "ui.folder_job.same_folder"@ {
        "The source and the destination must differ"@
    } else if key == "ui.folder_job.width"@ {
        "Width"@
    } else if key == "ui.keymap.already.used.by"@ {
        "Already used by"@
    } else if key == "ui.keymap.unknown.command"@ {
        "There is no such command"@
    } else if key == "ui.new_guide.position.must.be.finite"@ {
        "The position must be a finite number"@
    } else if key == "ui.new_guide.subtitle"@ {
        "Places a guide at an exact position"@
    } else if key == "ui.new_guide.title"@ {
        "New Guide"@
    } else if key == "ui.new_guide_layout.clear"@ {
        "Clear existing guides"@
    } else if key == "ui.new_guide_layout.no.room"@ {
        "The margins and gutters leave no room for a column or a row"@
    } else if key == "ui.new_guide_layout.subtitle"@ {
        "Lays guides out as columns, rows and margins"@
    } else if key == "ui.new_guide_layout.title"@ {
        "New Guide Layout"@
    } else if key == "ui.pdf_import.all"@ {
        "All"@
    } else if key == "ui.pdf_import.dpi_range"@ {
        "The resolution must be {min} to {max} dpi"@
    } else if key == "ui.pdf_import.dpi"@ {
        "dpi"@
    } else if key == "ui.pdf_import.file"@ {
        "{name}: {n} pages"@
    } else if key == "ui.pdf_import.listed"@ {
        "The first {shown} of {n} pages are listed"@
    } else if key == "ui.pdf_import.mode.artboards"@ {
        "One document, one artboard per page"@
    } else if key == "ui.pdf_import.mode.separate"@ {
        "One document per page"@
    } else if key == "ui.pdf_import.none_button"@ {
        "None"@
    } else if key == "ui.pdf_import.none"@ {
        "Choose at least one page to open"@
    } else if key == "ui.pdf_import.ok"@ {
        "Open"@
    } else if key == "ui.pdf_import.open_as"@ {
        "Open as"@
    } else if key == "ui.pdf_import.pages"@ {
        "Pages"@
    } else if key == "ui.pdf_import.page"@ {
        "Page {n}"@
    } else if key == "ui.pdf_import.resolution"@ {
        "Resolution"@
    } else if key == "ui.pdf_import.size"@ {
        "Page {page} opens at {w} x {h} pixels"@
    } else if key == "ui.pdf_import.subtitle"@ {
        "Choose the pages to open"@
    } else if key == "ui.pdf_import.title"@ {
        "Import PDF"@
    } else if key == "ui.preferences.add.shortcut"@ {
        "Add Shortcut"@
    } else if key == "ui.preferences.changed"@ {
        "Changed"@
    } else if key == "ui.preferences.keep.as.it.was"@ {
        "Keep as it was"@
    } else if key == "ui.preferences.language"@ {
        "Language"@
    } else if key == "ui.preferences.minutes.0.is.off"@ {
        "minutes (0 is off)"@
    } else if key == "ui.preferences.no.commands"@ {
        "No commands"@
    } else if key == "ui.preferences.only.english"@ {
        "English"@
    } else if key == "ui.preferences.press.a.key"@ {
        "Press a key"@
    } else if key == "ui.preferences.reassign.anyway"@ {
        "Reassign anyway"@
    } else if key == "ui.preferences.remove.this.shortcut"@ {
        "Remove this shortcut"@
    } else if key == "ui.preferences.reset.all.shortcuts"@ {
        "Reset All Shortcuts"@
    } else if key == "ui.preferences.scratch.caption"@ {
        "Leave empty to use the default folder"@
    } else if key == "ui.preferences.scratch.directory"@ {
        "Scratch directory"@
    } else if key == "ui.preferences.scroll.wheel.caption"@ {
        "Off, the wheel pans and Ctrl+wheel zooms"@
    } else if key == "ui.preferences.scroll.wheel.zooms.instead.of.scrolling"@ {
        "Scroll wheel zooms instead of scrolling"@
    } else if key == "ui.preferences.ui.scale"@ {
        "UI scale"@
    } else if key == "ui.preferences.units.caption"@ {
        "The rulers and the size readouts use this unit"@
    } else if key == "ui.preferences.units"@ {
        "Units"@
    } else if key == "ui.refine_mask.background.black"@ {
        "Black"@
    } else if key == "ui.refine_mask.background.checker"@ {
        "Checkerboard"@
    } else if key == "ui.refine_mask.background.label"@ {
        "View"@
    } else if key == "ui.refine_mask.background.white"@ {
        "White"@
    } else if key == "ui.refine_mask.confirm"@ {
        "OK"@
    } else if key == "ui.refine_mask.contrast"@ {
        "Contrast"@
    } else if key == "ui.refine_mask.feather"@ {
        "Feather"@
    } else if key == "ui.refine_mask.nothing.to.refine"@ {
        "Nothing to refine"@
    } else if key == "ui.refine_mask.px.suffix"@ {
        "px"@
    } else if key == "ui.refine_mask.shift"@ {
        "Shift Edge"@
    } else if key == "ui.refine_mask.smooth"@ {
        "Smooth"@
    } else if key == "ui.refine_mask.subtitle"@ {
        "Refines the edge of the mask"@
    } else if key == "ui.refine_mask.title"@ {
        "Refine Mask"@
    } else if key == "ui.rename_layer.name.empty"@ {
        "The name cannot be empty"@
    } else if key == "ui.rename_layer.name.unchanged"@ {
        "The name has not changed"@
    } else if key == "ui.rename_layer.title"@ {
        "Rename Layer"@
    } else if key == "ui.scale_effects.ok"@ {
        "OK"@
    } else if key == "ui.scale_effects.percent_sign"@ {
        "%"@
    } else if key == "ui.scale_effects.preview"@ {
        "Preview"@
    } else if key == "ui.scale_effects.rendering"@ {
        "Rendering…"@
    } else if key == "ui.scale_effects.scale"@ {
        "Scale:"@
    } else if key == "ui.scale_effects.subtitle"@ {
        "Scales the layer's effects"@
    } else if key == "ui.scale_effects.title"@ {
        "Scale Effects"@
    } else if key == "ui.scale_effects.unchanged"@ {
        "The scale is already 100%"@
    } else if key == "ui.selection_modify.apply"@ {
        "Apply"@
    } else if key == "ui.selection_modify.border.caption"@ {
        "The border straddles the edge of the selection"@
    } else if key == "ui.selection_modify.border.title"@ {
        "Border Selection"@
    } else if key == "ui.selection_modify.contract.by"@ {
        "Contract by"@
    } else if key == "ui.selection_modify.contract.title"@ {
        "Contract Selection"@
    } else if key == "ui.selection_modify.expand.by"@ {
        "Expand by"@
    } else if key == "ui.selection_modify.expand.title"@ {
        "Expand Selection"@
    } else if key == "ui.selection_modify.feather.radius"@ {
        "Feather radius"@
    } else if key == "ui.selection_modify.feather.title"@ {
        "Feather Selection"@
    } else if key == "ui.selection_modify.out.of.range"@ {
        "The value must be"@
    } else if key == "ui.selection_modify.px"@ {
        "px"@
    } else if key == "ui.selection_modify.range.to"@ {
        "to"@
    } else if key == "ui.selection_modify.sample.radius"@ {
        "Sample radius"@
    } else if key == "ui.selection_modify.smooth.title"@ {
        "Smooth Selection"@
    } else if key == "ui.selection_modify.width"@ {
        "Width"@
    } else if key == "ui.selection_name.alpha"@ {
        "Alpha"@
    } else if key == "ui.selection_name.channel"@ {
        "Channel"@
    } else if key == "ui.selection_name.empty"@ {
        "A selection needs a name"@
    } else if key == "ui.selection_name.invert"@ {
        "Invert"@
    } else if key == "ui.selection_name.load.title"@ {
        "Load Selection"@
    } else if key == "ui.selection_name.load"@ {
        "Load"@
    } else if key == "ui.selection_name.name"@ {
        "Name"@
    } else if key == "ui.selection_name.none.saved"@ {
        "No selection has been saved"@
    } else if key == "ui.selection_name.op.add"@ {
        "Add to Selection"@
    } else if key == "ui.selection_name.op.intersect"@ {
        "Intersect with Selection"@
    } else if key == "ui.selection_name.op.needs.selection"@ {
        "There is no selection to combine with"@
    } else if key == "ui.selection_name.op.new"@ {
        "New Selection"@
    } else if key == "ui.selection_name.op.subtract"@ {
        "Subtract from Selection"@
    } else if key == "ui.selection_name.operation"@ {
        "Operation"@
    } else if key == "ui.selection_name.save.caption"@ {
        "Saves the selection as a channel"@
    } else if key == "ui.selection_name.save.title"@ {
        "Save Selection"@
    } else if key == "ui.selection_name.save"@ {
        "Save"@
    } else if key == "ui.selection_name.taken"@ {
        "A saved selection already has this name"@
    } else if key == "ui.slice_options.alt"@ {
        "Alt text"@
    } else if key == "ui.slice_options.caption"@ {
        "The name is what the exported file is called"@
    } else if key == "ui.slice_options.confirm"@ {
        "OK"@
    } else if key == "ui.slice_options.name.empty"@ {
        "A slice needs a name"@
    } else if key == "ui.slice_options.name.taken"@ {
        "Another slice already has this name"@
    } else if key == "ui.slice_options.name"@ {
        "Name"@
    } else if key == "ui.slice_options.title"@ {
        "Slice Options"@
    } else if key == "ui.slice_options.url"@ {
        "URL"@
    } else if key == "ui.spot_channel.ink"@ {
        "Ink"@
    } else if key == "ui.spot_channel.name"@ {
        "Name"@
    } else if key == "ui.spot_channel.no_name"@ {
        "A spot channel needs a name"@
    } else if key == "ui.spot_channel.ok"@ {
        "OK"@
    } else if key == "ui.spot_channel.solidity"@ {
        "Solidity"@
    } else if key == "ui.spot_channel.subtitle"@ {
        "Adds a spot ink channel to the document"@
    } else if key == "ui.spot_channel.title"@ {
        "New Spot Channel"@
    } else if key == "ui.trim.based.on"@ {
        "Based on"@
    } else if key == "ui.trim.bottom.right.color"@ {
        "Bottom Right Pixel Color"@
    } else if key == "ui.trim.choose.a.side"@ {
        "Choose at least one side to trim"@
    } else if key == "ui.trim.subtitle"@ {
        "Trims the canvas to what it holds"@
    } else if key == "ui.trim.top.left.color"@ {
        "Top Left Pixel Color"@
    } else if key == "ui.trim.transparent.pixels"@ {
        "Transparent Pixels"@
    } else if key == "ui.trim.trim.away"@ {
        "Trim away"@
    } else if key == "ui.variables.csv.empty"@ {
        "The file is empty"@
    } else if key == "ui.variables.csv.no.rows"@ {
        "The file has no rows below its header"@
    } else if key == "ui.variables.csv.row.width"@ {
        "The number of fields is wrong in row"@
    } else if key == "ui.variables.csv.unclosed"@ {
        "A quoted field is never closed"@
    } else if key == "ui.variables.csv.unknown"@ {
        "No variable is named"@
    } else if key == "ui.variables.define.subtitle"@ {
        "Binds layers to the columns of a data set"@
    } else if key == "ui.variables.define.title"@ {
        "Variables"@
    } else if key == "ui.variables.define"@ {
        "Define"@
    } else if key == "ui.variables.export"@ {
        "Export"@
    } else if key == "ui.variables.import"@ {
        "Import CSV…"@
    } else if key == "ui.variables.name.empty"@ {
        "A variable needs a name"@
    } else if key == "ui.variables.name.twice"@ {
        "Two variables have the same name"@
    } else if key == "ui.variables.no.layers"@ {
        "There are no layers to bind"@
    } else if key == "ui.variables.no.sets"@ {
        "There are no data sets"@
    } else if key == "ui.variables.ok"@ {
        "OK"@
    } else if key == "ui.variables.preview"@ {
        "Preview"@
    } else if key == "ui.variables.sets.subtitle"@ {
        "Applies the rows of a table to the document"@
    } else if key == "ui.variables.sets.title"@ {
        "Data Sets"@
    } else if key == "ui.variables.sets"@ {
        "Data Sets"@
    } else if key == "ui.variables.set"@ {
        "Data Set"@
    } else if key == "ui.variables.text"@ {
        "Text"@
    } else if key == "ui.variables.visibility"@ {
        "Visibility"@
    } else if key == "ui.vectorize.colors"@ {
        "Colors"@
    } else if key == "ui.vectorize.corner"@ {
        "Corners"@
    } else if key == "ui.vectorize.hide.source"@ {
        "Hide the source layer"@
    } else if key == "ui.vectorize.invalid"@ {
        "A value is out of range"@
    } else if key == "ui.vectorize.run"@ {
        "Vectorize"@
    } else if key == "ui.vectorize.subtitle"@ {
        "Traces the layer into shapes"@
    } else if key == "ui.vectorize.title"@ {
        "Vectorize Bitmap"@
    } else if key == "ui.vectorize.tolerance"@ {
        "Tolerance"@
    } else if key == "ui.w13f.convert.bpc"@ {
        "Use black point compensation"@
    } else if key == "ui.w13f.convert.destination"@ {
        "Destination"@
    } else if key == "ui.w13f.convert.intent_note"@ {
        "How colors outside the destination are brought in"@
    } else if key == "ui.w13f.convert.intent"@ {
        "Intent"@
    } else if key == "ui.w13f.convert.options"@ {
        "Options"@
    } else if key == "ui.w13f.convert.same"@ {
        "The destination is the profile the document already has"@
    } else if key == "ui.w13f.convert.source"@ {
        "Source"@
    } else if key == "ui.w13f.convert.subtitle"@ {
        "Converts the document's colors to another profile"@
    } else if key == "ui.w13f.convert.title"@ {
        "Convert to Profile"@
    } else if key == "ui.w13f.intent.absolute"@ {
        "Absolute Colorimetric"@
    } else if key == "ui.w13f.intent.perceptual"@ {
        "Perceptual"@
    } else if key == "ui.w13f.intent.relative"@ {
        "Relative Colorimetric"@
    } else if key == "ui.w13f.intent.saturation"@ {
        "Saturation"@
    } else if key == "ui.w13f.ok"@ {
        "OK"@
    } else if key == "ui.w13f.reduce.bad_count"@ {
        "The number of colors is out of range"@
    } else if key == "ui.w13f.reduce.colors"@ {
        "Colors"@
    } else if key == "ui.w13f.reduce.dither"@ {
        "Dither"@
    } else if key == "ui.w13f.reduce.palette"@ {
        "Palette"@
    } else if key == "ui.w13f.reduce.subtitle"@ {
        "Reduces the layer to a few colors"@
    } else if key == "ui.w13f.reduce.title"@ {
        "Reduce Colors"@
    } else if key == "ui.w13f.wavelet.bad_count"@ {
        "Wavelet Decompose splits into 2 to 7 scales"@
    } else if key == "ui.w13f.wavelet.scales"@ {
        "Scales"@
    } else if key == "ui.w13f.wavelet.subtitle"@ {
        "Splits the layer into scales of detail"@
    } else if key == "ui.w13f.wavelet.title"@ {
        "Wavelet Decompose"@
    } else if key == "ui.warp_text.bend"@ {
        "Bend"@
    } else if key == "ui.warp_text.confirm"@ {
        "OK"@
    } else if key == "ui.warp_text.custom_hint"@ {
        "Drag the mesh on the canvas to shape the text"@
    } else if key == "ui.warp_text.horizontal"@ {
        "Horizontal Distortion"@
    } else if key == "ui.warp_text.style"@ {
        "Style"@
    } else if key == "ui.warp_text.title"@ {
        "Warp Text"@
    } else if key == "ui.warp_text.unchanged"@ {
        "The warp has not changed"@
    } else if key == "ui.warp_text.vertical"@ {
        "Vertical Distortion"@
    } else {
        ""@
    }
}

/// A key shaped like those of the Save Selection dialog's refusals.
spec fn refusal_key(key: Seq<char>) -> bool {
    key.len() == 23 && key[3] == 's' && key[4] == 'e' && key[13] == 'n'
}

proof fn lemma_refusal_key_a(key: Seq<char>)
    requires
        refusal_key(key),
    ensures
        key != "ui.adjustment.blocked.identity"@,
        key != "ui.adjustment.confirm"@,
        key != "ui.adjustment.density"@,
        key != "ui.adjustment.nothing.to.preview"@,
        key != "ui.adjustment.reset"@,
        key != "ui.adjustment.subtitle"@,
        key != "ui.batch.choose"@,
        key != "ui.batch.destination"@,
        key != "ui.batch.format"@,
        key != "ui.batch.source"@,
        key != "ui.docks.channels.saved.hint"@,
        key != "ui.docks.properties.nothing.to.measure"@,
        key != "ui.folder_job.enlarge"@,
        key != "ui.folder_job.height"@,
        key != "ui.folder_job.mockups.subtitle"@,
        key != "ui.folder_job.mockups.title"@,
        key != "ui.folder_job.need_folders"@,
        key != "ui.folder_job.resize.subtitle"@,
        key != "ui.folder_job.resize.title"@,
        key != "ui.folder_job.run"@,
        key != "ui.folder_job.same_folder"@,
        key != "ui.folder_job.width"@,
{
    reveal_strlit("ui.adjustment.blocked.identity");
    reveal_strlit("ui.adjustment.confirm");
    reveal_strlit("ui.adjustment.density");
    reveal_strlit("ui.adjustment.nothing.to.preview");
    reveal_strlit("ui.adjustment.reset");
    reveal_strlit("ui.adjustment.subtitle");
    reveal_strlit("ui.batch.choose");
    reveal_strlit("ui.batch.destination");
    reveal_strlit("ui.batch.format");
    reveal_strlit("ui.batch.source");
    reveal_strlit("ui.docks.channels.saved.hint");
    reveal_strlit("ui.docks.properties.nothing.to.measure");
    reveal_strlit("ui.folder_job.enlarge");
    reveal_strlit("ui.folder_job.height");
    reveal_strlit("ui.folder_job.mockups.subtitle");
    reveal_strlit("ui.folder_job.mockups.title");
    reveal_strlit("ui.folder_job.need_folders");
    reveal_strlit("ui.folder_job.resize.subtitle");
    reveal_strlit("ui.folder_job.resize.title");
    reveal_strlit("ui.folder_job.run");
    reveal_strlit("ui.folder_job.same_folder");
    reveal_strlit("ui.folder_job.width");
}

proof fn lemma_refusal_key_b(key: Seq<char>)
    requires
        refusal_key(key),
    ensures
        key != "ui.keymap.already.used.by"@,
        key != "ui.keymap.unknown.command"@,
        key != "ui.new_guide.position.must.be.finite"@,
        key != "ui.new_guide.subtitle"@,
        key != "ui.new_guide.title"@,
        key != "ui.new_guide_layout.clear"@,
        key != "ui.new_guide_layout.no.room"@,
        key != "ui.new_guide_layout.subtitle"@,
        key != "ui.new_guide_layout.title"@,
        key != "ui.pdf_import.all"@,
        key != "ui.pdf_import.dpi_range"@,
        key != "ui.pdf_import.dpi"@,
        key != "ui.pdf_import.file"@,
        key != "ui.pdf_import.listed"@,
        key != "ui.pdf_import.mode.artboards"@,
        key != "ui.pdf_import.mode.separate"@,
        key != "ui.pdf_import.none_button"@,
        key != "ui.pdf_import.none"@,
        key != "ui.pdf_import.ok"@,
        key != "ui.pdf_import.open_as"@,
        key != "ui.pdf_import.pages"@,
        key != "ui.pdf_import.page"@,
{
    reveal_strlit("ui.keymap.already.used.by");
    reveal_strlit("ui.keymap.unknown.command");
    reveal_strlit("ui.new_guide.position.must.be.finite");
    reveal_strlit("ui.new_guide.subtitle");
    reveal_strlit("ui.new_guide.title");
    reveal_strlit("ui.new_guide_layout.clear");
    reveal_strlit("ui.new_guide_layout.no.room");
    reveal_strlit("ui.new_guide_layout.subtitle");
    reveal_strlit("ui.new_guide_layout.title");
    reveal_strlit("ui.pdf_import.all");
    reveal_strlit("ui.pdf_import.dpi_range");
    reveal_strlit("ui.pdf_import.dpi");
    reveal_strlit("ui.pdf_import.file");
    reveal_strlit("ui.pdf_import.listed");
    reveal_strlit("ui.pdf_import.mode.artboards");
    reveal_strlit("ui.pdf_import.mode.separate");
    reveal_strlit("ui.pdf_import.none_button");
    reveal_strlit("ui.pdf_import.none");
    reveal_strlit("ui.pdf_import.ok");
    reveal_strlit("ui.pdf_import.open_as");
    reveal_strlit("ui.pdf_import.pages");
    reveal_strlit("ui.pdf_import.page");
}

proof fn lemma_refusal_key_c(key: Seq<char>)
    requires
        refusal_key(key),
    ensures
        key != "ui.pdf_import.resolution"@,
        key != "ui.pdf_import.size"@,
        key != "ui.pdf_import.subtitle"@,
        key != "ui.pdf_import.title"@,
        key != "ui.preferences.add.shortcut"@,
        key != "ui.preferences.changed"@,
        key != "ui.preferences.keep.as.it.was"@,
        key != "ui.preferences.language"@,
        key != "ui.preferences.minutes.0.is.off"@,
        key != "ui.preferences.no.commands"@,
        key != "ui.preferences.only.english"@,
        key != "ui.preferences.press.a.key"@,
        key != "ui.preferences.reassign.anyway"@,
        key != "ui.preferences.remove.this.shortcut"@,
        key != "ui.preferences.reset.all.shortcuts"@,
        key != "ui.preferences.scratch.caption"@,
        key != "ui.preferences.scratch.directory"@,
        key != "ui.preferences.scroll.wheel.caption"@,
        key != "ui.preferences.scroll.wheel.zooms.instead.of.scrolling"@,
        key != "ui.preferences.ui.scale"@,
        key != "ui.preferences.units.caption"@,
        key != "ui.preferences.units"@,
{
    reveal_strlit("ui.pdf_import.resolution");
    reveal_strlit("ui.pdf_import.size");
    reveal_strlit("ui.pdf_import.subtitle");
    reveal_strlit("ui.pdf_import.title");
    reveal_strlit("ui.preferences.add.shortcut");
    reveal_strlit("ui.preferences.changed");
    reveal_strlit("ui.preferences.keep.as.it.was");
    reveal_strlit("ui.preferences.language");
    reveal_strlit("ui.preferences.minutes.0.is.off");
    reveal_strlit("ui.preferences.no.commands");
    reveal_strlit("ui.preferences.only.english");
    reveal_strlit("ui.preferences.press.a.key");
    reveal_strlit("ui.preferences.reassign.anyway");
    reveal_strlit("ui.preferences.remove.this.shortcut");
    reveal_strlit("ui.preferences.reset.all.shortcuts");
    reveal_strlit("ui.preferences.scratch.caption");
    reveal_strlit("ui.preferences.scratch.directory");
    reveal_strlit("ui.preferences.scroll.wheel.caption");
    reveal_strlit("ui.preferences.scroll.wheel.zooms.instead.of.scrolling");
    reveal_strlit("ui.preferences.ui.scale");
    reveal_strlit("ui.preferences.units.caption");
    reveal_strlit("ui.preferences.units");
}

proof fn lemma_refusal_key_d(key: Seq<char>)
    requires
        refusal_key(key),
    ensures
        key != "ui.refine_mask.background.black"@,
        key != "ui.refine_mask.background.checker"@,
        key != "ui.refine_mask.background.label"@,
        key != "ui.refine_mask.background.white"@,
        key != "ui.refine_mask.confirm"@,
        key != "ui.refine_mask.contrast"@,
        key != "ui.refine_mask.feather"@,
        key != "ui.refine_mask.nothing.to.refine"@,
        key != "ui.refine_mask.px.suffix"@,
        key != "ui.refine_mask.shift"@,
        key != "ui.refine_mask.smooth"@,
        key != "ui.refine_mask.subtitle"@,
        key != "ui.refine_mask.title"@,
        key != "ui.rename_layer.name.empty"@,
        key != "ui.rename_layer.name.unchanged"@,
        key != "ui.rename_layer.title"@,
        key != "ui.scale_effects.ok"@,
        key != "ui.scale_effects.percent_sign"@,
        key != "ui.scale_effects.preview"@,
        key != "ui.scale_effects.rendering"@,
        key != "ui.scale_effects.scale"@,
        key != "ui.scale_effects.subtitle"@,
{
    reveal_strlit("ui.refine_mask.background.black");
    reveal_strlit("ui.refine_mask.background.checker");
    reveal_strlit("ui.refine_mask.background.label");
    reveal_strlit("ui.refine_mask.background.white");
    reveal_strlit("ui.refine_mask.confirm");
    reveal_strlit("ui.refine_mask.contrast");
    reveal_strlit("ui.refine_mask.feather");
    reveal_strlit("ui.refine_mask.nothing.to.refine");
    reveal_strlit("ui.refine_mask.px.suffix");
    reveal_strlit("ui.refine_mask.shift");
    reveal_strlit("ui.refine_mask.smooth");
    reveal_strlit("ui.refine_mask.subtitle");
    reveal_strlit("ui.refine_mask.title");
    reveal_strlit("ui.rename_layer.name.empty");
    reveal_strlit("ui.rename_layer.name.unchanged");
    reveal_strlit("ui.rename_layer.title");
    reveal_strlit("ui.scale_effects.ok");
    reveal_strlit("ui.scale_effects.percent_sign");
    reveal_strlit("ui.scale_effects.preview");
    reveal_strlit("ui.scale_effects.rendering");
    reveal_strlit("ui.scale_effects.scale");
    reveal_strlit("ui.scale_effects.subtitle");
}

proof fn lemma_refusal_key_e(key: Seq<char>)
    requires
        refusal_key(key),
    ensures
        key != "ui.scale_effects.title"@,
        key != "ui.scale_effects.unchanged"@,
        key != "ui.selection_modify.apply"@,
        key != "ui.selection_modify.border.caption"@,
        key != "ui.selection_modify.border.title"@,
        key != "ui.selection_modify.contract.by"@,
        key != "ui.selection_modify.contract.title"@,
        key != "ui.selection_modify.expand.by"@,
        key != "ui.selection_modify.expand.title"@,
        key != "ui.selection_modify.feather.radius"@,
        key != "ui.selection_modify.feather.title"@,
        key != "ui.selection_modify.out.of.range"@,
        key != "ui.selection_modify.px"@,
        key != "ui.selection_modify.range.to"@,
        key != "ui.selection_modify.sample.radius"@,
        key != "ui.selection_modify.smooth.title"@,
        key != "ui.selection_modify.width"@,
{
    reveal_strlit("ui.scale_effects.title");
    reveal_strlit("ui.scale_effects.unchanged");
    reveal_strlit("ui.selection_modify.apply");
    reveal_strlit("ui.selection_modify.border.caption");
    reveal_strlit("ui.selection_modify.border.title");
    reveal_strlit("ui.selection_modify.contract.by");
    reveal_strlit("ui.selection_modify.contract.title");
    reveal_strlit("ui.selection_modify.expand.by");
    reveal_strlit("ui.selection_modify.expand.title");
    reveal_strlit("ui.selection_modify.feather.radius");
    reveal_strlit("ui.selection_modify.feather.title");
    reveal_strlit("ui.selection_modify.out.of.range");
    reveal_strlit("ui.selection_modify.px");
    reveal_strlit("ui.selection_modify.range.to");
    reveal_strlit("ui.selection_modify.sample.radius");
    reveal_strlit("ui.selection_modify.smooth.title");
    reveal_strlit("ui.selection_modify.width");
}

/// The Save Selection dialog's two refusals.
pub proof fn lemma_save_selection_refusals()
    ensures
        entry("ui.selection_name.empty"@) == "A selection needs a name"@,
        entry("ui.selection_name.taken"@) == "A saved selection already has this name"@,
{
    reveal(entry);
    let empty = "ui.selection_name.empty"@;
    let taken = "ui.selection_name.taken"@;
    reveal_strlit("ui.selection_name.empty");
    reveal_strlit("ui.selection_name.taken");
    lemma_refusal_key_a(empty);
    lemma_refusal_key_a(taken);
    lemma_refusal_key_b(empty);
    lemma_refusal_key_b(taken);
    lemma_refusal_key_c(empty);
    lemma_refusal_key_c(taken);
    lemma_refusal_key_d(empty);
    lemma_refusal_key_d(taken);
    lemma_refusal_key_e(empty);
    lemma_refusal_key_e(taken);
    reveal_strlit("ui.selection_name.alpha");
    reveal_strlit("ui.selection_name.channel");
    reveal_strlit("ui.selection_name.invert");
    reveal_strlit("ui.selection_name.load.title");
    reveal_strlit("ui.selection_name.load");
    reveal_strlit("ui.selection_name.name");
    reveal_strlit("ui.selection_name.none.saved");
    reveal_strlit("ui.selection_name.op.add");
    reveal_strlit("ui.selection_name.op.intersect");
    reveal_strlit("ui.selection_name.op.needs.selection");
    reveal_strlit("ui.selection_name.op.new");
    reveal_strlit("ui.selection_name.op.subtract");
    reveal_strlit("ui.selection_name.operation");
    reveal_strlit("ui.selection_name.save.caption");
    reveal_strlit("ui.selection_name.save.title");
    reveal_strlit("ui.selection_name.save");
    assert(empty[18] == 'e' && taken[18] == 't');
}

/// The text behind a key; empty for a key the catalogue does not hold.
pub fn tr(key: &str) -> (r: &'static str)
    ensures
        r@ == entry(key@),
{
    reveal(entry);
    if text::same(key, "ui.adjustment.blocked.identity") {
        "This adjustment changes nothing"
    } else if text::same(key, "ui.adjustment.confirm") {
        "OK"
    } else if text::same(key, "ui.adjustment.density") {
        "Density"
    } else if text::same(key, "ui.adjustment.nothing.to.preview") {
        "Nothing to preview"
    } else if text::same(key, "ui.adjustment.reset") {
        "Reset"
    } else if text::same(key, "ui.adjustment.subtitle") {
        "Changes the pixels of the active layer"
    } else if text::same(key, "ui.batch.choose") {
        "Choose…"
    } else if text::same(key, "ui.batch.destination") {
        "Destination"
    } else if text::same(key, "ui.batch.format") {
        "Format"
    } else if text::same(key, "ui.batch.source") {
        "Source"
    } else if text::same(key, "ui.docks.channels.saved.hint") {
        "Click to open Load Selection"
    } else if text::same(key, "ui.docks.properties.nothing.to.measure") {
        "Nothing to measure"
    } else if text::same(key, "ui.folder_job.enlarge") {
        "Enlarge smaller images"
    } else if text::same(key, "ui.folder_job.height") {
        "Height"
    } else if text::same(key, "ui.folder_job.mockups.subtitle") {
        "Replaces the active smart object with each image and exports the document"
    } else if text::same(key, "ui.folder_job.mockups.title") {
        "Generate Mockups"
    } else if text::same(key, "ui.folder_job.need_folders") {
        "Choose a source and a destination folder"
    } else if text::same(key, "ui.folder_job.resize.subtitle") {
        "Fits every image of a folder into a box"
    } else if text::same(key, "ui.folder_job.resize.title") {
        "Resize Images"
    } else if text::same(key, "ui.folder_job.run") {
        "Run"
    } else if text::same(key, "ui.folder_job.same_folder") {
        "The source and the destination must differ"
    } else if text::same(key, "ui.folder_job.width") {
        "Width"
    } else if text::same(key, "ui.keymap.already.used.by") {
        "Already used by"
    } else if text::same(key, "ui.keymap.unknown.command") {
        "There is no such command"
    } else if text::same(key, "ui.new_guide.position.must.be.finite") {
        "The position must be a finite number"
    } else if text::same(key, "ui.new_guide.subtitle") {
        "Places a guide at an exact position"
    } else if text::same(key, "ui.new_guide.title") {
        "New Guide"
    } else if text::same(key, "ui.new_guide_layout.clear") {
        "Clear existing guides"
    } else if text::same(key, "ui.new_guide_layout.no.room") {
        "The margins and gutters leave no room for a column or a row"
    } else if text::same(key, "ui.new_guide_layout.subtitle") {
        "Lays guides out as columns, rows and margins"
    } else if text::same(key, "ui.new_guide_layout.title") {
        "New Guide Layout"
    } else if text::same(key, "ui.pdf_import.all") {
        "All"
    } else if text::same(key, "ui.pdf_import.dpi_range") {
        "The resolution must be {min} to {max} dpi"
    } else if text::same(key, "ui.pdf_import.dpi") {
        "dpi"
    } else if text::same(key, "ui.pdf_import.file") {
        "{name}: {n} pages"
    } else if text::same(key, "ui.pdf_import.listed") {
        "The first {shown} of {n} pages are listed"
    } else if text::same(key, "ui.pdf_import.mode.artboards") {
        "One document, one artboard per page"
    } else if text::same(key, "ui.pdf_import.mode.separate") {
        "One document per page"
    } else if text::same(key, "ui.pdf_import.none_button") {
        "None"
    } else if text::same(key, "ui.pdf_import.none") {
        "Choose at least one page to open"
    } else if text::same(key, "ui.pdf_import.ok") {
        "Open"
    } else if text::same(key, "ui.pdf_import.open_as") {
        "Open as"
    } else if text::same(key, "ui.pdf_import.pages") {
        "Pages"
    } else if text::same(key, "ui.pdf_import.page") {
        "Page {n}"
    } else if text::same(key, "ui.pdf_import.resolution") {
        "Resolution"
    } else if text::same(key, "ui.pdf_import.size") {
        "Page {page} opens at {w} x {h} pixels"
    } else if text::same(key, "ui.pdf_import.subtitle") {
        "Choose the pages to open"
    } else if text::same(key, "ui.pdf_import.title") {
        "Import PDF"
    } else if text::same(key, "ui.preferences.add.shortcut") {
        "Add Shortcut"
    } else if text::same(key, "ui.preferences.changed") {
        "Changed"
    } else if text::same(key, "ui.preferences.keep.as.it.was") {
        "Keep as it was"
    } else if text::same(key, "ui.preferences.language") {
        "Language"
    } else if text::same(key, "ui.preferences.minutes.0.is.off") {
        "minutes (0 is off)"
    } else if text::same(key, "ui.preferences.no.commands") {
        "No commands"
    } else if text::same(key, "ui.preferences.only.english") {
        "English"
    } else if text::same(key, "ui.preferences.press.a.key") {
        "Press a key"
    } else if text::same(key, "ui.preferences.reassign.anyway") {
        "Reassign anyway"
    } else if text::same(key, "ui.preferences.remove.this.shortcut") {
        "Remove this shortcut"
    } else if text::same(key, "ui.preferences.reset.all.shortcuts") {
        "Reset All Shortcuts"
    } else if text::same(key, "ui.preferences.scratch.caption") {
        "Leave empty to use the default folder"
    } else if text::same(key, "ui.preferences.scratch.directory") {
        "Scratch directory"
    } else if text::same(key, "ui.preferences.scroll.wheel.caption") {
        "Off, the wheel pans and Ctrl+wheel zooms"
    } else if text::same(key, "ui.preferences.scroll.wheel.zooms.instead.of.scrolling") {
        "Scroll wheel zooms instead of scrolling"
    } else if text::same(key, "ui.preferences.ui.scale") {
        "UI scale"
    } else if text::same(key, "ui.preferences.units.caption") {
        "The rulers and the size readouts use this unit"
    } else if text::same(key, "ui.preferences.units") {
        "Units"
    } else if text::same(key, "ui.refine_mask.background.black") {
        "Black"
    } else if text::same(key, "ui.refine_mask.background.checker") {
        "Checkerboard"
    } else if text::same(key, "ui.refine_mask.background.label") {
        "View"
    } else if text::same(key, "ui.refine_mask.background.white") {
        "White"
    } else if text::same(key, "ui.refine_mask.confirm") {
        "OK"
    } else if text::same(key, "ui.refine_mask.contrast") {
        "Contrast"
    } else if text::same(key, "ui.refine_mask.feather") {
        "Feather"
    } else if text::same(key, "ui.refine_mask.nothing.to.refine") {
        "Nothing to refine"
    } else if text::same(key, "ui.refine_mask.px.suffix") {
        "px"
    } else if text::same(key, "ui.refine_mask.shift") {
        "Shift Edge"
    } else if text::same(key, "ui.refine_mask.smooth") {
        "Smooth"
    } else if text::same(key, "ui.refine_mask.subtitle") {
        "Refines the edge of the mask"
    } else if text::same(key, "ui.refine_mask.title") {
        "Refine Mask"
    } else if text::same(key, "ui.rename_layer.name.empty") {
        "The name cannot be empty"
    } else if text::same(key, "ui.rename_layer.name.unchanged") {
        "The name has not changed"
    } else if text::same(key, "ui.rename_layer.title") {
        "Rename Layer"
    } else if text::same(key, "ui.scale_effects.ok") {
        "OK"
    } else if text::same(key, "ui.scale_effects.percent_sign") {
        "%"
    } else if text::same(key, "ui.scale_effects.preview") {
        "Preview"
    } else if text::same(key, "ui.scale_effects.rendering") {
        "Rendering…"
    } else if text::same(key, "ui.scale_effects.scale") {
        "Scale:"
    } else if text::same(key, "ui.scale_effects.subtitle") {
        "Scales the layer's effects"
    } else if text::same(key, "ui.scale_effects.title") {
        "Scale Effects"
    } else if text::same(key, "ui.scale_effects.unchanged") {
        "The scale is already 100%"
    } else if text::same(key, "ui.selection_modify.apply") {
        "Apply"
    } else if text::same(key, "ui.selection_modify.border.caption") {
        "The border straddles the edge of the selection"
    } else if text::same(key, "ui.selection_modify.border.title") {
        "Border Selection"
    } else if text::same(key, "ui.selection_modify.contract.by") {
        "Contract by"
    } else if text::same(key, "ui.selection_modify.contract.title") {
        "Contract Selection"
    } else if text::same(key, "ui.selection_modify.expand.by") {
        "Expand by"
    } else if text::same(key, "ui.selection_modify.expand.title") {
        "Expand Selection"
    } else if text::same(key, "ui.selection_modify.feather.radius") {
        "Feather radius"
    } else if text::same(key, "ui.selection_modify.feather.title") {
        "Feather Selection"
    } else if text::same(key, "ui.selection_modify.out.of.range") {
        "The value must be"
    } else if text::same(key, "ui.selection_modify.px") {
        "px"
    } else if text::same(key, "ui.selection_modify.range.to") {
        "to"
    } else if text::same(key, "ui.selection_modify.sample.radius") {
        "Sample radius"
    } else if text::same(key, "ui.selection_modify.smooth.title") {
        "Smooth Selection"
    } else if text::same(key, "ui.selection_modify.width") {
        "Width"
    } else if text::same(key, "ui.selection_name.alpha") {
        "Alpha"
    } else if text::same(key, "ui.selection_name.channel") {
        "Channel"
    } else if text::same(key, "ui.selection_name.empty") {
        "A selection needs a name"
    } else if text::same(key, "ui.selection_name.invert") {
        "Invert"
    } else if text::same(key, "ui.selection_name.load.title") {
        "Load Selection"
    } else if text::same(key, "ui.selection_name.load") {
        "Load"
    } else if text::same(key, "ui.selection_name.name") {
        "Name"
    } else if text::same(key, "ui.selection_name.none.saved") {
        "No selection has been saved"
    } else if text::same(key, "ui.selection_name.op.add") {
        "Add to Selection"
    } else if text::same(key, "ui.selection_name.op.intersect") {
        "Intersect with Selection"
    } else if text::same(key, "ui.selection_name.op.needs.selection") {
        "There is no selection to combine with"
    } else if text::same(key, "ui.selection_name.op.new") {
        "New Selection"
    } else if text::same(key, "ui.selection_name.op.subtract") {
        "Subtract from Selection"
    } else if text::same(key, "ui.selection_name.operation") {
        "Operation"
    } else if text::same(key, "ui.selection_name.save.caption") {
        "Saves the selection as a channel"
    } else if text::same(key, "ui.selection_name.save.title") {
        "Save Selection"
    } else if text::same(key, "ui.selection_name.save") {
        "Save"
    } else if text::same(key, "ui.selection_name.taken") {
        "A saved selection already has this name"
    } else if text::same(key, "ui.slice_options.alt") {
        "Alt text"
    } else if text::same(key, "ui.slice_options.caption") {
        "The name is what the exported file is called"
    } else if text::same(key, "ui.slice_options.confirm") {
        "OK"
    } else if text::same(key, "ui.slice_options.name.empty") {
        "A slice needs a name"
    } else if text::same(key, "ui.slice_options.name.taken") {
        "Another slice already has this name"
    } else if text::same(key, "ui.slice_options.name") {
        "Name"
    } else if text::same(key, "ui.slice_options.title") {
        "Slice Options"
    } else if text::same(key, "ui.slice_options.url") {
        "URL"
    } else if text::same(key, "ui.spot_channel.ink") {
        "Ink"
    } else if text::same(key, "ui.spot_channel.name") {
        "Name"
    } else if text::same(key, "ui.spot_channel.no_name") {
        "A spot channel needs a name"
    } else if text::same(key, "ui.spot_channel.ok") {
        "OK"
    } else if text::same(key, "ui.spot_channel.solidity") {
        "Solidity"
    } else if text::same(key, "ui.spot_channel.subtitle") {
        "Adds a spot ink channel to the document"
    } else if text::same(key, "ui.spot_channel.title") {
        "New Spot Channel"
    } else if text::same(key, "ui.trim.based.on") {
        "Based on"
    } else if text::same(key, "ui.trim.bottom.right.color") {
        "Bottom Right Pixel Color"
    } else if text::same(key, "ui.trim.choose.a.side") {
        "Choose at least one side to trim"
    } else if text::same(key, "ui.trim.subtitle") {
        "Trims the canvas to what it holds"
    } else if text::same(key, "ui.trim.top.left.color") {
        "Top Left Pixel Color"
    } else if text::same(key, "ui.trim.transparent.pixels") {
        "Transparent Pixels"
    } else if text::same(key, "ui.trim.trim.away") {
        "Trim away"
    } else if text::same(key, "ui.variables.csv.empty") {
        "The file is empty"
    } else if text::same(key, "ui.variables.csv.no.rows") {
        "The file has no rows below its header"
    } else if text::same(key, "ui.variables.csv.row.width") {
        "The number of fields is wrong in row"
    } else if text::same(key, "ui.variables.csv.unclosed") {
        "A quoted field is never closed"
    } else if text::same(key, "ui.variables.csv.unknown") {
        "No variable is named"
    } else if text::same(key, "ui.variables.define.subtitle") {
        "Binds layers to the columns of a data set"
    } else if text::same(key, "ui.variables.define.title") {
        "Variables"
    } else if text::same(key, "ui.variables.define") {
        "Define"
    } else if text::same(key, "ui.variables.export") {
        "Export"
    } else if text::same(key, "ui.variables.import") {
        "Import CSV…"
    } else if text::same(key, "ui.variables.name.empty") {
        "A variable needs a name"
    } else if text::same(key, "ui.variables.name.twice") {
        "Two variables have the same name"
    } else if text::same(key, "ui.variables.no.layers") {
        "There are no layers to bind"
    } else if text::same(key, "ui.variables.no.sets") {
        "There are no data sets"
    } else if text::same(key, "ui.variables.ok") {
        "OK"
    } else if text::same(key, "ui.variables.preview") {
        "Preview"
    } else if text::same(key, "ui.variables.sets.subtitle") {
        "Applies the rows of a table to the document"
    } else if text::same(key, "ui.variables.sets.title") {
        "Data Sets"
    } else if text::same(key, "ui.variables.sets") {
        "Data Sets"
    } else if text::same(key, "ui.variables.set") {
        "Data Set"
    } else if text::same(key, "ui.variables.text") {
        "Text"
    } else if text::same(key, "ui.variables.visibility") {
        "Visibility"
    } else if text::same(key, "ui.vectorize.colors") {
        "Colors"
    } else if text::same(key, "ui.vectorize.corner") {
        "Corners"
    } else if text::same(key, "ui.vectorize.hide.source") {
        "Hide the source layer"
    } else if text::same(key, "ui.vectorize.invalid") {
        "A value is out of range"
    } else if text::same(key, "ui.vectorize.run") {
        "Vectorize"
    } else if text::same(key, "ui.vectorize.subtitle") {
        "Traces the layer into shapes"
    } else if text::same(key, "ui.vectorize.title") {
        "Vectorize Bitmap"
    } else if text::same(key, "ui.vectorize.tolerance") {
        "Tolerance"
    } else if text::same(key, "ui.w13f.convert.bpc") {
        "Use black point compensation"
    } else if text::same(key, "ui.w13f.convert.destination") {
        "Destination"
    } else if text::same(key, "ui.w13f.convert.intent_note") {
        "How colors outside the destination are brought in"
    } else if text::same(key, "ui.w13f.convert.intent") {
        "Intent"
    } else if text::same(key, "ui.w13f.convert.options") {
        "Options"
    } else if text::same(key, "ui.w13f.convert.same") {
        "The destination is the profile the document already has"
    } else if text::same(key, "ui.w13f.convert.source") {
        "Source"
    } else if text::same(key, "ui.w13f.convert.subtitle") {
        "Converts the document's colors to another profile"
    } else if text::same(key, "ui.w13f.convert.title") {
        "Convert to Profile"
    } else if text::same(key, "ui.w13f.intent.absolute") {
        "Absolute Colorimetric"
    } else if text::same(key, "ui.w13f.intent.perceptual") {
        "Perceptual"
    } else if text::same(key, "ui.w13f.intent.relative") {
        "Relative Colorimetric"
    } else if text::same(key, "ui.w13f.intent.saturation") {
        "Saturation"
    } else if text::same(key, "ui.w13f.ok") {
        "OK"
    } else if text::same(key, "ui.w13f.reduce.bad_count") {
        "The number of colors is out of range"
    } else if text::same(key, "ui.w13f.reduce.colors") {
        "Colors"
    } else if text::same(key, "ui.w13f.reduce.dither") {
        "Dither"
    } else if text::same(key, "ui.w13f.reduce.palette") {
        "Palette"
    } else if text::same(key, "ui.w13f.reduce.subtitle") {
        "Reduces the layer to a few colors"
    } else if text::same(key, "ui.w13f.reduce.title") {
        "Reduce Colors"
    } else if text::same(key, "ui.w13f.wavelet.bad_count") {
        "Wavelet Decompose splits into 2 to 7 scales"
    } else if text::same(key, "ui.w13f.wavelet.scales") {
        "Scales"
    } else if text::same(key, "ui.w13f.wavelet.subtitle") {
        "Splits the layer into scales of detail"
    } else if text::same(key, "ui.w13f.wavelet.title") {
        "Wavelet Decompose"
    } else if text::same(key, "ui.warp_text.bend") {
        "Bend"
    } else if text::same(key, "ui.warp_text.confirm") {
        "OK"
    } else if text::same(key, "ui.warp_text.custom_hint") {
        "Drag the mesh on the canvas to shape the text"
    } else if text::same(key, "ui.warp_text.horizontal") {
        "Horizontal Distortion"
    } else if text::same(key, "ui.warp_text.style") {
        "Style"
    } else if text::same(key, "ui.warp_text.title") {
        "Warp Text"
    } else if text::same(key, "ui.warp_text.unchanged") {
        "The warp has not changed"
    } else if text::same(key, "ui.warp_text.vertical") {
        "Vertical Distortion"
    } else {
        ""
    }
}

} // verus!
