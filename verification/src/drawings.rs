//! The drawings, and the keys that name them.
//!
//! Each drawing is a display list of [`crate::icons`]. The tool registry hands
//! the palette an icon *key*, and everything else in the chrome names a key of
//! its own; a key nothing recognises draws the fallback.

use crate::icons;
use crate::icons::{Icon, IconModel};
use crate::text;
use vstd::array::array_as_slice;
use vstd::prelude::*;

verus! {

pub const ARROW: [u16; 16] = [
    1, 7, 280, 140, 280, 800, 440, 640, 550, 880, 680, 820, 570, 590, 760, 560,
];

pub const CROSS_ARROWS: [u16; 42] = [
    5, 500, 120, 500, 880,
    5, 120, 500, 880, 500,
    0, 3, 380, 240, 500, 120, 620, 240,
    0, 3, 380, 760, 500, 880, 620, 760,
    0, 3, 240, 380, 120, 500, 240, 620,
    0, 3, 760, 380, 880, 500, 760, 620,
];

pub const MARQUEE_RECT: [u16; 10] = [
    1, 4, 160, 240, 840, 240, 840, 760, 160, 760,
];

pub const MARQUEE_ELLIPSE: [u16; 4] = [
    3, 500, 500, 330,
];

pub const MARQUEE_ROW: [u16; 15] = [
    1, 4, 100, 420, 900, 420, 900, 580, 100, 580,
    5, 100, 200, 900, 200,
];

pub const MARQUEE_COLUMN: [u16; 15] = [
    1, 4, 420, 100, 580, 100, 580, 900, 420, 900,
    5, 200, 100, 200, 900,
];

pub const LASSO: [u16; 22] = [
    1, 6, 500, 160, 780, 300, 800, 550, 520, 660, 240, 550, 220, 300,
    0, 3, 360, 630, 320, 860, 460, 900,
];

pub const LASSO_POLY: [u16; 23] = [
    0, 4, 180, 300, 550, 140, 860, 440, 620, 700,
    4, 180, 300, 70,
    4, 860, 440, 70,
    5, 620, 700, 320, 880,
];

pub const LASSO_MAGNETIC: [u16; 32] = [
    0, 5, 200, 720, 200, 420, 500, 200, 800, 420, 800, 720,
    5, 200, 720, 360, 720,
    5, 800, 720, 640, 720,
    5, 360, 720, 360, 520,
    5, 640, 720, 640, 520,
];

pub const WAND: [u16; 26] = [
    5, 200, 840, 660, 340,
    0, 3, 580, 240, 760, 240, 760, 420,
    5, 800, 160, 880, 100,
    4, 300, 240, 50,
    4, 840, 620, 50,
];

pub const QUICK_SELECT: [u16; 19] = [
    3, 380, 460, 260,
    5, 620, 660, 860, 880,
    5, 660, 180, 900, 180,
    5, 780, 60, 780, 300,
];

pub const CROP: [u16; 16] = [
    0, 3, 280, 80, 280, 720, 920, 720,
    0, 3, 80, 280, 720, 280, 720, 920,
];

pub const SLICE: [u16; 20] = [
    1, 4, 120, 200, 880, 200, 880, 800, 120, 800,
    5, 500, 200, 500, 800,
    5, 120, 500, 500, 500,
];

pub const EYEDROPPER: [u16; 23] = [
    5, 160, 860, 600, 420,
    1, 4, 520, 340, 740, 120, 900, 280, 680, 500,
    1, 3, 160, 860, 140, 940, 240, 900,
];

pub const SPOT_HEAL: [u16; 14] = [
    3, 500, 500, 300,
    5, 340, 500, 660, 500,
    5, 500, 340, 500, 660,
];

pub const HEAL: [u16; 20] = [
    1, 4, 180, 520, 500, 200, 820, 520, 500, 840,
    5, 360, 520, 640, 520,
    5, 500, 380, 500, 660,
];

pub const PATCH: [u16; 17] = [
    1, 5, 160, 340, 500, 140, 840, 340, 720, 800, 280, 800,
    5, 300, 520, 700, 520,
];

pub const RED_EYE: [u16; 18] = [
    1, 6, 100, 500, 320, 280, 680, 280, 900, 500, 680, 720, 320, 720,
    4, 500, 500, 130,
];

pub const BRUSH: [u16; 17] = [
    1, 5, 200, 880, 240, 620, 620, 240, 800, 420, 420, 800,
    5, 620, 240, 860, 120,
];

pub const PENCIL: [u16; 17] = [
    1, 5, 140, 860, 220, 620, 700, 140, 860, 300, 380, 780,
    5, 220, 620, 380, 780,
];

pub const COLOR_REPLACE: [u16; 16] = [
    1, 5, 200, 860, 260, 600, 640, 220, 800, 380, 420, 760,
    3, 740, 740, 160,
];

pub const CLONE: [u16; 30] = [
    1, 4, 280, 360, 720, 360, 720, 480, 280, 480,
    1, 4, 400, 160, 600, 160, 600, 360, 400, 360,
    1, 4, 400, 480, 600, 480, 600, 880, 400, 880,
];

pub const PATTERN_STAMP: [u16; 30] = [
    1, 4, 280, 360, 720, 360, 720, 480, 280, 480,
    1, 4, 400, 480, 600, 480, 600, 880, 400, 880,
    5, 320, 160, 680, 160,
    5, 320, 260, 680, 260,
];

pub const ERASER: [u16; 20] = [
    1, 4, 140, 680, 520, 200, 860, 440, 480, 880,
    5, 480, 880, 900, 880,
    5, 320, 440, 680, 680,
];

pub const ERASER_BG: [u16; 19] = [
    1, 4, 140, 620, 480, 180, 800, 420, 460, 840,
    5, 300, 400, 620, 620,
    4, 820, 800, 90,
];

pub const ERASER_MAGIC: [u16; 23] = [
    1, 4, 100, 620, 440, 200, 740, 420, 400, 840,
    5, 780, 140, 920, 280,
    4, 860, 620, 50,
    4, 660, 100, 50,
];

pub const GRADIENT: [u16; 25] = [
    1, 4, 120, 240, 880, 240, 880, 760, 120, 760,
    5, 320, 240, 320, 760,
    5, 500, 240, 500, 760,
    5, 700, 240, 700, 760,
];

pub const BUCKET: [u16; 23] = [
    1, 4, 180, 440, 520, 120, 860, 460, 520, 780,
    5, 300, 300, 300, 720,
    1, 3, 860, 600, 940, 760, 780, 760,
];

pub const PATTERN_FILL: [u16; 30] = [
    1, 4, 140, 140, 860, 140, 860, 860, 140, 860,
    5, 140, 380, 860, 380,
    5, 140, 620, 860, 620,
    5, 380, 140, 380, 860,
    5, 620, 140, 620, 860,
];

pub const BLUR: [u16; 17] = [
    1, 5, 500, 140, 800, 500, 660, 800, 340, 800, 200, 500,
    5, 340, 620, 660, 620,
];

pub const SHARPEN: [u16; 13] = [
    1, 3, 500, 120, 840, 860, 160, 860,
    5, 340, 600, 660, 600,
];

pub const SMUDGE: [u16; 14] = [
    0, 4, 160, 820, 340, 440, 560, 660, 860, 200,
    4, 860, 200, 70,
];

pub const DODGE: [u16; 9] = [
    3, 420, 420, 220,
    5, 600, 620, 860, 880,
];

pub const BURN: [u16; 18] = [
    1, 6, 500, 120, 720, 420, 720, 680, 500, 880, 280, 680, 280, 420,
    3, 500, 660, 120,
];

pub const SPONGE: [u16; 26] = [
    1, 6, 160, 400, 320, 220, 680, 220, 840, 400, 720, 800, 280, 800,
    4, 400, 460, 50,
    4, 620, 560, 50,
    4, 460, 680, 50,
];

pub const SHAPE_RECT: [u16; 10] = [
    1, 4, 140, 220, 860, 220, 860, 780, 140, 780,
];

pub const SHAPE_RRECT: [u16; 18] = [
    1, 8, 220, 220, 780, 220, 860, 320, 860, 680, 780, 780, 220, 780, 140, 680, 140, 320,
];

pub const SHAPE_ELLIPSE: [u16; 4] = [
    3, 500, 500, 340,
];

pub const SHAPE_POLYGON: [u16; 14] = [
    1, 6, 500, 120, 850, 320, 850, 680, 500, 880, 150, 680, 150, 320,
];

pub const SHAPE_STAR: [u16; 22] = [
    1, 10, 500, 100, 600, 380, 900, 380, 660, 560, 750, 860, 500, 680, 250, 860, 340, 560, 100,
    380, 400, 380,
];

pub const SHAPE_LINE: [u16; 13] = [
    5, 140, 860, 860, 140,
    4, 140, 860, 70,
    4, 860, 140, 70,
];

pub const SHAPE_CUSTOM: [u16; 18] = [
    1, 8, 500, 860, 180, 540, 180, 340, 340, 200, 500, 340, 660, 200, 820, 340, 820, 540,
];

pub const HAND: [u16; 30] = [
    1, 14, 280, 860, 200, 580, 240, 460, 320, 540, 320, 220, 420, 160, 460, 240, 460, 180, 560,
    140, 600, 240, 700, 240, 760, 340, 760, 700, 680, 860,
];

pub const ZOOM: [u16; 19] = [
    3, 440, 440, 280,
    5, 640, 640, 880, 880,
    5, 300, 440, 580, 440,
    5, 440, 300, 440, 580,
];

pub const ROTATE_VIEW: [u16; 28] = [
    0, 5, 220, 620, 240, 400, 400, 240, 620, 220, 780, 340,
    0, 3, 620, 160, 820, 300, 620, 420,
    0, 3, 320, 760, 500, 860, 700, 740,
];

pub const TRANSFORM: [u16; 26] = [
    1, 4, 220, 220, 780, 220, 780, 780, 220, 780,
    4, 220, 220, 70,
    4, 780, 220, 70,
    4, 220, 780, 70,
    4, 780, 780, 70,
];

/// A nib with a slit, and the anchor it is placing.
pub const PEN: [u16; 24] = [
    1, 4, 200, 840, 300, 460, 620, 140, 800, 320,
    5, 300, 460, 520, 680,
    5, 200, 840, 410, 570,
    4, 200, 840, 60,
];

/// A serifed capital I.
pub const TYPE: [u16; 15] = [
    5, 260, 200, 740, 200,
    5, 500, 200, 500, 800,
    5, 320, 800, 680, 800,
];

pub const CHEVRON_RIGHT: [u16; 8] = [
    0, 3, 380, 220, 660, 500, 380, 780,
];

pub const CHEVRON_DOWN: [u16; 8] = [
    0, 3, 220, 380, 500, 660, 780, 380,
];

pub const CHEVRON_UP: [u16; 8] = [
    0, 3, 220, 620, 500, 340, 780, 620,
];

pub const CHEVRON_LEFT: [u16; 8] = [
    0, 3, 620, 220, 340, 500, 620, 780,
];

/// The block of existing content in the Canvas Size anchor grid: filled, so that
/// it does not read as a missing glyph.
pub const ANCHOR_BLOCK: [u16; 10] = [
    2, 4, 340, 340, 660, 340, 660, 660, 340, 660,
];

pub const CLOSE: [u16; 10] = [
    5, 260, 260, 740, 740,
    5, 740, 260, 260, 740,
];

pub const OVERFLOW: [u16; 12] = [
    4, 220, 500, 95,
    4, 500, 500, 95,
    4, 780, 500, 95,
];

pub const CHECK: [u16; 8] = [
    0, 3, 200, 520, 420, 740, 800, 260,
];

pub const PLUS: [u16; 10] = [
    5, 500, 200, 500, 800,
    5, 200, 500, 800, 500,
];

pub const MINUS: [u16; 5] = [
    5, 200, 500, 800, 500,
];

pub const EYE: [u16; 18] = [
    1, 6, 80, 500, 300, 280, 700, 280, 920, 500, 700, 720, 300, 720,
    3, 500, 500, 140,
];

pub const TRASH: [u16; 25] = [
    1, 4, 260, 280, 320, 860, 680, 860, 740, 280,
    5, 160, 280, 840, 280,
    0, 4, 400, 280, 400, 140, 600, 140, 600, 280,
];

pub const TARGET: [u16; 24] = [
    3, 500, 500, 240,
    5, 500, 80, 500, 280,
    5, 500, 720, 500, 920,
    5, 80, 500, 280, 500,
    5, 720, 500, 920, 500,
];

pub const SWAP: [u16; 26] = [
    5, 160, 340, 840, 340,
    0, 3, 700, 200, 840, 340, 700, 480,
    5, 160, 660, 840, 660,
    0, 3, 300, 520, 160, 660, 300, 800,
];

pub const COLORS_DEFAULT: [u16; 20] = [
    1, 4, 120, 120, 600, 120, 600, 600, 120, 600,
    1, 4, 400, 400, 880, 400, 880, 880, 400, 880,
];

pub const CLIPPING: [u16; 16] = [
    0, 3, 280, 160, 280, 660, 800, 660,
    0, 3, 640, 520, 800, 660, 640, 800,
];

pub const NEW_GROUP: [u16; 24] = [
    1, 6, 100, 760, 100, 240, 380, 240, 460, 360, 900, 360, 900, 760,
    5, 680, 460, 680, 660,
    5, 580, 560, 780, 560,
];

pub const LAYER_RASTER: [u16; 22] = [
    1, 4, 120, 200, 880, 200, 880, 800, 120, 800,
    0, 3, 120, 680, 360, 440, 580, 680,
    4, 680, 360, 70,
];

pub const LAYER_GROUP: [u16; 14] = [
    1, 6, 100, 780, 100, 220, 380, 220, 460, 340, 900, 340, 900, 780,
];

pub const LAYER_ADJUSTMENT: [u16; 24] = [
    3, 500, 500, 340,
    5, 500, 160, 500, 840,
    5, 240, 340, 500, 340,
    5, 200, 500, 500, 500,
    5, 240, 660, 500, 660,
];

pub const LAYER_TEXT: [u16; 15] = [
    5, 180, 200, 820, 200,
    5, 500, 200, 500, 800,
    5, 340, 800, 660, 800,
];

pub const LAYER_SHAPE: [u16; 10] = [
    1, 4, 500, 120, 880, 500, 500, 880, 120, 500,
];

pub const LAYER_SMART_OBJECT: [u16; 20] = [
    1, 4, 140, 180, 860, 180, 860, 820, 140, 820,
    1, 4, 140, 500, 500, 180, 860, 500, 500, 820,
];

pub const LAYER_GENERATOR: [u16; 22] = [
    1, 8, 500, 100, 600, 400, 900, 500, 600, 600, 500, 900, 400, 600, 100, 500, 400, 400,
    4, 500, 500, 60,
];

pub const LOCK_TRANSPARENCY: [u16; 25] = [
    1, 4, 160, 160, 840, 160, 840, 840, 160, 840,
    5, 160, 500, 500, 160,
    5, 160, 840, 840, 160,
    5, 500, 840, 840, 500,
];

pub const LOCK_PIXELS: [u16; 26] = [
    1, 4, 160, 160, 840, 160, 840, 840, 160, 840,
    4, 340, 340, 70,
    4, 660, 340, 70,
    4, 340, 660, 70,
    4, 660, 660, 70,
];

pub const LOCK_POSITION: [u16; 42] = [
    5, 500, 160, 500, 840,
    5, 160, 500, 840, 500,
    0, 3, 380, 280, 500, 160, 620, 280,
    0, 3, 380, 720, 500, 840, 620, 720,
    0, 3, 280, 380, 160, 500, 280, 620,
    0, 3, 720, 380, 840, 500, 720, 620,
];

pub const LOCK_ALL: [u16; 28] = [
    1, 4, 220, 460, 780, 460, 780, 880, 220, 880,
    0, 6, 340, 460, 340, 260, 420, 140, 580, 140, 660, 260, 660, 460,
    4, 500, 660, 70,
];

pub const ADJ_BRIGHTNESS_CONTRAST: [u16; 29] = [
    3, 500, 500, 260,
    5, 500, 60, 500, 200,
    5, 500, 800, 500, 940,
    5, 60, 500, 200, 500,
    5, 800, 500, 940, 500,
    5, 500, 280, 500, 720,
];

pub const ADJ_LEVELS: [u16; 17] = [
    1, 3, 140, 780, 860, 780, 860, 220,
    5, 140, 900, 860, 900,
    4, 500, 900, 60,
];

pub const ADJ_CURVES: [u16; 20] = [
    0, 3, 140, 140, 140, 860, 860, 860,
    0, 5, 180, 800, 340, 720, 460, 440, 620, 300, 840, 200,
];

pub const ADJ_EXPOSURE: [u16; 44] = [
    3, 500, 500, 200,
    5, 500, 60, 500, 220,
    5, 500, 780, 500, 940,
    5, 60, 500, 220, 500,
    5, 780, 500, 940, 500,
    5, 200, 200, 320, 320,
    5, 680, 680, 800, 800,
    5, 800, 200, 680, 320,
    5, 320, 680, 200, 800,
];

pub const ADJ_VIBRANCE: [u16; 13] = [
    1, 3, 500, 100, 860, 860, 140, 860,
    5, 320, 580, 680, 580,
];

pub const ADJ_HUE_SATURATION: [u16; 13] = [
    3, 500, 500, 340,
    3, 500, 500, 120,
    5, 500, 160, 500, 380,
];

pub const ADJ_COLOR_BALANCE: [u16; 31] = [
    5, 100, 300, 900, 300,
    5, 500, 300, 500, 860,
    5, 300, 860, 700, 860,
    1, 3, 60, 440, 220, 440, 140, 300,
    1, 3, 780, 440, 940, 440, 860, 300,
];

pub const ADJ_BLACK_AND_WHITE: [u16; 8] = [
    3, 360, 500, 260,
    3, 640, 500, 260,
];

pub const ADJ_PHOTO_FILTER: [u16; 12] = [
    3, 500, 500, 360,
    3, 500, 500, 200,
    3, 500, 500, 60,
];

pub const ADJ_CHANNEL_MIXER: [u16; 23] = [
    5, 500, 900, 500, 500,
    5, 500, 500, 160, 140,
    5, 500, 500, 840, 140,
    4, 160, 140, 60,
    4, 840, 140, 60,
];

pub const ADJ_INVERT: [u16; 30] = [
    1, 4, 140, 140, 860, 140, 860, 860, 140, 860,
    5, 500, 140, 500, 860,
    5, 140, 300, 500, 300,
    5, 140, 500, 500, 500,
    5, 140, 700, 500, 700,
];

pub const ADJ_POSTERIZE: [u16; 16] = [
    0, 7, 120, 860, 120, 640, 380, 640, 380, 420, 640, 420, 640, 200, 880, 200,
];

pub const ADJ_THRESHOLD: [u16; 20] = [
    1, 4, 140, 140, 860, 140, 860, 860, 140, 860,
    5, 140, 140, 860, 860,
    5, 300, 700, 700, 700,
];

pub const ADJ_GRADIENT_MAP: [u16; 29] = [
    1, 4, 100, 280, 900, 280, 900, 720, 100, 720,
    5, 300, 280, 300, 720,
    5, 500, 280, 500, 720,
    5, 700, 280, 700, 720,
    4, 900, 860, 60,
];

pub const ADJ_SELECTIVE_COLOR: [u16; 20] = [
    1, 4, 500, 80, 920, 500, 500, 920, 80, 500,
    1, 4, 500, 300, 700, 500, 500, 700, 300, 500,
];

pub const STEP_OPEN: [u16; 15] = [
    1, 4, 140, 200, 860, 200, 860, 800, 140, 800,
    5, 140, 360, 860, 360,
];

pub const STEP_LAYER_ADDED: [u16; 20] = [
    1, 4, 100, 620, 500, 420, 900, 620, 500, 820,
    5, 500, 100, 500, 340,
    5, 380, 220, 620, 220,
];

pub const STEP_LAYER_REMOVED: [u16; 15] = [
    1, 4, 100, 620, 500, 420, 900, 620, 500, 820,
    5, 380, 220, 620, 220,
];

pub const STEP_LAYER_MOVED: [u16; 21] = [
    5, 500, 100, 500, 900,
    0, 3, 360, 240, 500, 100, 640, 240,
    0, 3, 360, 760, 500, 900, 640, 760,
];

pub const STEP_LAYER_CHANGED: [u16; 18] = [
    5, 120, 320, 880, 320,
    4, 340, 320, 80,
    5, 120, 680, 880, 680,
    4, 660, 680, 80,
];

pub const STEP_TRANSFORMED: [u16; 21] = [
    5, 160, 840, 840, 160,
    0, 3, 160, 600, 160, 840, 400, 840,
    0, 3, 600, 160, 840, 160, 840, 400,
];

pub const STEP_PAINTED: [u16; 21] = [
    1, 5, 140, 860, 220, 620, 700, 140, 860, 300, 380, 780,
    5, 220, 620, 380, 780,
    4, 200, 800, 50,
];

pub const STEP_FILLED: [u16; 30] = [
    1, 4, 160, 160, 840, 160, 840, 840, 160, 840,
    5, 160, 300, 840, 300,
    5, 160, 440, 840, 440,
    5, 160, 580, 840, 580,
    5, 160, 720, 840, 720,
];

pub const STEP_CLEARED: [u16; 32] = [
    0, 3, 160, 340, 160, 160, 340, 160,
    0, 3, 660, 160, 840, 160, 840, 340,
    0, 3, 840, 660, 840, 840, 660, 840,
    0, 3, 340, 840, 160, 840, 160, 660,
];

pub const STEP_BATCH: [u16; 15] = [
    5, 160, 280, 840, 280,
    5, 160, 500, 840, 500,
    5, 160, 720, 840, 720,
];

pub const STEP_UNKNOWN: [u16; 4] = [
    4, 500, 500, 160,
];

/// A chain link: two rings joined by a bar.
pub const LINK: [u16; 13] = [
    3, 260, 380, 140,
    3, 740, 620, 140,
    5, 380, 470, 620, 530,
];

/// A half-moon: a circle whose right half is filled.
pub const ADJUSTMENT: [u16; 24] = [
    3, 500, 500, 340,
    2, 9, 500, 160, 630, 185, 740, 260, 815, 370, 840, 500, 815, 630, 740, 740, 630, 815, 500,
    840,
];

/// A rectangle with a dot.
pub const MASK: [u16; 14] = [
    1, 4, 180, 300, 820, 300, 820, 700, 180, 700,
    4, 500, 500, 110,
];

/// The display list behind a tool's icon key.
#[verifier::opaque]
pub open spec fn tool_code(key: Seq<char>) -> Option<Seq<u16>> {
    if key == "move"@ {
        Some(CROSS_ARROWS@)
    } else if key == "pen"@ {
        Some(PEN@)
    } else if key == "anchor-block"@ {
        Some(ANCHOR_BLOCK@)
    } else if key == "path-select"@ {
        Some(LAYER_SHAPE@)
    } else if key == "type"@ {
        Some(TYPE@)
    } else if key == "marquee-rect"@ {
        Some(MARQUEE_RECT@)
    } else if key == "marquee-ellipse"@ {
        Some(MARQUEE_ELLIPSE@)
    } else if key == "marquee-row"@ {
        Some(MARQUEE_ROW@)
    } else if key == "marquee-column"@ {
        Some(MARQUEE_COLUMN@)
    } else if key == "lasso"@ {
        Some(LASSO@)
    } else if key == "lasso-poly"@ {
        Some(LASSO_POLY@)
    } else if key == "lasso-magnetic"@ {
        Some(LASSO_MAGNETIC@)
    } else if key == "wand"@ {
        Some(WAND@)
    } else if key == "quick-select"@ {
        Some(QUICK_SELECT@)
    } else if key == "crop"@ {
        Some(CROP@)
    } else if key == "slice"@ {
        Some(SLICE@)
    } else if key == "eyedropper"@ {
        Some(EYEDROPPER@)
    } else if key == "spot-heal"@ {
        Some(SPOT_HEAL@)
    } else if key == "heal"@ {
        Some(HEAL@)
    } else if key == "patch"@ {
        Some(PATCH@)
    } else if key == "red-eye"@ {
        Some(RED_EYE@)
    } else if key == "brush"@ {
        Some(BRUSH@)
    } else if key == "pencil"@ {
        Some(PENCIL@)
    } else if key == "color-replace"@ {
        Some(COLOR_REPLACE@)
    } else if key == "clone"@ {
        Some(CLONE@)
    } else if key == "pattern-stamp"@ {
        Some(PATTERN_STAMP@)
    } else if key == "eraser"@ {
        Some(ERASER@)
    } else if key == "eraser-bg"@ {
        Some(ERASER_BG@)
    } else if key == "eraser-magic"@ {
        Some(ERASER_MAGIC@)
    } else if key == "gradient"@ {
        Some(GRADIENT@)
    } else if key == "bucket"@ {
        Some(BUCKET@)
    } else if key == "pattern-fill"@ {
        Some(PATTERN_FILL@)
    } else if key == "blur"@ {
        Some(BLUR@)
    } else if key == "sharpen"@ {
        Some(SHARPEN@)
    } else if key == "smudge"@ {
        Some(SMUDGE@)
    } else if key == "dodge"@ {
        Some(DODGE@)
    } else if key == "burn"@ {
        Some(BURN@)
    } else if key == "sponge"@ {
        Some(SPONGE@)
    } else if key == "shape-rect"@ {
        Some(SHAPE_RECT@)
    } else if key == "shape-rrect"@ {
        Some(SHAPE_RRECT@)
    } else if key == "shape-ellipse"@ {
        Some(SHAPE_ELLIPSE@)
    } else if key == "shape-polygon"@ {
        Some(SHAPE_POLYGON@)
    } else if key == "shape-star"@ {
        Some(SHAPE_STAR@)
    } else if key == "shape-line"@ {
        Some(SHAPE_LINE@)
    } else if key == "shape-custom"@ {
        Some(SHAPE_CUSTOM@)
    } else if key == "hand"@ {
        Some(HAND@)
    } else if key == "zoom"@ {
        Some(ZOOM@)
    } else if key == "rotate-view"@ {
        Some(ROTATE_VIEW@)
    } else if key == "transform"@ {
        Some(TRANSFORM@)
    } else if key == "arrow"@ {
        Some(ARROW@)
    } else {
        None
    }
}

/// The drawing for a tool's icon key.
pub fn icon_for(key: &str) -> (r: Icon)
    ensures
        r@ == IconModel::of(tool_code(key@)),
{
    reveal(tool_code);
    if text::same(key, "move") {
        return Icon::drawn(array_as_slice(&CROSS_ARROWS));
    }
    if text::same(key, "pen") {
        return Icon::drawn(array_as_slice(&PEN));
    }
    if text::same(key, "anchor-block") {
        return Icon::drawn(array_as_slice(&ANCHOR_BLOCK));
    }
    if text::same(key, "path-select") {
        return Icon::drawn(array_as_slice(&LAYER_SHAPE));
    }
    if text::same(key, "type") {
        return Icon::drawn(array_as_slice(&TYPE));
    }
    if text::same(key, "marquee-rect") {
        return Icon::drawn(array_as_slice(&MARQUEE_RECT));
    }
    if text::same(key, "marquee-ellipse") {
        return Icon::drawn(array_as_slice(&MARQUEE_ELLIPSE));
    }
    if text::same(key, "marquee-row") {
        return Icon::drawn(array_as_slice(&MARQUEE_ROW));
    }
    if text::same(key, "marquee-column") {
        return Icon::drawn(array_as_slice(&MARQUEE_COLUMN));
    }
    if text::same(key, "lasso") {
        return Icon::drawn(array_as_slice(&LASSO));
    }
    if text::same(key, "lasso-poly") {
        return Icon::drawn(array_as_slice(&LASSO_POLY));
    }
    if text::same(key, "lasso-magnetic") {
        return Icon::drawn(array_as_slice(&LASSO_MAGNETIC));
    }
    if text::same(key, "wand") {
        return Icon::drawn(array_as_slice(&WAND));
    }
    if text::same(key, "quick-select") {
        return Icon::drawn(array_as_slice(&QUICK_SELECT));
    }
    if text::same(key, "crop") {
        return Icon::drawn(array_as_slice(&CROP));
    }
    if text::same(key, "slice") {
        return Icon::drawn(array_as_slice(&SLICE));
    }
    if text::same(key, "eyedropper") {
        return Icon::drawn(array_as_slice(&EYEDROPPER));
    }
    if text::same(key, "spot-heal") {
        return Icon::drawn(array_as_slice(&SPOT_HEAL));
    }
    if text::same(key, "heal") {
        return Icon::drawn(array_as_slice(&HEAL));
    }
    if text::same(key, "patch") {
        return Icon::drawn(array_as_slice(&PATCH));
    }
    if text::same(key, "red-eye") {
        return Icon::drawn(array_as_slice(&RED_EYE));
    }
    if text::same(key, "brush") {
        return Icon::drawn(array_as_slice(&BRUSH));
    }
    if text::same(key, "pencil") {
        return Icon::drawn(array_as_slice(&PENCIL));
    }
    if text::same(key, "color-replace") {
        return Icon::drawn(array_as_slice(&COLOR_REPLACE));
    }
    if text::same(key, "clone") {
        return Icon::drawn(array_as_slice(&CLONE));
    }
    if text::same(key, "pattern-stamp") {
        return Icon::drawn(array_as_slice(&PATTERN_STAMP));
    }
    if text::same(key, "eraser") {
        return Icon::drawn(array_as_slice(&ERASER));
    }
    if text::same(key, "eraser-bg") {
        return Icon::drawn(array_as_slice(&ERASER_BG));
    }
    if text::same(key, "eraser-magic") {
        return Icon::drawn(array_as_slice(&ERASER_MAGIC));
    }
    if text::same(key, "gradient") {
        return Icon::drawn(array_as_slice(&GRADIENT));
    }
    if text::same(key, "bucket") {
        return Icon::drawn(array_as_slice(&BUCKET));
    }
    if text::same(key, "pattern-fill") {
        return Icon::drawn(array_as_slice(&PATTERN_FILL));
    }
    if text::same(key, "blur") {
        return Icon::drawn(array_as_slice(&BLUR));
    }
    if text::same(key, "sharpen") {
        return Icon::drawn(array_as_slice(&SHARPEN));
    }
    if text::same(key, "smudge") {
        return Icon::drawn(array_as_slice(&SMUDGE));
    }
    if text::same(key, "dodge") {
        return Icon::drawn(array_as_slice(&DODGE));
    }
    if text::same(key, "burn") {
        return Icon::drawn(array_as_slice(&BURN));
    }
    if text::same(key, "sponge") {
        return Icon::drawn(array_as_slice(&SPONGE));
    }
    if text::same(key, "shape-rect") {
        return Icon::drawn(array_as_slice(&SHAPE_RECT));
    }
    if text::same(key, "shape-rrect") {
        return Icon::drawn(array_as_slice(&SHAPE_RRECT));
    }
    if text::same(key, "shape-ellipse") {
        return Icon::drawn(array_as_slice(&SHAPE_ELLIPSE));
    }
    if text::same(key, "shape-polygon") {
        return Icon::drawn(array_as_slice(&SHAPE_POLYGON));
    }
    if text::same(key, "shape-star") {
        return Icon::drawn(array_as_slice(&SHAPE_STAR));
    }
    if text::same(key, "shape-line") {
        return Icon::drawn(array_as_slice(&SHAPE_LINE));
    }
    if text::same(key, "shape-custom") {
        return Icon::drawn(array_as_slice(&SHAPE_CUSTOM));
    }
    if text::same(key, "hand") {
        return Icon::drawn(array_as_slice(&HAND));
    }
    if text::same(key, "zoom") {
        return Icon::drawn(array_as_slice(&ZOOM));
    }
    if text::same(key, "rotate-view") {
        return Icon::drawn(array_as_slice(&ROTATE_VIEW));
    }
    if text::same(key, "transform") {
        return Icon::drawn(array_as_slice(&TRANSFORM));
    }
    if text::same(key, "arrow") {
        return Icon::drawn(array_as_slice(&ARROW));
    }
    Icon::unknown()
}

/// The display list behind an icon key of the chrome: the panel headers, the
/// Layers list, the Adjustments grid, the History markers.
#[verifier::opaque]
pub open spec fn chrome_code(key: Seq<char>) -> Option<Seq<u16>> {
    if key == "chevron-right"@ {
        Some(CHEVRON_RIGHT@)
    } else if key == "chevron-down"@ {
        Some(CHEVRON_DOWN@)
    } else if key == "chevron-up"@ {
        Some(CHEVRON_UP@)
    } else if key == "chevron-left"@ {
        Some(CHEVRON_LEFT@)
    } else if key == "anchor-block"@ {
        Some(ANCHOR_BLOCK@)
    } else if key == "close"@ {
        Some(CLOSE@)
    } else if key == "overflow"@ {
        Some(OVERFLOW@)
    } else if key == "check"@ {
        Some(CHECK@)
    } else if key == "plus"@ {
        Some(PLUS@)
    } else if key == "minus"@ {
        Some(MINUS@)
    } else if key == "eye"@ {
        Some(EYE@)
    } else if key == "trash"@ {
        Some(TRASH@)
    } else if key == "target"@ {
        Some(TARGET@)
    } else if key == "swap"@ {
        Some(SWAP@)
    } else if key == "colors-default"@ {
        Some(COLORS_DEFAULT@)
    } else if key == "clipping"@ {
        Some(CLIPPING@)
    } else if key == "new-group"@ {
        Some(NEW_GROUP@)
    } else if key == "link"@ {
        Some(LINK@)
    } else if key == "adjustment"@ {
        Some(ADJUSTMENT@)
    } else if key == "mask"@ {
        Some(MASK@)
    } else if key == "layer-raster"@ {
        Some(LAYER_RASTER@)
    } else if key == "layer-group"@ {
        Some(LAYER_GROUP@)
    } else if key == "layer-adjustment"@ {
        Some(LAYER_ADJUSTMENT@)
    } else if key == "layer-text"@ {
        Some(LAYER_TEXT@)
    } else if key == "layer-shape"@ {
        Some(LAYER_SHAPE@)
    } else if key == "layer-smart-object"@ {
        Some(LAYER_SMART_OBJECT@)
    } else if key == "layer-generator"@ {
        Some(LAYER_GENERATOR@)
    } else if key == "lock-transparency"@ {
        Some(LOCK_TRANSPARENCY@)
    } else if key == "lock-pixels"@ {
        Some(LOCK_PIXELS@)
    } else if key == "lock-position"@ {
        Some(LOCK_POSITION@)
    } else if key == "lock-all"@ {
        Some(LOCK_ALL@)
    } else if key == "adj-brightness-contrast"@ {
        Some(ADJ_BRIGHTNESS_CONTRAST@)
    } else if key == "adj-levels"@ {
        Some(ADJ_LEVELS@)
    } else if key == "adj-curves"@ {
        Some(ADJ_CURVES@)
    } else if key == "adj-exposure"@ {
        Some(ADJ_EXPOSURE@)
    } else if key == "adj-vibrance"@ {
        Some(ADJ_VIBRANCE@)
    } else if key == "adj-hue-saturation"@ {
        Some(ADJ_HUE_SATURATION@)
    } else if key == "adj-color-balance"@ {
        Some(ADJ_COLOR_BALANCE@)
    } else if key == "adj-black-and-white"@ {
        Some(ADJ_BLACK_AND_WHITE@)
    } else if key == "adj-photo-filter"@ {
        Some(ADJ_PHOTO_FILTER@)
    } else if key == "adj-channel-mixer"@ {
        Some(ADJ_CHANNEL_MIXER@)
    } else if key == "adj-invert"@ {
        Some(ADJ_INVERT@)
    } else if key == "adj-posterize"@ {
        Some(ADJ_POSTERIZE@)
    } else if key == "adj-threshold"@ {
        Some(ADJ_THRESHOLD@)
    } else if key == "adj-gradient-map"@ {
        Some(ADJ_GRADIENT_MAP@)
    } else if key == "adj-selective-color"@ {
        Some(ADJ_SELECTIVE_COLOR@)
    } else if key == "step-open"@ {
        Some(STEP_OPEN@)
    } else if key == "step-layer-added"@ {
        Some(STEP_LAYER_ADDED@)
    } else if key == "step-layer-removed"@ {
        Some(STEP_LAYER_REMOVED@)
    } else if key == "step-layer-moved"@ {
        Some(STEP_LAYER_MOVED@)
    } else if key == "step-layer-changed"@ {
        Some(STEP_LAYER_CHANGED@)
    } else if key == "step-transformed"@ {
        Some(STEP_TRANSFORMED@)
    } else if key == "step-painted"@ {
        Some(STEP_PAINTED@)
    } else if key == "step-filled"@ {
        Some(STEP_FILLED@)
    } else if key == "step-cleared"@ {
        Some(STEP_CLEARED@)
    } else if key == "step-batch"@ {
        Some(STEP_BATCH@)
    } else if key == "step-unknown"@ {
        Some(STEP_UNKNOWN@)
    } else {
        None
    }
}

/// The drawing for an icon key of the chrome.
///
/// The companion to [`icon_for`], for everything that is not a tool.
pub fn ui_icon(key: &str) -> (r: Icon)
    ensures
        r@ == IconModel::of(chrome_code(key@)),
{
    reveal(chrome_code);
    if text::same(key, "chevron-right") {
        return Icon::drawn(array_as_slice(&CHEVRON_RIGHT));
    }
    if text::same(key, "chevron-down") {
        return Icon::drawn(array_as_slice(&CHEVRON_DOWN));
    }
    if text::same(key, "chevron-up") {
        return Icon::drawn(array_as_slice(&CHEVRON_UP));
    }
    if text::same(key, "chevron-left") {
        return Icon::drawn(array_as_slice(&CHEVRON_LEFT));
    }
    if text::same(key, "anchor-block") {
        return Icon::drawn(array_as_slice(&ANCHOR_BLOCK));
    }
    if text::same(key, "close") {
        return Icon::drawn(array_as_slice(&CLOSE));
    }
    if text::same(key, "overflow") {
        return Icon::drawn(array_as_slice(&OVERFLOW));
    }
    if text::same(key, "check") {
        return Icon::drawn(array_as_slice(&CHECK));
    }
    if text::same(key, "plus") {
        return Icon::drawn(array_as_slice(&PLUS));
    }
    if text::same(key, "minus") {
        return Icon::drawn(array_as_slice(&MINUS));
    }
    if text::same(key, "eye") {
        return Icon::drawn(array_as_slice(&EYE));
    }
    if text::same(key, "trash") {
        return Icon::drawn(array_as_slice(&TRASH));
    }
    if text::same(key, "target") {
        return Icon::drawn(array_as_slice(&TARGET));
    }
    if text::same(key, "swap") {
        return Icon::drawn(array_as_slice(&SWAP));
    }
    if text::same(key, "colors-default") {
        return Icon::drawn(array_as_slice(&COLORS_DEFAULT));
    }
    if text::same(key, "clipping") {
        return Icon::drawn(array_as_slice(&CLIPPING));
    }
    if text::same(key, "new-group") {
        return Icon::drawn(array_as_slice(&NEW_GROUP));
    }
    if text::same(key, "link") {
        return Icon::drawn(array_as_slice(&LINK));
    }
    if text::same(key, "adjustment") {
        return Icon::drawn(array_as_slice(&ADJUSTMENT));
    }
    if text::same(key, "mask") {
        return Icon::drawn(array_as_slice(&MASK));
    }
    if text::same(key, "layer-raster") {
        return Icon::drawn(array_as_slice(&LAYER_RASTER));
    }
    if text::same(key, "layer-group") {
        return Icon::drawn(array_as_slice(&LAYER_GROUP));
    }
    if text::same(key, "layer-adjustment") {
        return Icon::drawn(array_as_slice(&LAYER_ADJUSTMENT));
    }
    if text::same(key, "layer-text") {
        return Icon::drawn(array_as_slice(&LAYER_TEXT));
    }
    if text::same(key, "layer-shape") {
        return Icon::drawn(array_as_slice(&LAYER_SHAPE));
    }
    if text::same(key, "layer-smart-object") {
        return Icon::drawn(array_as_slice(&LAYER_SMART_OBJECT));
    }
    if text::same(key, "layer-generator") {
        return Icon::drawn(array_as_slice(&LAYER_GENERATOR));
    }
    if text::same(key, "lock-transparency") {
        return Icon::drawn(array_as_slice(&LOCK_TRANSPARENCY));
    }
    if text::same(key, "lock-pixels") {
        return Icon::drawn(array_as_slice(&LOCK_PIXELS));
    }
    if text::same(key, "lock-position") {
        return Icon::drawn(array_as_slice(&LOCK_POSITION));
    }
    if text::same(key, "lock-all") {
        return Icon::drawn(array_as_slice(&LOCK_ALL));
    }
    if text::same(key, "adj-brightness-contrast") {
        return Icon::drawn(array_as_slice(&ADJ_BRIGHTNESS_CONTRAST));
    }
    if text::same(key, "adj-levels") {
        return Icon::drawn(array_as_slice(&ADJ_LEVELS));
    }
    if text::same(key, "adj-curves") {
        return Icon::drawn(array_as_slice(&ADJ_CURVES));
    }
    if text::same(key, "adj-exposure") {
        return Icon::drawn(array_as_slice(&ADJ_EXPOSURE));
    }
    if text::same(key, "adj-vibrance") {
        return Icon::drawn(array_as_slice(&ADJ_VIBRANCE));
    }
    if text::same(key, "adj-hue-saturation") {
        return Icon::drawn(array_as_slice(&ADJ_HUE_SATURATION));
    }
    if text::same(key, "adj-color-balance") {
        return Icon::drawn(array_as_slice(&ADJ_COLOR_BALANCE));
    }
    if text::same(key, "adj-black-and-white") {
        return Icon::drawn(array_as_slice(&ADJ_BLACK_AND_WHITE));
    }
    if text::same(key, "adj-photo-filter") {
        return Icon::drawn(array_as_slice(&ADJ_PHOTO_FILTER));
    }
    if text::same(key, "adj-channel-mixer") {
        return Icon::drawn(array_as_slice(&ADJ_CHANNEL_MIXER));
    }
    if text::same(key, "adj-invert") {
        return Icon::drawn(array_as_slice(&ADJ_INVERT));
    }
    if text::same(key, "adj-posterize") {
        return Icon::drawn(array_as_slice(&ADJ_POSTERIZE));
    }
    if text::same(key, "adj-threshold") {
        return Icon::drawn(array_as_slice(&ADJ_THRESHOLD));
    }
    if text::same(key, "adj-gradient-map") {
        return Icon::drawn(array_as_slice(&ADJ_GRADIENT_MAP));
    }
    if text::same(key, "adj-selective-color") {
        return Icon::drawn(array_as_slice(&ADJ_SELECTIVE_COLOR));
    }
    if text::same(key, "step-open") {
        return Icon::drawn(array_as_slice(&STEP_OPEN));
    }
    if text::same(key, "step-layer-added") {
        return Icon::drawn(array_as_slice(&STEP_LAYER_ADDED));
    }
    if text::same(key, "step-layer-removed") {
        return Icon::drawn(array_as_slice(&STEP_LAYER_REMOVED));
    }
    if text::same(key, "step-layer-moved") {
        return Icon::drawn(array_as_slice(&STEP_LAYER_MOVED));
    }
    if text::same(key, "step-layer-changed") {
        return Icon::drawn(array_as_slice(&STEP_LAYER_CHANGED));
    }
    if text::same(key, "step-transformed") {
        return Icon::drawn(array_as_slice(&STEP_TRANSFORMED));
    }
    if text::same(key, "step-painted") {
        return Icon::drawn(array_as_slice(&STEP_PAINTED));
    }
    if text::same(key, "step-filled") {
        return Icon::drawn(array_as_slice(&STEP_FILLED));
    }
    if text::same(key, "step-cleared") {
        return Icon::drawn(array_as_slice(&STEP_CLEARED));
    }
    if text::same(key, "step-batch") {
        return Icon::drawn(array_as_slice(&STEP_BATCH));
    }
    if text::same(key, "step-unknown") {
        return Icon::drawn(array_as_slice(&STEP_UNKNOWN));
    }
    Icon::unknown()
}

proof fn lemma_sound_1()
    ensures
        icons::sound(ARROW@, 0),
        icons::sound(CROSS_ARROWS@, 0),
        icons::sound(MARQUEE_RECT@, 0),
        icons::sound(MARQUEE_ELLIPSE@, 0),
        icons::sound(MARQUEE_ROW@, 0),
        icons::sound(MARQUEE_COLUMN@, 0),
        icons::sound(LASSO@, 0),
{
    reveal_with_fuel(icons::sound, 7);
}

proof fn lemma_sound_2()
    ensures
        icons::sound(LASSO_POLY@, 0),
        icons::sound(LASSO_MAGNETIC@, 0),
        icons::sound(WAND@, 0),
        icons::sound(QUICK_SELECT@, 0),
        icons::sound(CROP@, 0),
        icons::sound(SLICE@, 0),
        icons::sound(EYEDROPPER@, 0),
{
    reveal_with_fuel(icons::sound, 6);
}

proof fn lemma_sound_3()
    ensures
        icons::sound(SPOT_HEAL@, 0),
        icons::sound(HEAL@, 0),
        icons::sound(PATCH@, 0),
        icons::sound(RED_EYE@, 0),
        icons::sound(BRUSH@, 0),
        icons::sound(PENCIL@, 0),
        icons::sound(COLOR_REPLACE@, 0),
{
    reveal_with_fuel(icons::sound, 4);
}

proof fn lemma_sound_4()
    ensures
        icons::sound(CLONE@, 0),
        icons::sound(PATTERN_STAMP@, 0),
        icons::sound(ERASER@, 0),
        icons::sound(ERASER_BG@, 0),
        icons::sound(ERASER_MAGIC@, 0),
        icons::sound(GRADIENT@, 0),
        icons::sound(BUCKET@, 0),
{
    reveal_with_fuel(icons::sound, 5);
}

proof fn lemma_sound_5()
    ensures
        icons::sound(PATTERN_FILL@, 0),
        icons::sound(BLUR@, 0),
        icons::sound(SHARPEN@, 0),
        icons::sound(SMUDGE@, 0),
        icons::sound(DODGE@, 0),
        icons::sound(BURN@, 0),
        icons::sound(SPONGE@, 0),
{
    reveal_with_fuel(icons::sound, 6);
}

proof fn lemma_sound_6()
    ensures
        icons::sound(SHAPE_RECT@, 0),
        icons::sound(SHAPE_RRECT@, 0),
        icons::sound(SHAPE_ELLIPSE@, 0),
        icons::sound(SHAPE_POLYGON@, 0),
        icons::sound(SHAPE_STAR@, 0),
        icons::sound(SHAPE_LINE@, 0),
        icons::sound(SHAPE_CUSTOM@, 0),
{
    reveal_with_fuel(icons::sound, 4);
}

proof fn lemma_sound_7()
    ensures
        icons::sound(HAND@, 0),
        icons::sound(ZOOM@, 0),
        icons::sound(ROTATE_VIEW@, 0),
        icons::sound(TRANSFORM@, 0),
        icons::sound(PEN@, 0),
        icons::sound(TYPE@, 0),
        icons::sound(CHEVRON_RIGHT@, 0),
{
    reveal_with_fuel(icons::sound, 6);
}

proof fn lemma_sound_8()
    ensures
        icons::sound(CHEVRON_DOWN@, 0),
        icons::sound(CHEVRON_UP@, 0),
        icons::sound(CHEVRON_LEFT@, 0),
        icons::sound(ANCHOR_BLOCK@, 0),
        icons::sound(CLOSE@, 0),
        icons::sound(OVERFLOW@, 0),
        icons::sound(CHECK@, 0),
{
    reveal_with_fuel(icons::sound, 4);
}

proof fn lemma_sound_9()
    ensures
        icons::sound(PLUS@, 0),
        icons::sound(MINUS@, 0),
        icons::sound(EYE@, 0),
        icons::sound(TRASH@, 0),
        icons::sound(TARGET@, 0),
        icons::sound(SWAP@, 0),
        icons::sound(COLORS_DEFAULT@, 0),
{
    reveal_with_fuel(icons::sound, 6);
}

proof fn lemma_sound_10()
    ensures
        icons::sound(CLIPPING@, 0),
        icons::sound(NEW_GROUP@, 0),
        icons::sound(LAYER_RASTER@, 0),
        icons::sound(LAYER_GROUP@, 0),
        icons::sound(LAYER_ADJUSTMENT@, 0),
        icons::sound(LAYER_TEXT@, 0),
        icons::sound(LAYER_SHAPE@, 0),
{
    reveal_with_fuel(icons::sound, 6);
}

proof fn lemma_sound_11()
    ensures
        icons::sound(LAYER_SMART_OBJECT@, 0),
        icons::sound(LAYER_GENERATOR@, 0),
        icons::sound(LOCK_TRANSPARENCY@, 0),
        icons::sound(LOCK_PIXELS@, 0),
        icons::sound(LOCK_POSITION@, 0),
        icons::sound(LOCK_ALL@, 0),
        icons::sound(ADJ_BRIGHTNESS_CONTRAST@, 0),
{
    reveal_with_fuel(icons::sound, 7);
}

proof fn lemma_sound_12()
    ensures
        icons::sound(ADJ_LEVELS@, 0),
        icons::sound(ADJ_CURVES@, 0),
        icons::sound(ADJ_EXPOSURE@, 0),
        icons::sound(ADJ_VIBRANCE@, 0),
        icons::sound(ADJ_HUE_SATURATION@, 0),
        icons::sound(ADJ_COLOR_BALANCE@, 0),
        icons::sound(ADJ_BLACK_AND_WHITE@, 0),
{
    reveal_with_fuel(icons::sound, 10);
}

proof fn lemma_sound_13()
    ensures
        icons::sound(ADJ_PHOTO_FILTER@, 0),
        icons::sound(ADJ_CHANNEL_MIXER@, 0),
        icons::sound(ADJ_INVERT@, 0),
        icons::sound(ADJ_POSTERIZE@, 0),
        icons::sound(ADJ_THRESHOLD@, 0),
        icons::sound(ADJ_GRADIENT_MAP@, 0),
        icons::sound(ADJ_SELECTIVE_COLOR@, 0),
{
    reveal_with_fuel(icons::sound, 6);
}

proof fn lemma_sound_14()
    ensures
        icons::sound(STEP_OPEN@, 0),
        icons::sound(STEP_LAYER_ADDED@, 0),
        icons::sound(STEP_LAYER_REMOVED@, 0),
        icons::sound(STEP_LAYER_MOVED@, 0),
        icons::sound(STEP_LAYER_CHANGED@, 0),
        icons::sound(STEP_TRANSFORMED@, 0),
        icons::sound(STEP_PAINTED@, 0),
{
    reveal_with_fuel(icons::sound, 5);
}

proof fn lemma_sound_15()
    ensures
        icons::sound(STEP_FILLED@, 0),
        icons::sound(STEP_CLEARED@, 0),
        icons::sound(STEP_BATCH@, 0),
        icons::sound(STEP_UNKNOWN@, 0),
        icons::sound(LINK@, 0),
        icons::sound(ADJUSTMENT@, 0),
        icons::sound(MASK@, 0),
{
    reveal_with_fuel(icons::sound, 6);
}

/// Every drawing of a tool stays inside the unit square and draws something.
pub proof fn every_tool_drawing_stays_inside(key: Seq<char>)
    ensures
        tool_code(key) is Some ==> icons::sound(tool_code(key)->0, 0) && tool_code(key)->0.len() > 0,
{
    reveal(tool_code);
    lemma_sound_1();
    lemma_sound_2();
    lemma_sound_3();
    lemma_sound_4();
    lemma_sound_5();
    lemma_sound_6();
    lemma_sound_7();
    lemma_sound_8();
    lemma_sound_9();
    lemma_sound_10();
    lemma_sound_11();
    lemma_sound_12();
    lemma_sound_13();
    lemma_sound_14();
    lemma_sound_15();
}

/// Every drawing of the chrome stays inside the unit square and draws something.
pub proof fn every_chrome_drawing_stays_inside(key: Seq<char>)
    ensures
        chrome_code(key) is Some ==> icons::sound(chrome_code(key)->0, 0) && chrome_code(key)->0.len() > 0,
{
    reveal(chrome_code);
    lemma_sound_1();
    lemma_sound_2();
    lemma_sound_3();
    lemma_sound_4();
    lemma_sound_5();
    lemma_sound_6();
    lemma_sound_7();
    lemma_sound_8();
    lemma_sound_9();
    lemma_sound_10();
    lemma_sound_11();
    lemma_sound_12();
    lemma_sound_13();
    lemma_sound_14();
    lemma_sound_15();
}

/// A colour adjustment of the Adjustments grid.
#[derive(Clone, Copy, PartialEq, Eq, Structural, Hash, Debug, PartialOrd, Ord)]
pub enum AdjustmentId {
    BrightnessContrast,
    Levels,
    Curves,
    Exposure,
    Vibrance,
    HueSaturation,
    ColorBalance,
    BlackAndWhite,
    PhotoFilter,
    ChannelMixer,
    Invert,
    Posterize,
    Threshold,
    GradientMap,
    SelectiveColor,
}

impl AdjustmentId {
    pub const ALL: [AdjustmentId; 15] = [
        AdjustmentId::BrightnessContrast,
        AdjustmentId::Levels,
        AdjustmentId::Curves,
        AdjustmentId::Exposure,
        AdjustmentId::Vibrance,
        AdjustmentId::HueSaturation,
        AdjustmentId::ColorBalance,
        AdjustmentId::BlackAndWhite,
        AdjustmentId::PhotoFilter,
        AdjustmentId::ChannelMixer,
        AdjustmentId::Invert,
        AdjustmentId::Posterize,
        AdjustmentId::Threshold,
        AdjustmentId::GradientMap,
        AdjustmentId::SelectiveColor,
    ];

    pub open spec fn key(self) -> Seq<char> {
        match self {
            AdjustmentId::BrightnessContrast => "adj-brightness-contrast"@,
            AdjustmentId::Levels => "adj-levels"@,
            AdjustmentId::Curves => "adj-curves"@,
            AdjustmentId::Exposure => "adj-exposure"@,
            AdjustmentId::Vibrance => "adj-vibrance"@,
            AdjustmentId::HueSaturation => "adj-hue-saturation"@,
            AdjustmentId::ColorBalance => "adj-color-balance"@,
            AdjustmentId::BlackAndWhite => "adj-black-and-white"@,
            AdjustmentId::PhotoFilter => "adj-photo-filter"@,
            AdjustmentId::ChannelMixer => "adj-channel-mixer"@,
            AdjustmentId::Invert => "adj-invert"@,
            AdjustmentId::Posterize => "adj-posterize"@,
            AdjustmentId::Threshold => "adj-threshold"@,
            AdjustmentId::GradientMap => "adj-gradient-map"@,
            AdjustmentId::SelectiveColor => "adj-selective-color"@,
        }
    }

    /// The key of its drawing.
    pub fn icon(self) -> (r: &'static str)
        ensures
            r@ == self.key(),
    {
        match self {
            AdjustmentId::BrightnessContrast => "adj-brightness-contrast",
            AdjustmentId::Levels => "adj-levels",
            AdjustmentId::Curves => "adj-curves",
            AdjustmentId::Exposure => "adj-exposure",
            AdjustmentId::Vibrance => "adj-vibrance",
            AdjustmentId::HueSaturation => "adj-hue-saturation",
            AdjustmentId::ColorBalance => "adj-color-balance",
            AdjustmentId::BlackAndWhite => "adj-black-and-white",
            AdjustmentId::PhotoFilter => "adj-photo-filter",
            AdjustmentId::ChannelMixer => "adj-channel-mixer",
            AdjustmentId::Invert => "adj-invert",
            AdjustmentId::Posterize => "adj-posterize",
            AdjustmentId::Threshold => "adj-threshold",
            AdjustmentId::GradientMap => "adj-gradient-map",
            AdjustmentId::SelectiveColor => "adj-selective-color",
        }
    }
}

/// What a history step did.
#[derive(Clone, Copy, PartialEq, Eq, Structural, Hash, Debug, PartialOrd, Ord)]
pub enum StepKind {
    Open,
    LayerAdded,
    LayerRemoved,
    LayerMoved,
    LayerChanged,
    Transformed,
    Painted,
    Filled,
    Cleared,
    Batch,
    Unknown,
}

impl StepKind {
    pub const ALL: [StepKind; 11] = [
        StepKind::Open,
        StepKind::LayerAdded,
        StepKind::LayerRemoved,
        StepKind::LayerMoved,
        StepKind::LayerChanged,
        StepKind::Transformed,
        StepKind::Painted,
        StepKind::Filled,
        StepKind::Cleared,
        StepKind::Batch,
        StepKind::Unknown,
    ];

    pub open spec fn key(self) -> Seq<char> {
        match self {
            StepKind::Open => "step-open"@,
            StepKind::LayerAdded => "step-layer-added"@,
            StepKind::LayerRemoved => "step-layer-removed"@,
            StepKind::LayerMoved => "step-layer-moved"@,
            StepKind::LayerChanged => "step-layer-changed"@,
            StepKind::Transformed => "step-transformed"@,
            StepKind::Painted => "step-painted"@,
            StepKind::Filled => "step-filled"@,
            StepKind::Cleared => "step-cleared"@,
            StepKind::Batch => "step-batch"@,
            StepKind::Unknown => "step-unknown"@,
        }
    }

    /// The key of its drawing.
    pub fn icon(self) -> (r: &'static str)
        ensures
            r@ == self.key(),
    {
        match self {
            StepKind::Open => "step-open",
            StepKind::LayerAdded => "step-layer-added",
            StepKind::LayerRemoved => "step-layer-removed",
            StepKind::LayerMoved => "step-layer-moved",
            StepKind::LayerChanged => "step-layer-changed",
            StepKind::Transformed => "step-transformed",
            StepKind::Painted => "step-painted",
            StepKind::Filled => "step-filled",
            StepKind::Cleared => "step-cleared",
            StepKind::Batch => "step-batch",
            StepKind::Unknown => "step-unknown",
        }
    }
}

/// What a layer is, as the Layers list shows it.
#[derive(Clone, Copy, PartialEq, Eq, Structural, Hash, Debug, PartialOrd, Ord)]
pub enum LayerClass {
    Raster,
    Group,
    Adjustment,
    Text,
    Shape,
    SmartObject,
    Generator,
}

impl LayerClass {
    pub const ALL: [LayerClass; 7] = [
        LayerClass::Raster,
        LayerClass::Group,
        LayerClass::Adjustment,
        LayerClass::Text,
        LayerClass::Shape,
        LayerClass::SmartObject,
        LayerClass::Generator,
    ];

    pub open spec fn key(self) -> Seq<char> {
        match self {
            LayerClass::Raster => "layer-raster"@,
            LayerClass::Group => "layer-group"@,
            LayerClass::Adjustment => "layer-adjustment"@,
            LayerClass::Text => "layer-text"@,
            LayerClass::Shape => "layer-shape"@,
            LayerClass::SmartObject => "layer-smart-object"@,
            LayerClass::Generator => "layer-generator"@,
        }
    }

    /// The key of its drawing.
    pub fn icon(self) -> (r: &'static str)
        ensures
            r@ == self.key(),
    {
        match self {
            LayerClass::Raster => "layer-raster",
            LayerClass::Group => "layer-group",
            LayerClass::Adjustment => "layer-adjustment",
            LayerClass::Text => "layer-text",
            LayerClass::Shape => "layer-shape",
            LayerClass::SmartObject => "layer-smart-object",
            LayerClass::Generator => "layer-generator",
        }
    }
}

/// One of the locks of a layer.
#[derive(Clone, Copy, PartialEq, Eq, Structural, Hash, Debug, PartialOrd, Ord)]
pub enum LockToggle {
    Transparency,
    Pixels,
    Position,
    All,
}

impl LockToggle {
    pub const ALL: [LockToggle; 4] = [
        LockToggle::Transparency,
        LockToggle::Pixels,
        LockToggle::Position,
        LockToggle::All,
    ];

    pub open spec fn key(self) -> Seq<char> {
        match self {
            LockToggle::Transparency => "lock-transparency"@,
            LockToggle::Pixels => "lock-pixels"@,
            LockToggle::Position => "lock-position"@,
            LockToggle::All => "lock-all"@,
        }
    }

    /// The key of its drawing.
    pub fn icon(self) -> (r: &'static str)
        ensures
            r@ == self.key(),
    {
        match self {
            LockToggle::Transparency => "lock-transparency",
            LockToggle::Pixels => "lock-pixels",
            LockToggle::Position => "lock-position",
            LockToggle::All => "lock-all",
        }
    }
}

/// Every fixed key of the chrome. The sets that come from an enum are named by that
/// enum instead, so this is only the one-off keys.
pub const CHROME_ICON_KEYS: [&'static str; 20] = [
    "chevron-right",
    "chevron-down",
    "chevron-up",
    "chevron-left",
    "anchor-block",
    "close",
    "overflow",
    "check",
    "plus",
    "minus",
    "eye",
    "trash",
    "target",
    "swap",
    "colors-default",
    "clipping",
    "new-group",
    "link",
    "adjustment",
    "mask",
];

/// Every control of the chrome has a drawing: each fixed key, each adjustment,
/// each kind of history step, each class of layer and each lock.
pub proof fn every_chrome_control_has_a_drawing(
    adjustment: AdjustmentId,
    step: StepKind,
    layer: LayerClass,
    lock: LockToggle,
    at: int,
)
    ensures
        chrome_code(adjustment.key()) is Some,
        chrome_code(step.key()) is Some,
        chrome_code(layer.key()) is Some,
        chrome_code(lock.key()) is Some,
        0 <= at < CHROME_ICON_KEYS@.len() ==> chrome_code(CHROME_ICON_KEYS@[at]@) is Some,
{
    reveal(chrome_code);
}

/// The hand-written lists hold every variant.
pub proof fn every_variant_is_listed(
    adjustment: AdjustmentId,
    step: StepKind,
    layer: LayerClass,
    lock: LockToggle,
)
    ensures
        AdjustmentId::ALL@.contains(adjustment),
        StepKind::ALL@.contains(step),
        LayerClass::ALL@.contains(layer),
        LockToggle::ALL@.contains(lock),
{
    match adjustment {
        AdjustmentId::BrightnessContrast => assert(AdjustmentId::ALL@[0] == adjustment),
        AdjustmentId::Levels => assert(AdjustmentId::ALL@[1] == adjustment),
        AdjustmentId::Curves => assert(AdjustmentId::ALL@[2] == adjustment),
        AdjustmentId::Exposure => assert(AdjustmentId::ALL@[3] == adjustment),
        AdjustmentId::Vibrance => assert(AdjustmentId::ALL@[4] == adjustment),
        AdjustmentId::HueSaturation => assert(AdjustmentId::ALL@[5] == adjustment),
        AdjustmentId::ColorBalance => assert(AdjustmentId::ALL@[6] == adjustment),
        AdjustmentId::BlackAndWhite => assert(AdjustmentId::ALL@[7] == adjustment),
        AdjustmentId::PhotoFilter => assert(AdjustmentId::ALL@[8] == adjustment),
        AdjustmentId::ChannelMixer => assert(AdjustmentId::ALL@[9] == adjustment),
        AdjustmentId::Invert => assert(AdjustmentId::ALL@[10] == adjustment),
        AdjustmentId::Posterize => assert(AdjustmentId::ALL@[11] == adjustment),
        AdjustmentId::Threshold => assert(AdjustmentId::ALL@[12] == adjustment),
        AdjustmentId::GradientMap => assert(AdjustmentId::ALL@[13] == adjustment),
        AdjustmentId::SelectiveColor => assert(AdjustmentId::ALL@[14] == adjustment),
    }
    match step {
        StepKind::Open => assert(StepKind::ALL@[0] == step),
        StepKind::LayerAdded => assert(StepKind::ALL@[1] == step),
        StepKind::LayerRemoved => assert(StepKind::ALL@[2] == step),
        StepKind::LayerMoved => assert(StepKind::ALL@[3] == step),
        StepKind::LayerChanged => assert(StepKind::ALL@[4] == step),
        StepKind::Transformed => assert(StepKind::ALL@[5] == step),
        StepKind::Painted => assert(StepKind::ALL@[6] == step),
        StepKind::Filled => assert(StepKind::ALL@[7] == step),
        StepKind::Cleared => assert(StepKind::ALL@[8] == step),
        StepKind::Batch => assert(StepKind::ALL@[9] == step),
        StepKind::Unknown => assert(StepKind::ALL@[10] == step),
    }
    match layer {
        LayerClass::Raster => assert(LayerClass::ALL@[0] == layer),
        LayerClass::Group => assert(LayerClass::ALL@[1] == layer),
        LayerClass::Adjustment => assert(LayerClass::ALL@[2] == layer),
        LayerClass::Text => assert(LayerClass::ALL@[3] == layer),
        LayerClass::Shape => assert(LayerClass::ALL@[4] == layer),
        LayerClass::SmartObject => assert(LayerClass::ALL@[5] == layer),
        LayerClass::Generator => assert(LayerClass::ALL@[6] == layer),
    }
    match lock {
        LockToggle::Transparency => assert(LockToggle::ALL@[0] == lock),
        LockToggle::Pixels => assert(LockToggle::ALL@[1] == lock),
        LockToggle::Position => assert(LockToggle::ALL@[2] == lock),
        LockToggle::All => assert(LockToggle::ALL@[3] == lock),
    }
}

} // verus!
