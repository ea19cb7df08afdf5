//! The English strings the chrome draws that are not catalogue rows, gathered
//! so that a language table can be held against them.

use crate::dock::{LayoutId, PanelId};
use crate::text;
use vstd::prelude::*;

verus! {

/// Proper names every table keeps as they are: formats, colour standards,
/// product names.
pub const PROPER_NAMES: [&'static str; 36] = [
    "RGB",
    "CMYK",
    "Lab",
    "HSB",
    "HSL",
    "Hex",
    "CSS",
    "SVG",
    "PNG",
    "JPG",
    "JPEG",
    "GIF",
    "WebP",
    "BMP",
    "TIFF",
    "PSD",
    "PDF",
    "ICO",
    "TGA",
    "EMF",
    "DXF",
    "HEIC",
    "AVIF",
    "MP4",
    "RAW",
    "EXIF",
    "XMP",
    "ICC",
    "sRGB",
    "Adobe RGB (1998)",
    "Display P3",
    "ProPhoto RGB",
    "sRGB IEC61966-2.1",
    "Raster Studio",
    "X",
    "Y",
];

/// What the history and the layers panel call a step.
pub const STEPS: [&'static str; 3] = [
    "Undo",
    "Redo",
    "Layer",
];

/// Font stretches and slants.
pub const STRETCHES: [&'static str; 10] = [
    "Ultra Condensed",
    "Extra Condensed",
    "Condensed",
    "Semi Condensed",
    "Semi Expanded",
    "Expanded",
    "Extra Expanded",
    "Ultra Expanded",
    "Italic",
    "Oblique",
];

/// The Info panel's rows.
pub const INFO_ROWS: [&'static str; 5] = [
    "Pointer",
    "Document",
    "Selection",
    "Distance",
    "Angle",
];

/// The Properties panel's headings.
pub const HEADINGS: [&'static str; 8] = [
    "Properties",
    "Layer Properties",
    "Mask Properties",
    "Adjustment",
    "Text Properties",
    "Shape Properties",
    "Smart Object",
    "Fill Layer",
];

/// A line of a menu.
#[derive(Debug)]
pub enum Entry {
    Item(String),
    Separator,
    Submenu { label: String, entries: Vec<Entry> },
}

/// A menu of the menu bar.
#[derive(Debug)]
pub struct Menu {
    pub title: String,
    pub entries: Vec<Entry>,
}

/// What one line of a menu draws: an item its label, a submenu its label and
/// then its lines.
pub open spec fn drawn_by(entry: Entry) -> Seq<Seq<char>>
    decreases entry,
{
    match entry {
        Entry::Item(label) => seq![label@],
        Entry::Separator => Seq::empty(),
        Entry::Submenu { label, entries } => seq![label@] + drawn(entries@),
    }
}

/// What the lines of a menu draw, in their order.
pub open spec fn drawn(entries: Seq<Entry>) -> Seq<Seq<char>>
    decreases entries,
{
    if entries.len() == 0 {
        Seq::empty()
    } else {
        drawn(entries.drop_last()) + drawn_by(entries.last())
    }
}

fn walk(entries: &Vec<Entry>, out: &mut Vec<String>)
    ensures
        text::texts(final(out)@) == text::texts(old(out)@) + drawn(entries@),
    decreases entries,
{
    let ghost before = text::texts(out@);
    let mut i: usize = 0;
    assert(entries@.take(0) =~= Seq::empty());
    while i < entries.len()
        invariant
            i <= entries@.len(),
            text::texts(out@) == before + drawn(entries@.take(i as int)),
        decreases entries@.len() - i,
    {
        let ghost so_far = text::texts(out@);
        let ghost next = entries@.take(i + 1);
        assert(next.drop_last() =~= entries@.take(i as int));
        match &entries[i] {
            Entry::Item(label) => {
                out.push(text::copied(label.as_str()));
                assert(text::texts(out@) =~= so_far + seq![label@]);
            },
            Entry::Separator => {},
            Entry::Submenu { label, entries: lines } => {
                out.push(text::copied(label.as_str()));
                assert(text::texts(out@) =~= so_far + seq![label@]);
                walk(lines, out);
            },
        }
        assert(text::texts(out@) =~= so_far + drawn_by(entries@[i as int]));
        i = i + 1;
        assert(text::texts(out@) =~= before + drawn(next));
    }
    assert(entries@.take(entries@.len() as int) =~= entries@);
}

/// The labels the models own.
#[derive(Debug)]
pub struct Labels {
    /// The menu bar.
    pub menus: Vec<Menu>,
    /// Every menu action, menu-listed or not.
    pub actions: Vec<String>,
    /// What names itself in every language: the languages, and the slots of the
    /// recent files.
    pub own_names: Vec<String>,
    pub merge_layers: String,
    pub blend_modes: Vec<String>,
    pub history_steps: Vec<String>,
    pub adjustments: Vec<String>,
    /// The choices of the Character and Paragraph panels.
    pub type_choices: Vec<String>,
    pub color_notations: Vec<String>,
    pub brushes: Vec<String>,
}

/// The titles and lines of the first `n` menus.
pub open spec fn bar(menus: Seq<Menu>, n: int) -> Seq<Seq<char>>
    decreases n,
{
    if n <= 0 {
        Seq::empty()
    } else {
        bar(menus, n - 1) + seq![menus[n - 1].title@] + drawn(menus[n - 1].entries@)
    }
}

/// The words of a list.
pub open spec fn words(list: Seq<&'static str>) -> Seq<Seq<char>> {
    Seq::new(list.len(), |i: int| list[i]@)
}

impl Labels {
    /// What the menus can draw, but for what names itself.
    pub open spec fn menu_strings(self) -> Seq<Seq<char>> {
        let own = text::texts(self.own_names@);
        (bar(self.menus@, self.menus@.len() as int) + text::texts(self.actions@)).filter(
            |s: Seq<char>| !own.contains(s),
        )
    }

    /// The titles of the panels and of the saved layouts.
    pub open spec fn dock_strings(self) -> Seq<Seq<char>> {
        Seq::new(14, |i: int| PanelId::ALL@[i].title_text()) + Seq::new(
            4,
            |i: int| LayoutId::ALL@[i].title_text(),
        )
    }

    /// Every English string drawn from outside the catalogue.
    pub open spec fn strings(self) -> Seq<Seq<char>> {
        self.menu_strings() + words(STEPS@) + seq![self.merge_layers@] + self.dock_strings()
            + text::texts(self.blend_modes@) + text::texts(self.history_steps@) + text::texts(
            self.adjustments@,
        ) + text::texts(self.type_choices@) + words(STRETCHES@) + words(INFO_ROWS@) + words(
            HEADINGS@,
        ) + text::texts(self.color_notations@) + text::texts(self.brushes@)
    }
}

fn append(out: &mut Vec<String>, list: &Vec<String>)
    ensures
        text::texts(final(out)@) == text::texts(old(out)@) + text::texts(list@),
{
    let ghost before = text::texts(out@);
    let mut i: usize = 0;
    while i < list.len()
        invariant
            i <= list@.len(),
            text::texts(out@) == before + text::texts(list@).take(i as int),
        decreases list@.len() - i,
    {
        let ghost so_far = text::texts(out@);
        out.push(text::copied(list[i].as_str()));
        assert(text::texts(out@) =~= so_far.push(list@[i as int]@));
        i = i + 1;
        assert(text::texts(out@) =~= before + text::texts(list@).take(i as int));
    }
    assert(text::texts(list@).take(list@.len() as int) =~= text::texts(list@));
}

fn append_words(out: &mut Vec<String>, list: &[&'static str])
    ensures
        text::texts(final(out)@) == text::texts(old(out)@) + words(list@),
{
    let ghost before = text::texts(out@);
    let mut i: usize = 0;
    while i < list.len()
        invariant
            i <= list@.len(),
            text::texts(out@) == before + words(list@).take(i as int),
        decreases list@.len() - i,
    {
        let ghost so_far = text::texts(out@);
        out.push(text::copied(list[i]));
        assert(text::texts(out@) =~= so_far.push(list@[i as int]@));
        i = i + 1;
        assert(text::texts(out@) =~= before + words(list@).take(i as int));
    }
    assert(words(list@).take(list@.len() as int) =~= words(list@));
}

fn is_among(list: &Vec<String>, s: &str) -> (r: bool)
    ensures
        r == text::texts(list@).contains(s@),
{
    let mut i: usize = 0;
    while i < list.len()
        invariant
            i <= list@.len(),
            forall|j: int| 0 <= j < i ==> (#[trigger] text::texts(list@)[j]) != s@,
        decreases list@.len() - i,
    {
        if text::same(list[i].as_str(), s) {
            assert(text::texts(list@)[i as int] == s@);
            return true;
        }
        i = i + 1;
    }
    false
}

fn without(list: &Vec<String>, own: &Vec<String>) -> (r: Vec<String>)
    ensures
        text::texts(r@) == text::texts(list@).filter(
            |s: Seq<char>| !text::texts(own@).contains(s),
        ),
{
    let ghost all = text::texts(list@);
    let ghost keeps = |s: Seq<char>| !text::texts(own@).contains(s);
    let mut out: Vec<String> = Vec::new();
    let mut i: usize = 0;
    proof {
        reveal(Seq::filter);
    }
    assert(all.take(0) =~= Seq::empty());
    assert(text::texts(out@) =~= all.take(0).filter(keeps));
    while i < list.len()
        invariant
            i <= list@.len(),
            all == text::texts(list@),
            keeps == (|s: Seq<char>| !text::texts(own@).contains(s)),
            text::texts(out@) == all.take(i as int).filter(keeps),
        decreases list@.len() - i,
    {
        let ghost so_far = text::texts(out@);
        proof {
            reveal(Seq::filter);
            assert(all.take(i + 1).drop_last() =~= all.take(i as int));
            assert(all.take(i + 1).last() == list@[i as int]@);
        }
        if !is_among(own, list[i].as_str()) {
            out.push(text::copied(list[i].as_str()));
            assert(text::texts(out@) =~= so_far.push(list@[i as int]@));
        }
        i = i + 1;
    }
    assert(all.take(list@.len() as int) =~= all);
    out
}

fn menu_bar(menus: &Vec<Menu>) -> (r: Vec<String>)
    ensures
        text::texts(r@) == bar(menus@, menus@.len() as int),
{
    let mut out: Vec<String> = Vec::new();
    let mut i: usize = 0;
    assert(text::texts(out@) =~= Seq::<Seq<char>>::empty());
    while i < menus.len()
        invariant
            i <= menus@.len(),
            text::texts(out@) == bar(menus@, i as int),
        decreases menus@.len() - i,
    {
        let ghost so_far = text::texts(out@);
        out.push(text::copied(menus[i].title.as_str()));
        assert(text::texts(out@) =~= so_far + seq![menus@[i as int].title@]);
        walk(&menus[i].entries, &mut out);
        i = i + 1;
    }
    out
}

fn dock_titles(out: &mut Vec<String>)
    ensures
        text::texts(final(out)@) == text::texts(old(out)@) + Seq::new(
            14,
            |i: int| PanelId::ALL@[i].title_text(),
        ) + Seq::new(4, |i: int| LayoutId::ALL@[i].title_text()),
{
    let ghost before = text::texts(out@);
    let ghost panels = Seq::new(14, |i: int| PanelId::ALL@[i].title_text());
    let ghost layouts = Seq::new(4, |i: int| LayoutId::ALL@[i].title_text());
    let mut i: usize = 0;
    while i < 14
        invariant
            i <= 14,
            panels == Seq::new(14, |i: int| PanelId::ALL@[i].title_text()),
            text::texts(out@) == before + panels.take(i as int),
        decreases 14 - i,
    {
        let ghost so_far = text::texts(out@);
        let panel = PanelId::ALL[i];
        out.push(text::copied(panel.title()));
        assert(text::texts(out@) =~= so_far.push(panels[i as int]));
        i = i + 1;
        assert(text::texts(out@) =~= before + panels.take(i as int));
    }
    assert(panels.take(14) =~= panels);
    i = 0;
    while i < 4
        invariant
            i <= 4,
            layouts == Seq::new(4, |i: int| LayoutId::ALL@[i].title_text()),
            text::texts(out@) == before + panels + layouts.take(i as int),
        decreases 4 - i,
    {
        let ghost so_far = text::texts(out@);
        let layout = LayoutId::ALL[i];
        out.push(text::copied(layout.title()));
        assert(text::texts(out@) =~= so_far.push(layouts[i as int]));
        i = i + 1;
        assert(text::texts(out@) =~= before + panels + layouts.take(i as int));
    }
    assert(layouts.take(4) =~= layouts);
}

/// Every English string drawn from outside the catalogue.
pub fn sources(labels: &Labels) -> (r: Vec<String>)
    ensures
        text::texts(r@) == labels.strings(),
{
    let mut listed = menu_bar(&labels.menus);
    append(&mut listed, &labels.actions);
    let mut out = without(&listed, &labels.own_names);
    append_words(&mut out, &STEPS);
    let ghost so_far = text::texts(out@);
    out.push(text::copied(labels.merge_layers.as_str()));
    assert(text::texts(out@) =~= so_far + seq![labels.merge_layers@]);
    dock_titles(&mut out);
    append(&mut out, &labels.blend_modes);
    append(&mut out, &labels.history_steps);
    append(&mut out, &labels.adjustments);
    append(&mut out, &labels.type_choices);
    append_words(&mut out, &STRETCHES);
    append_words(&mut out, &INFO_ROWS);
    append_words(&mut out, &HEADINGS);
    append(&mut out, &labels.color_notations);
    append(&mut out, &labels.brushes);
    assert(text::texts(out@) =~= labels.strings());
    out
}

} // verus!
