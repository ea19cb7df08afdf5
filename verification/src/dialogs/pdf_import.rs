//! File > Open of a PDF with two or more pages asks which pages (a thumbnail per
//! page, each one a toggle, with Select All / Select None), at what resolution
//! (dots per inch; 72 is one pixel per point) and how they open: as artboards
//! in one document, or each as a document of its own.
//!
//! The dialog hands back a [`PdfImportSpec`] and nothing else; the pages are
//! rendered by the application once it is confirmed.

use super::chrome;
use super::chrome::{DialogButton, DialogKeys, DialogOutcome};
use crate::ieee::Real32;
use crate::rounding;
use crate::strings;
use crate::text;
use vstd::prelude::*;

verus! {

/// The lowest resolution a page is rendered at.
pub const MIN_DPI: u32 = 18;

/// The highest resolution a page is rendered at.
pub const MAX_DPI: u32 = 1200;

/// The resolution the dialog opens on: one pixel per point.
pub const DEFAULT_DPI: u32 = 72;

/// How the chosen pages open.
#[derive(Clone, Copy, PartialEq, Eq, Structural, Hash, Debug)]
pub enum PdfOpenMode {
    /// One document, one artboard per page.
    Artboards,
    /// One document per page.
    SeparateDocuments,
}

impl Default for PdfOpenMode {
    fn default() -> (r: Self)
        ensures
            r == PdfOpenMode::Artboards,
    {
        PdfOpenMode::Artboards
    }
}

impl PdfOpenMode {
    pub const ALL: [PdfOpenMode; 2] = [PdfOpenMode::Artboards, PdfOpenMode::SeparateDocuments];

    pub fn label(self) -> (r: &'static str)
        ensures
            r@ == match self {
                PdfOpenMode::Artboards => strings::entry("ui.pdf_import.mode.artboards"@),
                PdfOpenMode::SeparateDocuments => strings::entry("ui.pdf_import.mode.separate"@),
            },
    {
        match self {
            PdfOpenMode::Artboards => strings::tr("ui.pdf_import.mode.artboards"),
            PdfOpenMode::SeparateDocuments => strings::tr("ui.pdf_import.mode.separate"),
        }
    }
}

/// The confirmed import: pages (from 0, in file order), resolution, mode.
#[derive(Clone, PartialEq, Eq, Debug)]
pub struct PdfImportSpec {
    pub pages: Vec<usize>,
    pub dpi: u32,
    pub mode: PdfOpenMode,
}

/// What a [`PdfImportSpec`] stands for.
#[verifier::ext_equal]
pub struct PdfImportRequest {
    pub pages: Seq<usize>,
    pub dpi: u32,
    pub mode: PdfOpenMode,
}

impl View for PdfImportSpec {
    type V = PdfImportRequest;

    open spec fn view(&self) -> PdfImportRequest {
        PdfImportRequest { pages: self.pages@, dpi: self.dpi, mode: self.mode }
    }
}

/// One page as the dialog lists it.
#[derive(Clone, PartialEq, Debug)]
pub struct PdfPageThumb {
    /// The page's size in points.
    pub width_pt: Real32,
    pub height_pt: Real32,
    /// The thumbnail, RGBA8 straight alpha.
    pub width: u32,
    pub height: u32,
    pub rgba: Vec<u8>,
}

impl PdfPageThumb {
    /// The thumbnail can be shown: it has a size, and its pixels fill it.
    pub open spec fn drawable(self) -> bool {
        self.width > 0 && self.height > 0 && self.rgba@.len() == self.width * self.height * 4
    }

    /// Whether the thumbnail can be shown.
    pub fn is_drawable(&self) -> (r: bool)
        ensures
            r == self.drawable(),
    {
        let (width, height) = (self.width, self.height);
        assert(width * height * 4 <= 0xffff_ffff * 0xffff_ffff * 4) by (nonlinear_arith)
            requires
                width <= 0xffff_ffff,
                height <= 0xffff_ffff,
        ;
        width > 0 && height > 0 && self.rgba.len() as u128 == width as u128 * height as u128 * 4
    }
}

/// The places of the chosen pages among the first `n`, in file order.
pub open spec fn chosen_of(selected: Seq<bool>, n: nat) -> Seq<usize>
    decreases n,
{
    if n == 0 {
        Seq::empty()
    } else {
        let before = chosen_of(selected, (n - 1) as nat);
        if selected[n - 1] {
            before.push((n - 1) as usize)
        } else {
            before
        }
    }
}

/// A side of a page in pixels: whole pixels, whatever is left over.
pub open spec fn side_px(points: Real32, dpi: u32) -> u32 {
    let scale = Real32::of_whole(dpi as nat).over_spec(Real32 { bits: 0x4290_0000 });
    rounding::truncated(points.times_spec(scale).number(), u32::MAX as nat) as u32
}

/// What a [`PdfImportDialog`] stands for.
#[verifier::ext_equal]
pub struct PdfImportModel {
    pub file_name: Seq<char>,
    /// Every page the file has; more than are listed when only the first ones
    /// are.
    pub total: int,
    pub pages: Seq<PdfPageThumb>,
    pub selected: Seq<bool>,
    pub dpi: u32,
    pub mode: PdfOpenMode,
}

impl PdfImportModel {
    pub open spec fn chosen(self) -> Seq<usize> {
        chosen_of(self.selected, self.selected.len())
    }

    /// Why nothing can be opened.
    pub open spec fn blocked(self) -> Option<Seq<char>> {
        if self.chosen().len() == 0 {
            Some(strings::entry("ui.pdf_import.none"@))
        } else if !(MIN_DPI <= self.dpi <= MAX_DPI) {
            Some(
                text::replaced(
                    text::replaced(
                        strings::entry("ui.pdf_import.dpi_range"@),
                        "{min}"@,
                        text::decimal(MIN_DPI as nat),
                    ),
                    "{max}"@,
                    text::decimal(MAX_DPI as nat),
                ),
            )
        } else {
            None
        }
    }

    /// What a confirmation hands over.
    pub open spec fn confirmation(self) -> Option<PdfImportRequest> {
        if self.blocked() is None {
            Some(PdfImportRequest { pages: self.chosen(), dpi: self.dpi, mode: self.mode })
        } else {
            None
        }
    }

    /// Every page chosen, or dropped.
    pub open spec fn with_all(self, on: bool) -> PdfImportModel {
        PdfImportModel { selected: Seq::new(self.selected.len(), |i: int| on), ..self }
    }

    /// A page chosen or dropped; one past the list changes nothing.
    pub open spec fn with(self, index: int, on: bool) -> PdfImportModel {
        if 0 <= index < self.selected.len() {
            PdfImportModel { selected: self.selected.update(index, on), ..self }
        } else {
            self
        }
    }
}

proof fn lemma_chosen(selected: Seq<bool>, n: nat)
    requires
        n <= selected.len(),
        n <= usize::MAX,
    ensures
        chosen_of(selected, n).len() <= n,
        forall|k: int| 0 <= k < chosen_of(selected, n).len() ==> #[trigger] chosen_of(
            selected,
            n,
        )[k] < n && selected[chosen_of(selected, n)[k] as int],
        forall|j: int, k: int|
            0 <= j < k < chosen_of(selected, n).len() ==> #[trigger] chosen_of(selected, n)[j]
                < #[trigger] chosen_of(selected, n)[k],
        forall|i: int|
            0 <= i < n && #[trigger] selected[i] ==> chosen_of(selected, n).contains(i as usize),
    decreases n,
{
    if n > 0 {
        let m = (n - 1) as nat;
        lemma_chosen(selected, m);
        let before = chosen_of(selected, m);
        let after = chosen_of(selected, n);
        assert forall|i: int| 0 <= i < n && #[trigger] selected[i] implies after.contains(
            i as usize,
        ) by {
            if i < m {
                assert(before.contains(i as usize));
                let k = choose|k: int| 0 <= k < before.len() && before[k] == i as usize;
                assert(after[k] == i as usize);
            } else {
                assert(after[before.len() as int] == i as usize);
            }
        }
    }
}

/// A confirmation names exactly the chosen pages, each once, in file order.
pub proof fn a_confirmation_names_the_chosen_pages(m: PdfImportModel)
    requires
        m.confirmation() is Some,
        m.selected.len() <= usize::MAX,
    ensures
        forall|i: int|
            0 <= i < m.selected.len() ==> (#[trigger] m.selected[i]
                <==> m.confirmation()->0.pages.contains(i as usize)),
        forall|j: int, k: int|
            0 <= j < k < m.confirmation()->0.pages.len() ==> #[trigger] m.confirmation()->0.pages[j]
                < #[trigger] m.confirmation()->0.pages[k],
{
    lemma_chosen(m.selected, m.selected.len());
    let pages = m.chosen();
    assert forall|i: int| 0 <= i < m.selected.len() && pages.contains(
        i as usize,
    ) implies #[trigger] m.selected[i] by {
        let k = choose|k: int| 0 <= k < pages.len() && pages[k] == i as usize;
        assert(m.selected[pages[k] as int]);
    }
}

/// Choosing a page changes that page alone, and a toggle undoes itself.
pub proof fn a_toggle_undoes_itself(m: PdfImportModel, index: int)
    requires
        0 <= index < m.selected.len(),
    ensures
        m.with(index, !m.selected[index]).with(index, m.selected[index]) == m,
        forall|i: int, on: bool|
            0 <= i < m.selected.len() && i != index ==> #[trigger] m.with(index, on).selected[i]
                == m.selected[i],
{
    assert(m.with(index, !m.selected[index]).with(index, m.selected[index]).selected
        == m.selected);
}

/// File > Open's PDF import question.
#[derive(Debug)]
pub struct PdfImportDialog {
    file_name: String,
    total: usize,
    pages: Vec<PdfPageThumb>,
    selected: Vec<bool>,
    dpi: u32,
    mode: PdfOpenMode,
}

impl View for PdfImportDialog {
    type V = PdfImportModel;

    closed spec fn view(&self) -> PdfImportModel {
        PdfImportModel {
            file_name: self.file_name@,
            total: self.total as int,
            pages: self.pages@,
            selected: self.selected@,
            dpi: self.dpi,
            mode: self.mode,
        }
    }
}

impl PdfImportDialog {
    /// Every listed page is chosen or not, and the file has at least the pages
    /// that are listed.
    pub open spec fn wf(&self) -> bool {
        self@.selected.len() == self@.pages.len() && self@.pages.len() <= self@.total <= usize::MAX
    }

    /// Every listed page chosen, at [`DEFAULT_DPI`], as artboards.
    pub fn new(file_name: String, total: usize, pages: Vec<PdfPageThumb>) -> (r: Self)
        ensures
            r.wf(),
            r@ == (PdfImportModel {
                file_name: file_name@,
                total: if total < pages@.len() {
                    pages@.len() as int
                } else {
                    total as int
                },
                pages: pages@,
                selected: Seq::new(pages@.len(), |i: int| true),
                dpi: DEFAULT_DPI,
                mode: PdfOpenMode::Artboards,
            }),
    {
        let n: usize = pages.len();
        let mut selected: Vec<bool> = Vec::new();
        let mut i: usize = 0;
        while i < n
            invariant
                i <= n,
                selected@ == Seq::new(i as nat, |k: int| true),
            decreases n - i,
        {
            selected.push(true);
            i = i + 1;
        }
        PdfImportDialog {
            file_name,
            total: if total < n {
                n
            } else {
                total
            },
            pages,
            selected,
            dpi: DEFAULT_DPI,
            mode: PdfOpenMode::Artboards,
        }
    }

    pub fn title(&self) -> (r: &'static str)
        ensures
            r@ == strings::entry("ui.pdf_import.title"@),
    {
        strings::tr("ui.pdf_import.title")
    }

    /// The line that says which file it is and how many pages it has.
    pub fn file_caption(&self) -> (r: String)
        requires
            self.wf(),
        ensures
            r@ == text::replaced(
                text::replaced(
                    strings::entry("ui.pdf_import.file"@),
                    "{name}"@,
                    self@.file_name,
                ),
                "{n}"@,
                text::decimal(self@.total as nat),
            ),
    {
        proof {
            reveal_strlit("{name}");
            reveal_strlit("{n}");
        }
        let named = text::replace(
            strings::tr("ui.pdf_import.file"),
            "{name}",
            self.file_name.as_str(),
        );
        text::replace(named.as_str(), "{n}", text::decimal_of(self.total as u128).as_str())
    }

    /// A page's label, counted from one.
    pub fn page_label(&self, index: usize) -> (r: String)
        ensures
            r@ == text::replaced(
                strings::entry("ui.pdf_import.page"@),
                "{n}"@,
                text::decimal((index + 1) as nat),
            ),
    {
        proof {
            reveal_strlit("{n}");
        }
        text::replace(
            strings::tr("ui.pdf_import.page"),
            "{n}",
            text::decimal_of(index as u128 + 1).as_str(),
        )
    }

    /// The line that says what size the first chosen page opens at.
    pub fn size_caption(&self) -> (r: Option<String>)
        requires
            self.wf(),
        ensures
            match r {
                Some(line) => self@.chosen().len() > 0 && line@ == {
                    let first = self@.chosen()[0];
                    let page = self@.pages[first as int];
                    text::replaced(
                        text::replaced(
                            text::replaced(
                                strings::entry("ui.pdf_import.size"@),
                                "{page}"@,
                                text::decimal((first + 1) as nat),
                            ),
                            "{w}"@,
                            text::decimal(side_px(page.width_pt, self@.dpi) as nat),
                        ),
                        "{h}"@,
                        text::decimal(side_px(page.height_pt, self@.dpi) as nat),
                    )
                },
                None => self@.chosen().len() == 0,
            },
    {
        let chosen = self.chosen();
        if chosen.len() == 0 {
            return None;
        }
        proof {
            lemma_chosen(self@.selected, self@.selected.len());
            assert(self@.chosen()[0] < self@.selected.len());
        }
        let first = chosen[0];
        match self.pixel_size(first) {
            Some((w, h)) => {
                proof {
                    reveal_strlit("{page}");
                    reveal_strlit("{w}");
                    reveal_strlit("{h}");
                }
                let paged = text::replace(
                    strings::tr("ui.pdf_import.size"),
                    "{page}",
                    text::decimal_of(first as u128 + 1).as_str(),
                );
                let wide = text::replace(
                    paged.as_str(),
                    "{w}",
                    text::decimal_of(w as u128).as_str(),
                );
                Some(text::replace(wide.as_str(), "{h}", text::decimal_of(h as u128).as_str()))
            },
            None => None,
        }
    }

    /// The line that says only the first pages are listed, when more exist.
    pub fn listed_caption(&self) -> (r: Option<String>)
        requires
            self.wf(),
        ensures
            match r {
                Some(line) => self@.total > self@.pages.len() && line@ == text::replaced(
                    text::replaced(
                        strings::entry("ui.pdf_import.listed"@),
                        "{shown}"@,
                        text::decimal(self@.pages.len()),
                    ),
                    "{n}"@,
                    text::decimal(self@.total as nat),
                ),
                None => self@.total == self@.pages.len(),
            },
    {
        if self.total <= self.pages.len() {
            return None;
        }
        proof {
            reveal_strlit("{shown}");
            reveal_strlit("{n}");
        }
        let shown = text::replace(
            strings::tr("ui.pdf_import.listed"),
            "{shown}",
            text::decimal_of(self.pages.len() as u128).as_str(),
        );
        Some(text::replace(shown.as_str(), "{n}", text::decimal_of(self.total as u128).as_str()))
    }

    pub fn page_count(&self) -> (r: usize)
        ensures
            r == self@.pages.len(),
    {
        self.pages.len()
    }

    /// The pages, as they are listed.
    pub fn pages(&self) -> (r: &Vec<PdfPageThumb>)
        ensures
            r@ == self@.pages,
    {
        &self.pages
    }

    pub fn is_selected(&self, index: usize) -> (r: bool)
        ensures
            r == (index < self@.selected.len() && self@.selected[index as int]),
    {
        index < self.selected.len() && self.selected[index]
    }

    /// Choose or drop page `index` (ignored past the list).
    pub fn select(&mut self, index: usize, on: bool)
        requires
            old(self).wf(),
        ensures
            final(self).wf(),
            final(self)@ == old(self)@.with(index as int, on),
    {
        if index < self.selected.len() {
            self.selected.set(index, on);
        }
    }

    /// A click on a page's thumbnail: the page is chosen, or dropped.
    pub fn toggle(&mut self, index: usize)
        requires
            old(self).wf(),
            index < old(self)@.pages.len(),
        ensures
            final(self).wf(),
            final(self)@ == old(self)@.with(index as int, !old(self)@.selected[index as int]),
    {
        let on = self.selected[index];
        self.select(index, !on);
    }

    pub fn select_all(&mut self, on: bool)
        requires
            old(self).wf(),
        ensures
            final(self).wf(),
            final(self)@ == old(self)@.with_all(on),
    {
        let n: usize = self.selected.len();
        let mut i: usize = 0;
        while i < n
            invariant
                i <= n,
                n == self.selected@.len(),
                self@ == (PdfImportModel { selected: self.selected@, ..old(self)@ }),
                forall|k: int| 0 <= k < i ==> #[trigger] self.selected@[k] == on,
            decreases n - i,
        {
            self.selected.set(i, on);
            i = i + 1;
        }
        assert(self@.selected == old(self)@.with_all(on).selected);
    }

    pub fn dpi(&self) -> (r: u32)
        ensures
            r == self@.dpi,
    {
        self.dpi
    }

    /// Set the resolution. Not clamped: an out-of-range value blocks the
    /// primary action with a reason.
    pub fn set_dpi(&mut self, dpi: u32)
        requires
            old(self).wf(),
        ensures
            final(self).wf(),
            final(self)@ == (PdfImportModel { dpi, ..old(self)@ }),
    {
        self.dpi = dpi;
    }

    /// Type a resolution, clamped to what a page can be rendered at.
    pub fn type_dpi(&mut self, dpi: i64)
        requires
            old(self).wf(),
        ensures
            final(self).wf(),
            final(self)@ == (PdfImportModel {
                dpi: if dpi < MIN_DPI {
                    MIN_DPI
                } else if dpi > MAX_DPI {
                    MAX_DPI
                } else {
                    dpi as u32
                },
                ..old(self)@
            }),
    {
        self.dpi = if dpi < MIN_DPI as i64 {
            MIN_DPI
        } else if dpi > MAX_DPI as i64 {
            MAX_DPI
        } else {
            dpi as u32
        };
    }

    pub fn mode(&self) -> (r: PdfOpenMode)
        ensures
            r == self@.mode,
    {
        self.mode
    }

    pub fn set_mode(&mut self, mode: PdfOpenMode)
        requires
            old(self).wf(),
        ensures
            final(self).wf(),
            final(self)@ == (PdfImportModel { mode, ..old(self)@ }),
    {
        self.mode = mode;
    }

    /// Page `index` in pixels at the chosen resolution.
    pub fn pixel_size(&self, index: usize) -> (r: Option<(u32, u32)>)
        ensures
            r == if index < self@.pages.len() {
                let page = self@.pages[index as int];
                Some((side_px(page.width_pt, self@.dpi), side_px(page.height_pt, self@.dpi)))
            } else {
                None
            },
    {
        if index >= self.pages.len() {
            return None;
        }
        let scale = Real32::from_u64(self.dpi as u64).over(Real32 { bits: 0x4290_0000 });
        Some(
            (
                self.pages[index].width_pt.times(scale).to_u32(),
                self.pages[index].height_pt.times(scale).to_u32(),
            ),
        )
    }

    /// The places of the chosen pages, in file order.
    pub fn chosen(&self) -> (r: Vec<usize>)
        ensures
            r@ == self@.chosen(),
    {
        let mut out: Vec<usize> = Vec::new();
        let mut i: usize = 0;
        while i < self.selected.len()
            invariant
                i <= self.selected@.len(),
                out@ == chosen_of(self@.selected, i as nat),
            decreases self.selected@.len() - i,
        {
            if self.selected[i] {
                out.push(i);
            }
            i = i + 1;
        }
        out
    }

    /// Why the primary action is unavailable, or `None` when it is live.
    pub fn blocked_reason(&self) -> (r: Option<String>)
        ensures
            match r {
                Some(reason) => self@.blocked() == Some(reason@),
                None => self@.blocked() is None,
            },
    {
        if self.chosen().len() == 0 {
            return Some(text::copied(strings::tr("ui.pdf_import.none")));
        }
        if !(MIN_DPI <= self.dpi && self.dpi <= MAX_DPI) {
            proof {
                reveal_strlit("{min}");
                reveal_strlit("{max}");
            }
            let low = text::replace(
                strings::tr("ui.pdf_import.dpi_range"),
                "{min}",
                text::decimal_of(MIN_DPI as u128).as_str(),
            );
            return Some(
                text::replace(low.as_str(), "{max}", text::decimal_of(MAX_DPI as u128).as_str()),
            );
        }
        None
    }

    /// The import a confirmation asks for, or `None` while blocked.
    pub fn confirm(&self) -> (r: Option<PdfImportSpec>)
        ensures
            chrome::request_view(r) == self@.confirmation(),
    {
        if self.blocked_reason().is_some() {
            return None;
        }
        Some(PdfImportSpec { pages: self.chosen(), dpi: self.dpi, mode: self.mode })
    }

    /// Escape and Enter; Escape wins over Enter.
    pub fn resolve(&self, keys: DialogKeys) -> (r: DialogOutcome<PdfImportSpec>)
        ensures
            r@ == chrome::settled(keys, self@.confirmation()),
    {
        chrome::settle(keys, self.confirm())
    }

    /// Fold the keyboard and the action row into one outcome. The row's two
    /// extra buttons choose every page and none.
    pub fn frame(&mut self, keys: DialogKeys, button: Option<DialogButton>) -> (r: DialogOutcome<
        PdfImportSpec,
    >)
        requires
            old(self).wf(),
        ensures
            final(self).wf(),
            final(self)@ == match button {
                Some(DialogButton::Extra(i)) => old(self)@.with_all(i == 0),
                _ => old(self)@,
            },
            r@ == match (button, old(self)@.confirmation()) {
                (Some(DialogButton::Cancel), _) => DialogOutcome::Cancelled,
                (Some(DialogButton::Confirm), Some(spec)) => DialogOutcome::Confirmed(spec),
                _ => chrome::settled(keys, old(self)@.confirmation()),
            },
    {
        let out = self.resolve(keys);
        match button {
            Some(DialogButton::Cancel) => DialogOutcome::Cancelled,
            Some(DialogButton::Confirm) => match self.confirm() {
                Some(spec) => DialogOutcome::Confirmed(spec),
                None => out,
            },
            Some(DialogButton::Extra(i)) => {
                self.select_all(i == 0);
                out
            },
            None => out,
        }
    }
}

} // verus!
