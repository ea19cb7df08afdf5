//! File > Automate > Resize Images and Generate Mockups.
//!
//! Both read every image in a source folder and write one file per image into
//! a destination folder, so they ask the same two questions; Resize Images also
//! asks for the box each image is fitted into. The dialog raises
//! [`FolderJobDialog::take_folder_request`] and the host answers with
//! [`FolderJobDialog::set_folder`].

use super::batch::BatchFolder;
use super::chrome;
use super::chrome::{DialogButton, DialogKeys, DialogOutcome};
use crate::ieee::Real64;
use crate::paths;
use crate::rounding;
use crate::strings;
use crate::text;
use vstd::prelude::*;

verus! {

/// Which File > Automate command the dialog asks for.
#[derive(Clone, Copy, PartialEq, Eq, Structural, Hash, Debug)]
pub enum FolderJob {
    /// Every image fitted into a box and written again.
    ResizeImages,
    /// The active smart object's contents replaced by each image, the
    /// document exported once per image.
    GenerateMockups,
}

/// What the dialog confirms.
#[derive(Debug)]
pub struct FolderJobSpec {
    pub job: FolderJob,
    pub source: String,
    pub destination: String,
    /// Resize Images: the box each image is fitted into, aspect kept.
    pub max_width: u32,
    pub max_height: u32,
    /// Resize Images: also scale up images smaller than the box.
    pub enlarge: bool,
}

/// What a [`FolderJobSpec`] stands for.
#[verifier::ext_equal]
pub struct FolderJobRequest {
    pub job: FolderJob,
    pub source: Seq<char>,
    pub destination: Seq<char>,
    pub max_width: u32,
    pub max_height: u32,
    pub enlarge: bool,
}

impl FolderJobRequest {
    /// The same job over the same folders, however their paths are spelled.
    pub open spec fn same(self, other: FolderJobRequest) -> bool {
        &&& self.job == other.job
        &&& paths::same_folder(self.source, other.source)
        &&& paths::same_folder(self.destination, other.destination)
        &&& self.max_width == other.max_width
        &&& self.max_height == other.max_height
        &&& self.enlarge == other.enlarge
    }
}

impl View for FolderJobSpec {
    type V = FolderJobRequest;

    open spec fn view(&self) -> FolderJobRequest {
        FolderJobRequest {
            job: self.job,
            source: self.source@,
            destination: self.destination@,
            max_width: self.max_width,
            max_height: self.max_height,
            enlarge: self.enlarge,
        }
    }
}

impl Clone for FolderJobSpec {
    fn clone(&self) -> (r: Self)
        ensures
            r@ == self@,
    {
        FolderJobSpec {
            job: self.job,
            source: text::copied(self.source.as_str()),
            destination: text::copied(self.destination.as_str()),
            max_width: self.max_width,
            max_height: self.max_height,
            enlarge: self.enlarge,
        }
    }
}

impl PartialEq for FolderJobSpec {
    fn eq(&self, other: &FolderJobSpec) -> (r: bool) {
        self.job == other.job && paths::folders_agree(self.source.as_str(), other.source.as_str())
            && paths::folders_agree(self.destination.as_str(), other.destination.as_str())
            && self.max_width == other.max_width && self.max_height == other.max_height
            && self.enlarge == other.enlarge
    }
}

impl vstd::std_specs::cmp::PartialEqSpecImpl for FolderJobSpec {
    open spec fn obeys_eq_spec() -> bool {
        true
    }

    open spec fn eq_spec(&self, other: &FolderJobSpec) -> bool {
        self@.same(other@)
    }
}

/// What a [`FolderJobDialog`] stands for.
#[verifier::ext_equal]
pub struct FolderJobModel {
    pub spec: FolderJobRequest,
    pub source_text: Seq<char>,
    pub destination_text: Seq<char>,
    pub folder_request: Option<BatchFolder>,
}

impl FolderJobModel {
    /// Why OK is unavailable: a folder is missing, or the two paths name one
    /// folder, and the results would land on their own sources.
    pub open spec fn blocked(self) -> Option<Seq<char>> {
        if self.spec.source.len() == 0 || self.spec.destination.len() == 0 {
            Some(strings::entry("ui.folder_job.need_folders"@))
        } else if paths::same_folder(self.spec.source, self.spec.destination) {
            Some(strings::entry("ui.folder_job.same_folder"@))
        } else {
            None
        }
    }

    /// What OK hands over.
    pub open spec fn confirmation(self) -> Option<FolderJobRequest> {
        if self.blocked() is None {
            Some(self.spec)
        } else {
            None
        }
    }

    /// A folder set, with the text that shows it.
    pub open spec fn with_folder(
        self,
        field: BatchFolder,
        path: Seq<char>,
        shown: Seq<char>,
    ) -> FolderJobModel {
        match field {
            BatchFolder::Source => FolderJobModel {
                spec: FolderJobRequest { source: path, ..self.spec },
                source_text: shown,
                ..self
            },
            BatchFolder::Destination => FolderJobModel {
                spec: FolderJobRequest { destination: path, ..self.spec },
                destination_text: shown,
                ..self
            },
        }
    }
}

/// The dialog.
#[derive(Debug)]
pub struct FolderJobDialog {
    spec: FolderJobSpec,
    source_text: String,
    destination_text: String,
    folder_request: Option<BatchFolder>,
}

/// The largest box side the dialog accepts.
pub const MAX_SIDE: i64 = 30_000;

impl View for FolderJobDialog {
    type V = FolderJobModel;

    closed spec fn view(&self) -> FolderJobModel {
        FolderJobModel {
            spec: self.spec@,
            source_text: self.source_text@,
            destination_text: self.destination_text@,
            folder_request: self.folder_request,
        }
    }
}

impl PartialEq for FolderJobDialog {
    fn eq(&self, other: &FolderJobDialog) -> (r: bool) {
        self.spec == other.spec && text::same(
            self.source_text.as_str(),
            other.source_text.as_str(),
        ) && text::same(self.destination_text.as_str(), other.destination_text.as_str())
            && self.folder_request == other.folder_request
    }
}

impl vstd::std_specs::cmp::PartialEqSpecImpl for FolderJobDialog {
    open spec fn obeys_eq_spec() -> bool {
        true
    }

    open spec fn eq_spec(&self, other: &FolderJobDialog) -> bool {
        &&& self@.spec.same(other@.spec)
        &&& self@.source_text == other@.source_text
        &&& self@.destination_text == other@.destination_text
        &&& self@.folder_request == other@.folder_request
    }
}

/// At least one.
pub open spec fn at_least_one(n: u32) -> u32 {
    if n == 0 {
        1
    } else {
        n
    }
}

fn positive(n: u32) -> (r: u32)
    ensures
        r == at_least_one(n),
        r >= 1,
{
    if n == 0 {
        1
    } else {
        n
    }
}

impl FolderJobDialog {
    pub fn new(job: FolderJob) -> (r: Self)
        ensures
            r@ == (FolderJobModel {
                spec: FolderJobRequest {
                    job,
                    source: Seq::empty(),
                    destination: Seq::empty(),
                    max_width: 1024,
                    max_height: 1024,
                    enlarge: false,
                },
                source_text: Seq::empty(),
                destination_text: Seq::empty(),
                folder_request: None,
            }),
    {
        FolderJobDialog {
            spec: FolderJobSpec {
                job,
                source: String::new(),
                destination: String::new(),
                max_width: 1024,
                max_height: 1024,
                enlarge: false,
            },
            source_text: String::new(),
            destination_text: String::new(),
            folder_request: None,
        }
    }

    pub fn spec(&self) -> (r: &FolderJobSpec)
        ensures
            r@ == self@.spec,
    {
        &self.spec
    }

    /// The fitting box.
    pub fn set_box(&mut self, width: u32, height: u32)
        ensures
            final(self)@ == (FolderJobModel {
                spec: FolderJobRequest {
                    max_width: at_least_one(width),
                    max_height: at_least_one(height),
                    ..old(self)@.spec
                },
                ..old(self)@
            }),
    {
        self.spec.max_width = positive(width);
        self.spec.max_height = positive(height);
    }

    /// Whether smaller images are scaled up.
    pub fn set_enlarge(&mut self, enlarge: bool)
        ensures
            final(self)@ == (FolderJobModel {
                spec: FolderJobRequest { enlarge, ..old(self)@.spec },
                ..old(self)@
            }),
    {
        self.spec.enlarge = enlarge;
    }

    /// Answer a folder request (or fill a field directly).
    pub fn set_folder(&mut self, field: BatchFolder, path: String)
        ensures
            final(self)@ == old(self)@.with_folder(field, path@, path@),
    {
        let shown = text::copied(path.as_str());
        match field {
            BatchFolder::Source => {
                self.spec.source = path;
                self.source_text = shown;
            },
            BatchFolder::Destination => {
                self.spec.destination = path;
                self.destination_text = shown;
            },
        }
    }

    /// A folder typed into its field: the path is what was typed without
    /// surrounding white space.
    pub fn type_folder(&mut self, field: BatchFolder, typed: String)
        ensures
            final(self)@ == old(self)@.with_folder(field, text::trimmed(typed@), typed@),
    {
        let path = text::trim(typed.as_str());
        match field {
            BatchFolder::Source => {
                self.spec.source = path;
                self.source_text = typed;
            },
            BatchFolder::Destination => {
                self.spec.destination = path;
                self.destination_text = typed;
            },
        }
    }

    /// The text of a folder field.
    pub fn folder_text(&self, field: BatchFolder) -> (r: &str)
        ensures
            r@ == match field {
                BatchFolder::Source => self@.source_text,
                BatchFolder::Destination => self@.destination_text,
            },
    {
        match field {
            BatchFolder::Source => self.source_text.as_str(),
            BatchFolder::Destination => self.destination_text.as_str(),
        }
    }

    /// The Choose button of a folder field was pressed.
    pub fn ask_for_folder(&mut self, field: BatchFolder)
        ensures
            final(self)@ == (FolderJobModel { folder_request: Some(field), ..old(self)@ }),
    {
        self.folder_request = Some(field);
    }

    /// The folder field whose Choose button was pressed, once.
    pub fn take_folder_request(&mut self) -> (r: Option<BatchFolder>)
        ensures
            r == old(self)@.folder_request,
            final(self)@ == (FolderJobModel { folder_request: None, ..old(self)@ }),
    {
        let request = self.folder_request;
        self.folder_request = None;
        request
    }

    pub fn title(&self) -> (r: &'static str)
        ensures
            r@ == match self@.spec.job {
                FolderJob::ResizeImages => strings::entry("ui.folder_job.resize.title"@),
                FolderJob::GenerateMockups => strings::entry("ui.folder_job.mockups.title"@),
            },
    {
        match self.spec.job {
            FolderJob::ResizeImages => strings::tr("ui.folder_job.resize.title"),
            FolderJob::GenerateMockups => strings::tr("ui.folder_job.mockups.title"),
        }
    }

    /// Why OK is unavailable, or `None` when it is live.
    pub fn blocked_reason(&self) -> (r: Option<&'static str>)
        ensures
            match r {
                Some(reason) => self@.blocked() == Some(reason@),
                None => self@.blocked() is None,
            },
    {
        if self.spec.source.as_str().is_empty() || self.spec.destination.as_str().is_empty() {
            return Some(strings::tr("ui.folder_job.need_folders"));
        }
        if paths::folders_agree(self.spec.source.as_str(), self.spec.destination.as_str()) {
            return Some(strings::tr("ui.folder_job.same_folder"));
        }
        None
    }

    /// The spec OK hands over, when both folders are set and differ.
    pub fn confirm(&self) -> (r: Option<FolderJobSpec>)
        ensures
            chrome::request_view(r) == self@.confirmation(),
    {
        if self.blocked_reason().is_some() {
            None
        } else {
            Some(self.spec.clone())
        }
    }

    /// Escape and Enter.
    pub fn resolve(&self, keys: DialogKeys) -> (r: DialogOutcome<FolderJobSpec>)
        ensures
            r@ == chrome::settled(keys, self@.confirmation()),
    {
        chrome::settle(keys, self.confirm())
    }

    /// A button of the action row.
    pub fn press(&self, button: DialogButton) -> (r: DialogOutcome<FolderJobSpec>)
        ensures
            r@ == chrome::pressed(button, self@.confirmation()),
    {
        chrome::press(button, self.confirm())
    }
}

/// The smaller of two numbers.
pub open spec fn lesser(a: Real64, b: Real64) -> Real64 {
    if b.below(a) {
        b
    } else {
        a
    }
}

fn smaller(a: Real64, b: Real64) -> (r: Real64)
    ensures
        r == lesser(a, b),
{
    if b.is_below(a) {
        b
    } else {
        a
    }
}

/// The factor an image is scaled by: the smaller of the two ratios of box to
/// image, and no more than one unless smaller images are enlarged.
pub open spec fn fitting_factor(
    width: u32,
    height: u32,
    max_width: u32,
    max_height: u32,
    enlarge: bool,
) -> Real64 {
    let both = lesser(
        Real64::of_whole(at_least_one(max_width) as nat).over_spec(
            Real64::of_whole(at_least_one(width) as nat),
        ),
        Real64::of_whole(at_least_one(max_height) as nat).over_spec(
            Real64::of_whole(at_least_one(height) as nat),
        ),
    );
    if enlarge {
        both
    } else {
        lesser(both, Real64 { bits: 0x3ff0_0000_0000_0000 })
    }
}

/// A side at a factor: the nearest whole number, at least one.
pub open spec fn fitted_side(side: u32, factor: Real64) -> u32 {
    at_least_one(
        rounding::truncated(
            Real64::of_whole(at_least_one(side) as nat).times_spec(factor).rounded_spec().number(),
            u32::MAX as nat,
        ) as u32,
    )
}

/// The size an image of `width x height` is written at when fitted into
/// `max_width x max_height` with its aspect kept; smaller images keep their
/// size unless `enlarge`.
pub fn fitted_size(
    width: u32,
    height: u32,
    max_width: u32,
    max_height: u32,
    enlarge: bool,
) -> (r: (u32, u32))
    ensures
        r.0 == fitted_side(width, fitting_factor(width, height, max_width, max_height, enlarge)),
        r.1 == fitted_side(height, fitting_factor(width, height, max_width, max_height, enlarge)),
        r.0 >= 1,
        r.1 >= 1,
{
    let w = Real64::from_u64(positive(width) as u64);
    let h = Real64::from_u64(positive(height) as u64);
    let across = Real64::from_u64(positive(max_width) as u64).over(w);
    let down = Real64::from_u64(positive(max_height) as u64).over(h);
    let mut factor = smaller(across, down);
    if !enlarge {
        factor = smaller(factor, Real64 { bits: 0x3ff0_0000_0000_0000 });
    }
    (
        positive(w.times(factor).rounded().to_u32()),
        positive(h.times(factor).rounded().to_u32()),
    )
}

} // verus!
