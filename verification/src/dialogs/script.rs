//! File ▸ Script: a code box, a Run button and an output log.
//!
//! The window holds the text being edited and the lines a run printed, and
//! reports what the user pressed. It runs nothing itself: the shell owns the
//! engine and hands the lines back with [`ScriptDialog::push_log`].
//!
//! Enter is a newline here, not a confirm: the box is a code editor. Run is the
//! button (or Ctrl+Enter); Escape closes.

use crate::text;
use vstd::prelude::*;

verus! {

/// What kind of line a run printed.
#[derive(Clone, Copy, PartialEq, Eq, Structural, Debug)]
pub enum ScriptLogKind {
    /// What the script wrote.
    Output,
    /// What the script showed in an alert.
    Alert,
    /// A syntax error, an uncaught exception, a budget stop.
    Error,
    /// What the runner itself says.
    Info,
}

/// One line of the log.
#[derive(Clone, PartialEq, Eq, Debug)]
pub struct ScriptLogLine {
    pub kind: ScriptLogKind,
    pub text: String,
}

/// What a [`ScriptLogLine`] stands for.
#[verifier::ext_equal]
pub struct LogLineModel {
    pub kind: ScriptLogKind,
    pub text: Seq<char>,
}

impl View for ScriptLogLine {
    type V = LogLineModel;

    open spec fn view(&self) -> LogLineModel {
        LogLineModel { kind: self.kind, text: self.text@ }
    }
}

/// A script with its name, as the demos and the saved scripts are listed.
#[derive(Clone, PartialEq, Eq, Debug)]
pub struct NamedScript {
    pub name: String,
    pub source: String,
}

/// What a [`NamedScript`] stands for.
#[verifier::ext_equal]
pub struct NamedModel {
    pub name: Seq<char>,
    pub source: Seq<char>,
}

impl View for NamedScript {
    type V = NamedModel;

    open spec fn view(&self) -> NamedModel {
        NamedModel { name: self.name@, source: self.source@ }
    }
}

/// What one frame of the window did.
#[derive(Clone, PartialEq, Eq, Debug)]
pub enum ScriptOutcome {
    /// Still open; nothing pressed.
    Open,
    /// Run was pressed (or Ctrl+Enter) over this source.
    Run(String),
    /// Close (or Escape).
    Closed,
    /// Save pressed: keep `source` under `name` in the saved list.
    Save { name: String, source: String },
    /// A saved script's delete button.
    Delete(String),
}

/// What a [`ScriptOutcome`] stands for.
#[verifier::ext_equal]
pub enum OutcomeModel {
    Open,
    Run(Seq<char>),
    Closed,
    Save { name: Seq<char>, source: Seq<char> },
    Delete(Seq<char>),
}

impl View for ScriptOutcome {
    type V = OutcomeModel;

    open spec fn view(&self) -> OutcomeModel {
        match self {
            ScriptOutcome::Open => OutcomeModel::Open,
            ScriptOutcome::Run(source) => OutcomeModel::Run(source@),
            ScriptOutcome::Closed => OutcomeModel::Closed,
            ScriptOutcome::Save { name, source } => OutcomeModel::Save {
                name: name@,
                source: source@,
            },
            ScriptOutcome::Delete(name) => OutcomeModel::Delete(name@),
        }
    }
}

/// A button of the window.
#[derive(Clone, Copy, PartialEq, Eq, Structural, Debug)]
pub enum Pressed {
    Run,
    Close,
    Clear,
    Save,
    Delete(usize),
}

/// What a [`ScriptDialog`] stands for.
#[verifier::ext_equal]
pub struct ScriptModel {
    pub source: Seq<char>,
    pub log: Seq<LogLineModel>,
    /// A sentence under the title: the shell's statement of what a script may
    /// touch.
    pub note: Seq<char>,
    /// The demos listed at the top; a click loads one into the code box.
    pub demos: Seq<NamedModel>,
    /// The saved scripts listed at the bottom; a click loads one.
    pub saved: Seq<NamedModel>,
    /// The name Save keeps the source under.
    pub save_name: Seq<char>,
}

/// A log with one more line; older lines drop off the top.
pub open spec fn logged(log: Seq<LogLineModel>, line: LogLineModel) -> Seq<LogLineModel> {
    let all = log.push(line);
    if all.len() > ScriptDialog::MAX_LOG_LINES {
        all.skip(all.len() - ScriptDialog::MAX_LOG_LINES)
    } else {
        all
    }
}

impl ScriptModel {
    /// What a frame comes to. Escape closes; Ctrl+Enter runs.
    pub open spec fn outcome(
        self,
        escape: bool,
        ctrl_enter: bool,
        pressed: Option<Pressed>,
    ) -> OutcomeModel {
        if escape {
            OutcomeModel::Closed
        } else if ctrl_enter || pressed == Some(Pressed::Run) {
            OutcomeModel::Run(self.source)
        } else {
            match pressed {
                Some(Pressed::Close) => OutcomeModel::Closed,
                Some(Pressed::Save) => OutcomeModel::Save {
                    name: text::trimmed(self.save_name),
                    source: self.source,
                },
                Some(Pressed::Delete(i)) => if i < self.saved.len() {
                    OutcomeModel::Delete(self.saved[i as int].name)
                } else {
                    OutcomeModel::Open
                },
                _ => OutcomeModel::Open,
            }
        }
    }

    /// A listed script put into the code box, under its own name.
    pub open spec fn loaded(self, script: NamedModel) -> ScriptModel {
        ScriptModel { source: script.source, save_name: script.name, ..self }
    }
}

/// The log holds its newest lines: a new line is always the last, and what was
/// there stays in order, the oldest line leaving when the log is full.
pub proof fn the_log_keeps_its_newest_lines(log: Seq<LogLineModel>, line: LogLineModel)
    requires
        log.len() <= ScriptDialog::MAX_LOG_LINES,
    ensures
        logged(log, line).len() <= ScriptDialog::MAX_LOG_LINES,
        logged(log, line).last() == line,
        log.len() < ScriptDialog::MAX_LOG_LINES ==> logged(log, line) == log.push(line),
        log.len() == ScriptDialog::MAX_LOG_LINES ==> logged(log, line) == log.skip(1).push(line),
{
}

/// The scripts a list stands for.
pub open spec fn scripts_of(list: Seq<NamedScript>) -> Seq<NamedModel> {
    list.map_values(|s: NamedScript| s@)
}

/// The lines a list stands for.
pub open spec fn lines_of(list: Seq<ScriptLogLine>) -> Seq<LogLineModel> {
    list.map_values(|l: ScriptLogLine| l@)
}

/// File ▸ Script.
#[derive(Clone, PartialEq, Debug)]
pub struct ScriptDialog {
    source: String,
    log: Vec<ScriptLogLine>,
    note: String,
    demos: Vec<NamedScript>,
    saved: Vec<NamedScript>,
    save_name: String,
}

impl View for ScriptDialog {
    type V = ScriptModel;

    closed spec fn view(&self) -> ScriptModel {
        ScriptModel {
            source: self.source@,
            log: lines_of(self.log@),
            note: self.note@,
            demos: scripts_of(self.demos@),
            saved: scripts_of(self.saved@),
            save_name: self.save_name@,
        }
    }
}

impl ScriptDialog {
    /// Most log lines kept; older lines drop off the top.
    pub const MAX_LOG_LINES: usize = 500;

    /// The log is within its bound.
    pub open spec fn wf(&self) -> bool {
        self@.log.len() <= ScriptDialog::MAX_LOG_LINES
    }

    /// An empty window carrying `note` under its title.
    pub fn new(note: String) -> (r: Self)
        ensures
            r.wf(),
            r@ == (ScriptModel {
                source: ""@,
                log: Seq::empty(),
                note: note@,
                demos: Seq::empty(),
                saved: Seq::empty(),
                save_name: ""@,
            }),
    {
        let r = ScriptDialog {
            source: text::copied(""),
            log: Vec::new(),
            note,
            demos: Vec::new(),
            saved: Vec::new(),
            save_name: text::copied(""),
        };
        assert(r@.log == Seq::<LogLineModel>::empty());
        assert(r@.demos == Seq::<NamedModel>::empty());
        assert(r@.saved == Seq::<NamedModel>::empty());
        r
    }

    /// The sentence under the title, unless there is none.
    pub fn note(&self) -> (r: Option<&str>)
        ensures
            match r {
                Some(note) => note@ == self@.note && self@.note.len() > 0,
                None => self@.note.len() == 0,
            },
    {
        if self.note.as_str().is_empty() {
            None
        } else {
            Some(self.note.as_str())
        }
    }

    /// The script as typed so far.
    pub fn source(&self) -> (r: &str)
        ensures
            r@ == self@.source,
    {
        self.source.as_str()
    }

    pub fn set_source(&mut self, source: String)
        requires
            old(self).wf(),
        ensures
            final(self).wf(),
            final(self)@ == (ScriptModel { source: source@, ..old(self)@ }),
    {
        self.source = source;
    }

    /// Every line the log holds, oldest first.
    pub fn log(&self) -> (r: &Vec<ScriptLogLine>)
        ensures
            lines_of(r@) == self@.log,
    {
        &self.log
    }

    /// Append one line.
    pub fn push_log(&mut self, kind: ScriptLogKind, text: String)
        requires
            old(self).wf(),
        ensures
            final(self).wf(),
            final(self)@ == (ScriptModel {
                log: logged(old(self)@.log, LogLineModel { kind, text: text@ }),
                ..old(self)@
            }),
    {
        let ghost line = LogLineModel { kind, text: text@ };
        let ghost before = self.log@;
        self.log.push(ScriptLogLine { kind, text });
        assert(lines_of(self.log@) == lines_of(before).push(line));
        if self.log.len() > ScriptDialog::MAX_LOG_LINES {
            let ghost full = self.log@;
            let _oldest = self.log.remove(0);
            assert(lines_of(self.log@) == lines_of(full).skip(1));
        }
    }

    pub fn clear_log(&mut self)
        ensures
            final(self).wf(),
            final(self)@ == (ScriptModel { log: Seq::empty(), ..old(self)@ }),
    {
        self.log = Vec::new();
        assert(self@.log == Seq::<LogLineModel>::empty());
    }

    /// The demos the top row lists.
    pub fn set_demos(&mut self, demos: Vec<NamedScript>)
        requires
            old(self).wf(),
        ensures
            final(self).wf(),
            final(self)@ == (ScriptModel { demos: scripts_of(demos@), ..old(self)@ }),
    {
        self.demos = demos;
    }

    pub fn demos(&self) -> (r: &Vec<NamedScript>)
        ensures
            scripts_of(r@) == self@.demos,
    {
        &self.demos
    }

    /// The saved scripts the bottom list shows.
    pub fn set_saved(&mut self, saved: Vec<NamedScript>)
        requires
            old(self).wf(),
        ensures
            final(self).wf(),
            final(self)@ == (ScriptModel { saved: scripts_of(saved@), ..old(self)@ }),
    {
        self.saved = saved;
    }

    pub fn saved(&self) -> (r: &Vec<NamedScript>)
        ensures
            scripts_of(r@) == self@.saved,
    {
        &self.saved
    }

    /// The name Save will use.
    pub fn save_name(&self) -> (r: &str)
        ensures
            r@ == self@.save_name,
    {
        self.save_name.as_str()
    }

    pub fn set_save_name(&mut self, name: String)
        requires
            old(self).wf(),
        ensures
            final(self).wf(),
            final(self)@ == (ScriptModel { save_name: name@, ..old(self)@ }),
    {
        self.save_name = name;
    }

    /// A demo's button: its source goes into the code box.
    pub fn load_demo(&mut self, index: usize)
        requires
            old(self).wf(),
            index < old(self)@.demos.len(),
        ensures
            final(self).wf(),
            final(self)@ == old(self)@.loaded(old(self)@.demos[index as int]),
    {
        assert(self@.demos[index as int] == self.demos@[index as int]@);
        self.source = text::copied(self.demos[index].source.as_str());
        self.save_name = text::copied(self.demos[index].name.as_str());
    }

    /// A saved script's button: its source goes into the code box.
    pub fn load_saved(&mut self, index: usize)
        requires
            old(self).wf(),
            index < old(self)@.saved.len(),
        ensures
            final(self).wf(),
            final(self)@ == old(self)@.loaded(old(self)@.saved[index as int]),
    {
        assert(self@.saved[index as int] == self.saved@[index as int]@);
        self.source = text::copied(self.saved[index].source.as_str());
        self.save_name = text::copied(self.saved[index].name.as_str());
    }

    /// Whether Save is live: it takes a name and a script.
    pub fn can_save(&self) -> (r: bool)
        ensures
            r == (!text::blank(self@.save_name) && !text::blank(self@.source)),
    {
        !text::is_blank(self.save_name.as_str()) && !text::is_blank(self.source.as_str())
    }

    /// Fold the keyboard and the buttons of a frame into one outcome. Clear
    /// empties the log and leaves the window open.
    pub fn frame(&mut self, escape: bool, ctrl_enter: bool, pressed: Option<Pressed>) -> (r:
        ScriptOutcome)
        requires
            old(self).wf(),
        ensures
            final(self).wf(),
            r@ == old(self)@.outcome(escape, ctrl_enter, pressed),
            final(self)@ == if !escape && !ctrl_enter && pressed == Some(Pressed::Clear) {
                ScriptModel { log: Seq::empty(), ..old(self)@ }
            } else {
                old(self)@
            },
    {
        if escape {
            return ScriptOutcome::Closed;
        }
        if ctrl_enter {
            return ScriptOutcome::Run(text::copied(self.source.as_str()));
        }
        match pressed {
            Some(Pressed::Run) => ScriptOutcome::Run(text::copied(self.source.as_str())),
            Some(Pressed::Close) => ScriptOutcome::Closed,
            Some(Pressed::Clear) => {
                self.clear_log();
                ScriptOutcome::Open
            },
            Some(Pressed::Save) => ScriptOutcome::Save {
                name: text::trim(self.save_name.as_str()),
                source: text::copied(self.source.as_str()),
            },
            Some(Pressed::Delete(i)) => {
                if i < self.saved.len() {
                    assert(self@.saved[i as int] == self.saved@[i as int]@);
                    ScriptOutcome::Delete(text::copied(self.saved[i].name.as_str()))
                } else {
                    ScriptOutcome::Open
                }
            },
            None => ScriptOutcome::Open,
        }
    }
}

} // verus!
