//! The transfer engine: a state machine that walks the source tree through
//! the hands of a driver. The engine decides, the driver touches the disk.
//!
//! The driver carries out the action it is handed and reports what came of
//! it as an event; the engine answers each event with the next action, until
//! it hands out `Finish` or `Abort`.

use crate::config::{Config, ConfigView};
use crate::filter::{admits, selects};
use vstd::prelude::*;
use vstd::string::*;

verus! {

/// What a directory entry is.
#[derive(Clone, Copy, Debug, PartialEq, Eq, Structural)]
pub enum EntryKind {
    /// A directory.
    Directory,
    /// A regular file.
    File,
    /// Anything else: a symbolic link, a device, a socket.
    Other,
}

/// What stands at the destination path.
#[derive(Clone, Copy, Debug, PartialEq, Eq, Structural)]
pub enum Found {
    /// Nothing.
    Missing,
    /// A directory.
    Directory,
    /// Something that is not a directory.
    Other,
}

/// Where the engine stands.
#[derive(Clone, Copy, Debug, PartialEq, Eq, Structural)]
pub enum Phase {
    /// Waiting to hear what stands at the destination path.
    Probing,
    /// Waiting for the destination directory to be created.
    Creating,
    /// Waiting for a source directory to be opened for listing.
    Opening,
    /// Waiting for the next entry of the innermost open listing.
    Listing,
    /// Waiting for a file to be copied or moved.
    Transferring,
    /// The run is over.
    Finished,
}

/// Why a run was given up.
#[derive(Clone, Debug, PartialEq, Eq)]
pub enum TransferError {
    /// The destination path exists and is not a directory.
    InvalidDestination { path: String },
    /// The driver could not do what it was asked; `message` is its account.
    Io { message: String },
    /// The driver reported something that the engine was not waiting for.
    Unexpected,
}

/// What a `TransferError` stands for.
pub enum TransferErrorView {
    InvalidDestination { path: Seq<char> },
    Io { message: Seq<char> },
    Unexpected,
}

impl View for TransferError {
    type V = TransferErrorView;

    open spec fn view(&self) -> TransferErrorView {
        match self {
            TransferError::InvalidDestination { path } => TransferErrorView::InvalidDestination {
                path: path@,
            },
            TransferError::Io { message } => TransferErrorView::Io { message: message@ },
            TransferError::Unexpected => TransferErrorView::Unexpected,
        }
    }
}

/// The text that tells the user of an error.
pub open spec fn error_text(error: TransferErrorView) -> Seq<char> {
    match error {
        TransferErrorView::InvalidDestination { path } => "Destination "@ + path
            + " already exists and is not a directory"@,
        TransferErrorView::Io { message } => message,
        TransferErrorView::Unexpected => "The driver reported what was not asked for"@,
    }
}

impl TransferError {
    /// The text that tells the user of the error.
    pub fn message(&self) -> (text: String)
        ensures
            text@ == error_text(self@),
    {
        match self {
            TransferError::InvalidDestination { path } => {
                let mut text = String::from_str("Destination ");
                text.append(path.as_str());
                text.append(" already exists and is not a directory");
                text
            },
            TransferError::Io { message } => message.clone(),
            TransferError::Unexpected => String::from_str(
                "The driver reported what was not asked for",
            ),
        }
    }
}

/// What the driver is asked to do next. A directory of the source tree is
/// given as `dir`, the names of the subdirectories that lead to it from the
/// source directory, outermost first; a file in it by `dir` and its bare
/// `name`. Every file lands in the destination directory itself, under its
/// bare name.
#[derive(Clone, Debug, PartialEq, Eq)]
pub enum Action {
    /// Report what stands at the destination path, with `Event::Found`.
    Probe,
    /// Create the destination directory, whose parent must exist.
    CreateDestination,
    /// Open the given source directory for listing.
    Open { dir: Vec<String> },
    /// Report the next entry of the innermost open listing, or its end.
    Next,
    /// Copy the file to the destination directory; the source stays.
    Copy { dir: Vec<String>, name: String },
    /// Move the file to the destination directory; the source goes.
    Move { dir: Vec<String>, name: String },
    /// Nothing: the run has succeeded.
    Finish,
    /// Nothing: the run is given up.
    Abort { error: TransferError },
}

/// What an `Action` stands for.
pub enum ActionView {
    Probe,
    CreateDestination,
    Open { dir: Seq<Seq<char>> },
    Next,
    Copy { dir: Seq<Seq<char>>, name: Seq<char> },
    Move { dir: Seq<Seq<char>>, name: Seq<char> },
    Finish,
    Abort { error: TransferErrorView },
}

/// The character sequences of a list of strings.
pub open spec fn texts(names: Seq<String>) -> Seq<Seq<char>> {
    Seq::new(names.len(), |i: int| names[i]@)
}

impl View for Action {
    type V = ActionView;

    open spec fn view(&self) -> ActionView {
        match self {
            Action::Probe => ActionView::Probe,
            Action::CreateDestination => ActionView::CreateDestination,
            Action::Open { dir } => ActionView::Open { dir: texts(dir@) },
            Action::Next => ActionView::Next,
            Action::Copy { dir, name } => ActionView::Copy { dir: texts(dir@), name: name@ },
            Action::Move { dir, name } => ActionView::Move { dir: texts(dir@), name: name@ },
            Action::Finish => ActionView::Finish,
            Action::Abort { error } => ActionView::Abort { error: error@ },
        }
    }
}

/// What the driver reports.
#[derive(Clone, Debug, PartialEq, Eq)]
pub enum Event {
    /// Answer to `Probe`.
    Found { what: Found },
    /// The directory was created or opened, the file copied or moved.
    Done,
    /// Answer to `Next`: an entry of the innermost open listing.
    Entry { name: String, kind: EntryKind },
    /// Answer to `Next`: the innermost open listing is exhausted and closed.
    End,
    /// The action failed; `message` describes the failure.
    Failed { message: String },
}

/// What an `Event` stands for.
pub enum EventView {
    Found { what: Found },
    Done,
    Entry { name: Seq<char>, kind: EntryKind },
    End,
    Failed { message: Seq<char> },
}

impl View for Event {
    type V = EventView;

    open spec fn view(&self) -> EventView {
        match self {
            Event::Found { what } => EventView::Found { what: *what },
            Event::Done => EventView::Done,
            Event::Entry { name, kind } => EventView::Entry { name: name@, kind: *kind },
            Event::End => EventView::End,
            Event::Failed { message } => EventView::Failed { message: message@ },
        }
    }
}

/// What a `Walker` stands for.
pub struct WalkerView {
    /// The configuration of the run.
    pub config: ConfigView,
    /// Whether files are copied (`true`) or moved (`false`).
    pub copy: bool,
    /// Where the engine stands.
    pub phase: Phase,
    /// The subdirectories that lead from the source directory to the
    /// innermost open listing, outermost first.
    pub trail: Seq<Seq<char>>,
}

/// The state of one transfer run.
#[derive(Debug)]
pub struct Walker {
    config: Config,
    copy: bool,
    phase: Phase,
    trail: Vec<String>,
}

impl View for Walker {
    type V = WalkerView;

    closed spec fn view(&self) -> WalkerView {
        WalkerView {
            config: self.config@,
            copy: self.copy,
            phase: self.phase,
            trail: texts(self.trail@),
        }
    }
}

/// The state in which a run starts: nothing is open, and the engine waits
/// to hear what stands at the destination path.
pub open spec fn initial(config: ConfigView, copy: bool) -> WalkerView {
    WalkerView { config, copy, phase: Phase::Probing, trail: Seq::empty() }
}

/// The state after a failure, and the action that reports it.
pub open spec fn give_up(s: WalkerView, error: TransferErrorView) -> (WalkerView, ActionView) {
    (WalkerView { phase: Phase::Finished, ..s }, ActionView::Abort { error })
}

/// The answer to an event that is not dealt with in the phase's own way: a
/// failure ends the run with its message, anything else was not waited for.
pub open spec fn otherwise(s: WalkerView, e: EventView) -> (WalkerView, ActionView) {
    match e {
        EventView::Failed { message } => give_up(s, TransferErrorView::Io { message }),
        _ => give_up(s, TransferErrorView::Unexpected),
    }
}

/// The action that transfers the file `name` of the innermost open listing.
pub open spec fn transfer_of(s: WalkerView, name: Seq<char>) -> ActionView {
    if s.copy {
        ActionView::Copy { dir: s.trail, name }
    } else {
        ActionView::Move { dir: s.trail, name }
    }
}

/// The engine's rule: the state and the action that follow from a state and
/// an event.
pub open spec fn advance(s: WalkerView, e: EventView) -> (WalkerView, ActionView) {
    match s.phase {
        Phase::Probing => match e {
            EventView::Found { what: Found::Missing } => (
                WalkerView { phase: Phase::Creating, ..s },
                ActionView::CreateDestination,
            ),
            EventView::Found { what: Found::Directory } => (
                WalkerView { phase: Phase::Opening, ..s },
                ActionView::Open { dir: s.trail },
            ),
            EventView::Found { what: Found::Other } => give_up(
                s,
                TransferErrorView::InvalidDestination { path: s.config.destination },
            ),
            _ => otherwise(s, e),
        },
        Phase::Creating => match e {
            EventView::Done => (
                WalkerView { phase: Phase::Opening, ..s },
                ActionView::Open { dir: s.trail },
            ),
            _ => otherwise(s, e),
        },
        Phase::Opening => match e {
            EventView::Done => (WalkerView { phase: Phase::Listing, ..s }, ActionView::Next),
            _ => otherwise(s, e),
        },
        Phase::Listing => match e {
            EventView::Entry { name, kind: EntryKind::Directory } => if s.config.recursive {
                (
                    WalkerView { phase: Phase::Opening, trail: s.trail.push(name), ..s },
                    ActionView::Open { dir: s.trail.push(name) },
                )
            } else {
                (s, ActionView::Next)
            },
            EventView::Entry { name, kind: EntryKind::File } => if admits(
                s.config.extensions,
                name,
            ) {
                (WalkerView { phase: Phase::Transferring, ..s }, transfer_of(s, name))
            } else {
                (s, ActionView::Next)
            },
            EventView::Entry { name, kind: EntryKind::Other } => (s, ActionView::Next),
            EventView::End => if s.trail.len() == 0 {
                (WalkerView { phase: Phase::Finished, ..s }, ActionView::Finish)
            } else {
                (WalkerView { trail: s.trail.drop_last(), ..s }, ActionView::Next)
            },
            _ => otherwise(s, e),
        },
        Phase::Transferring => match e {
            EventView::Done => (WalkerView { phase: Phase::Listing, ..s }, ActionView::Next),
            _ => otherwise(s, e),
        },
        Phase::Finished => give_up(s, TransferErrorView::Unexpected),
    }
}

/// A copy of a list of names.
fn copy_names(names: &Vec<String>) -> (copy: Vec<String>)
    ensures
        texts(copy@) == texts(names@),
{
    let mut copy: Vec<String> = Vec::new();
    let mut i: usize = 0;
    while i < names.len()
        invariant
            i <= names.len(),
            copy@.len() == i,
            forall|j: int| 0 <= j < i ==> #[trigger] copy@[j]@ == names@[j]@,
        decreases names.len() - i,
    {
        copy.push(names[i].clone());
        i = i + 1;
    }
    assert(texts(copy@) =~= texts(names@));
    copy
}

/// Starts a run: the engine for `config`, copying if `cp` holds and moving
/// otherwise, together with its first action, which is `Probe`.
pub fn run(config: Config, cp: bool) -> (start: (Walker, Action))
    ensures
        start.0@ == initial(config@, cp),
        start.1@ == ActionView::Probe,
{
    let walker = Walker { config, copy: cp, phase: Phase::Probing, trail: Vec::new() };
    assert(texts(walker.trail@) =~= Seq::empty());
    (walker, Action::Probe)
}

impl Walker {
    /// Whether the run is over.
    pub fn finished(&self) -> (over: bool)
        ensures
            over == (self@.phase == Phase::Finished),
    {
        self.phase == Phase::Finished
    }

    /// Ends the run with `error`.
    fn abort(&mut self, error: TransferError) -> (action: Action)
        ensures
            (final(self)@, action@) == give_up(old(self)@, error@),
    {
        self.phase = Phase::Finished;
        Action::Abort { error }
    }

    /// Answers an event that the phase does not deal with in its own way.
    fn stray(&mut self, event: Event) -> (action: Action)
        ensures
            (final(self)@, action@) == otherwise(old(self)@, event@),
    {
        match event {
            Event::Failed { message } => self.abort(TransferError::Io { message }),
            _ => self.abort(TransferError::Unexpected),
        }
    }

    /// Asks for the innermost directory to be opened.
    fn open(&mut self) -> (action: Action)
        ensures
            final(self)@ == (WalkerView { phase: Phase::Opening, ..old(self)@ }),
            action@ == (ActionView::Open { dir: old(self)@.trail }),
    {
        self.phase = Phase::Opening;
        Action::Open { dir: copy_names(&self.trail) }
    }

    /// Takes in what the driver reports and hands back what it is to do
    /// next, by the rule `advance`.
    pub fn step(&mut self, event: Event) -> (action: Action)
        ensures
            (final(self)@, action@) == advance(old(self)@, event@),
    {
        match self.phase {
            Phase::Probing => match event {
                Event::Found { what: Found::Missing } => {
                    self.phase = Phase::Creating;
                    Action::CreateDestination
                },
                Event::Found { what: Found::Directory } => self.open(),
                Event::Found { what: Found::Other } => {
                    let path = self.config.destination().clone();
                    self.abort(TransferError::InvalidDestination { path })
                },
                other => self.stray(other),
            },
            Phase::Creating => match event {
                Event::Done => self.open(),
                other => self.stray(other),
            },
            Phase::Opening => match event {
                Event::Done => {
                    self.phase = Phase::Listing;
                    Action::Next
                },
                other => self.stray(other),
            },
            Phase::Listing => match event {
                Event::Entry { name, kind: EntryKind::Directory } => {
                    if self.config.recursive() {
                        proof {
                            assert(texts(self.trail@.push(name)) =~= texts(self.trail@).push(
                                name@,
                            ));
                        }
                        self.trail.push(name);
                        self.open()
                    } else {
                        Action::Next
                    }
                },
                Event::Entry { name, kind: EntryKind::File } => {
                    if selects(self.config.extensions(), name.as_str()) {
                        self.phase = Phase::Transferring;
                        let dir = copy_names(&self.trail);
                        if self.copy {
                            Action::Copy { dir, name }
                        } else {
                            Action::Move { dir, name }
                        }
                    } else {
                        Action::Next
                    }
                },
                Event::Entry { name, kind: EntryKind::Other } => Action::Next,
                Event::End => {
                    if self.trail.len() == 0 {
                        self.phase = Phase::Finished;
                        Action::Finish
                    } else {
                        proof {
                            assert(texts(self.trail@.drop_last()) =~= texts(
                                self.trail@,
                            ).drop_last());
                        }
                        self.trail.pop();
                        Action::Next
                    }
                },
                other => self.stray(other),
            },
            Phase::Transferring => match event {
                Event::Done => {
                    self.phase = Phase::Listing;
                    Action::Next
                },
                other => self.stray(other),
            },
            Phase::Finished => self.abort(TransferError::Unexpected),
        }
    }
}

} // verus!
