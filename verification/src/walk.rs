//! The walk over a process and its descendants, as a machine that asks for
//! one look at the process table at a time and is told what was found.
//!
//! The machine never touches the process table itself. It hands out a
//! [`Request`]; whoever drives it performs the request and passes the
//! matching [`Event`] to [`Walker::step`]. Children are visited depth first,
//! in the order the table lists them.

use crate::children::children_of;
use crate::cwd::{classify, keep_if_exists, outranks, CwdErrorModel, CwdModel, ProcessFile};
use vstd::prelude::*;

verus! {

/// Levels below the root that [`Walker::new`] callers usually allow.
pub const MAX_DEPTH: u32 = 128;

/// What the process table holds for one process. A part that could not be
/// read is `None`.
#[derive(Clone, Debug, PartialEq, Eq)]
pub struct ProcessReading {
    /// Target of the executable link.
    pub exe: Option<String>,
    /// Target of the working-directory link.
    pub cwd: Option<String>,
    /// Raw text of the children list of the process's first thread.
    pub children: Option<Vec<u8>>,
}

pub struct ReadingModel {
    pub exe: Option<Seq<char>>,
    pub cwd: Option<Seq<char>>,
    pub children: Option<Seq<u8>>,
}

impl View for ProcessReading {
    type V = ReadingModel;

    open spec fn view(&self) -> ReadingModel {
        ReadingModel {
            exe: match self.exe {
                Some(s) => Some(s@),
                None => None,
            },
            cwd: match self.cwd {
                Some(s) => Some(s@),
                None => None,
            },
            children: match self.children {
                Some(text) => Some(text@),
                None => None,
            },
        }
    }
}

/// What the machine wants done next.
#[derive(Clone, Debug, PartialEq, Eq)]
pub enum Request {
    /// Read the executable, working directory and children list of `pid`.
    Inspect { pid: u32 },
    /// Look whether `path` still exists.
    CheckPath { path: String },
    /// Tell the user that `pid` has several children and that `followed` is
    /// the one whose directory was preferred.
    Report { pid: u32, followed: u32 },
}

pub enum RequestModel {
    Inspect { pid: u32 },
    CheckPath { path: Seq<char> },
    Report { pid: u32, followed: u32 },
}

impl View for Request {
    type V = RequestModel;

    open spec fn view(&self) -> RequestModel {
        match *self {
            Request::Inspect { pid } => RequestModel::Inspect { pid },
            Request::CheckPath { path } => RequestModel::CheckPath { path: path@ },
            Request::Report { pid, followed } => RequestModel::Report { pid, followed },
        }
    }
}

/// The answer to a [`Request`].
#[derive(Clone, Debug, PartialEq, Eq)]
pub enum Event {
    Inspected(ProcessReading),
    PathChecked(bool),
    Reported,
}

pub enum EventModel {
    Inspected(ReadingModel),
    PathChecked(bool),
    Reported,
}

impl View for Event {
    type V = EventModel;

    open spec fn view(&self) -> EventModel {
        match *self {
            Event::Inspected(reading) => EventModel::Inspected(reading@),
            Event::PathChecked(exists) => EventModel::PathChecked(exists),
            Event::Reported => EventModel::Reported,
        }
    }
}

/// A result of resolving a subtree, in the model.
pub type Outcome = Result<CwdModel, CwdErrorModel>;

/// The child preferred so far among those already resolved: its process id
/// and directory.
pub type Choice = Option<(u32, CwdModel)>;

/// A process whose children are being resolved.
pub struct FrameModel {
    pub pid: u32,
    pub own: CwdModel,
    /// The child in progress, then those still to visit.
    pub rest: Seq<u32>,
    /// Whether the process lists more than one child.
    pub many: bool,
    pub best: Choice,
    /// Levels that may still be descended below each child.
    pub depth: nat,
}

/// What the machine is waiting for.
pub enum PhaseModel {
    /// The reading of `pid`, below which `depth` more levels may be descended.
    Inspecting { pid: u32, depth: nat },
    /// Whether the directory of a process without a child to follow exists.
    CheckingLeaf { own: CwdModel },
    /// The acknowledgement of a report on several children.
    Reporting { pid: u32, own: CwdModel, followed: u32, child: CwdModel },
    /// Whether the directory of a process that outranks its child exists.
    CheckingOwn { own: CwdModel, child: CwdModel },
    /// Whether the child's directory exists, the process's own being gone.
    CheckingChild { own: CwdModel, child: CwdModel },
}

pub struct WalkerModel {
    pub priority: Seq<Seq<char>>,
    /// The ancestors of the process in hand, the root first.
    pub stack: Seq<FrameModel>,
    pub phase: PhaseModel,
}

/// Where a step leads: on to another request, or to the result.
pub enum ProgressModel {
    Next(WalkerModel),
    Done(Outcome),
}

/// What one reading says of process `pid`: its tagged directory and the
/// children to visit, or the link that could not be read.
///
/// The executable is looked at first. A children list that is missing,
/// oversized or malformed counts as empty, and so does any list once no
/// further level may be descended.
pub open spec fn node(reading: ReadingModel, pid: u32, priority: Seq<Seq<char>>, depth: nat)
    -> Result<(CwdModel, Seq<u32>), CwdErrorModel> {
    match (reading.exe, reading.cwd) {
        (None, _) => Err(CwdErrorModel::ProcessRead { pid, file: ProcessFile::Exe }),
        (Some(_), None) => Err(CwdErrorModel::ProcessRead { pid, file: ProcessFile::Cwd }),
        (Some(exe), Some(cwd)) => Ok(
            (classify(cwd, exe, priority), listed_children(reading, depth)),
        ),
    }
}

/// The children that a reading lists for a process below which `depth`
/// levels may still be descended.
pub open spec fn listed_children(reading: ReadingModel, depth: nat) -> Seq<u32> {
    if depth == 0 {
        Seq::empty()
    } else {
        match reading.children {
            Some(text) => match children_of(text) {
                Some(ids) => ids,
                None => Seq::empty(),
            },
            None => Seq::empty(),
        }
    }
}

/// The preferred child once child `pid` has resolved to `r`: a failed child
/// changes nothing, the first success is taken, and only a priority child
/// replaces a regular one.
pub open spec fn absorb(best: Choice, pid: u32, r: Outcome) -> Choice {
    match r {
        Err(_) => best,
        Ok(cwd) => match best {
            None => Some((pid, cwd)),
            Some((_, held)) => if !held.priority && cwd.priority {
                Some((pid, cwd))
            } else {
                best
            },
        },
    }
}

/// The request that a walker in this state is waiting on.
pub open spec fn request_of(s: WalkerModel) -> RequestModel {
    match s.phase {
        PhaseModel::Inspecting { pid, depth } => RequestModel::Inspect { pid },
        PhaseModel::CheckingLeaf { own } => RequestModel::CheckPath { path: own.path },
        PhaseModel::Reporting { pid, own, followed, child } => RequestModel::Report {
            pid,
            followed,
        },
        PhaseModel::CheckingOwn { own, child } => RequestModel::CheckPath { path: own.path },
        PhaseModel::CheckingChild { own, child } => RequestModel::CheckPath { path: child.path },
    }
}

/// Hands the result `r` of a finished subtree to the process above it.
pub open spec fn deliver(priority: Seq<Seq<char>>, stack: Seq<FrameModel>, r: Outcome)
    -> ProgressModel
    decreases stack.len(), 0nat,
{
    if stack.len() == 0 {
        ProgressModel::Done(r)
    } else {
        let frame = stack.last();
        let below = stack.drop_last();
        let best = absorb(frame.best, frame.rest[0], r);
        let rest = frame.rest.drop_first();
        if rest.len() > 0 {
            ProgressModel::Next(
                WalkerModel {
                    priority,
                    stack: below.push(FrameModel { rest, best, ..frame }),
                    phase: PhaseModel::Inspecting { pid: rest[0], depth: frame.depth },
                },
            )
        } else {
            conclude(priority, below, frame.pid, frame.own, frame.many, best)
        }
    }
}

/// Goes on for a process whose children have all been visited.
pub open spec fn conclude(
    priority: Seq<Seq<char>>,
    below: Seq<FrameModel>,
    pid: u32,
    own: CwdModel,
    many: bool,
    best: Choice,
) -> ProgressModel
    decreases below.len(), 2nat,
{
    match best {
        None => ProgressModel::Next(
            WalkerModel { priority, stack: below, phase: PhaseModel::CheckingLeaf { own } },
        ),
        Some((followed, child)) => if many {
            ProgressModel::Next(
                WalkerModel {
                    priority,
                    stack: below,
                    phase: PhaseModel::Reporting { pid, own, followed, child },
                },
            )
        } else {
            merge(priority, below, own, child)
        },
    }
}

/// Decides between a process and its chosen child.
pub open spec fn merge(
    priority: Seq<Seq<char>>,
    below: Seq<FrameModel>,
    own: CwdModel,
    child: CwdModel,
) -> ProgressModel
    decreases below.len(), 1nat,
{
    if outranks(own, child) {
        ProgressModel::Next(
            WalkerModel { priority, stack: below, phase: PhaseModel::CheckingOwn { own, child } },
        )
    } else {
        deliver(priority, below, Ok(child))
    }
}

/// The walker's state before the first request: the root is to be inspected.
pub open spec fn initial(pid: u32, priority: Seq<Seq<char>>, max_depth: nat) -> WalkerModel {
    WalkerModel {
        priority,
        stack: Seq::empty(),
        phase: PhaseModel::Inspecting { pid, depth: max_depth },
    }
}

/// One step of the walk. An event that does not answer the pending request
/// leaves the walker where it was.
pub open spec fn step_model(s: WalkerModel, e: EventModel) -> ProgressModel {
    match (s.phase, e) {
        (PhaseModel::Inspecting { pid, depth }, EventModel::Inspected(reading)) => {
            match node(reading, pid, s.priority, depth) {
                Err(error) => deliver(s.priority, s.stack, Err(error)),
                Ok((own, kids)) => if kids.len() == 0 {
                    ProgressModel::Next(
                        WalkerModel { phase: PhaseModel::CheckingLeaf { own }, ..s },
                    )
                } else {
                    ProgressModel::Next(
                        WalkerModel {
                            priority: s.priority,
                            stack: s.stack.push(
                                FrameModel {
                                    pid,
                                    own,
                                    rest: kids,
                                    many: kids.len() > 1,
                                    best: None,
                                    depth: (depth - 1) as nat,
                                },
                            ),
                            phase: PhaseModel::Inspecting {
                                pid: kids[0],
                                depth: (depth - 1) as nat,
                            },
                        },
                    )
                },
            }
        },
        (PhaseModel::CheckingLeaf { own }, EventModel::PathChecked(exists)) => deliver(
            s.priority,
            s.stack,
            keep_if_exists(own, exists),
        ),
        (PhaseModel::Reporting { pid, own, followed, child }, EventModel::Reported) => merge(
            s.priority,
            s.stack,
            own,
            child,
        ),
        (PhaseModel::CheckingOwn { own, child }, EventModel::PathChecked(exists)) => if exists {
            deliver(s.priority, s.stack, Ok(own))
        } else {
            ProgressModel::Next(
                WalkerModel { phase: PhaseModel::CheckingChild { own, child }, ..s },
            )
        },
        (PhaseModel::CheckingChild { own, child }, EventModel::PathChecked(exists)) => deliver(
            s.priority,
            s.stack,
            if exists {
                Ok(child)
            } else {
                Err(CwdErrorModel::Vanished { path: own.path })
            },
        ),
        _ => ProgressModel::Next(s),
    }
}

} // verus!
