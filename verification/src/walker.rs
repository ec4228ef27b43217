//! The executable walker: the state of a walk, and the step that takes the
//! answer to the pending request and decides what comes next.

use crate::children::parse_children;
use crate::cwd::{outcome_view, texts, Cwd, CwdError, ProcessFile};
use crate::walk::{
    deliver, initial, merge, request_of, step_model, Choice, Event, FrameModel, PhaseModel,
    ProcessReading, ProgressModel, Request, WalkerModel,
};
use vstd::prelude::*;

verus! {

/// A process whose children are being resolved.
#[derive(Debug)]
struct Frame {
    pid: u32,
    own: Cwd,
    kids: Vec<u32>,
    /// Index in `kids` of the child in progress.
    next: usize,
    best: Option<(u32, Cwd)>,
    depth: u32,
}

#[derive(Debug)]
enum Phase {
    Inspecting { pid: u32, depth: u32 },
    CheckingLeaf { own: Cwd },
    Reporting { pid: u32, own: Cwd, followed: u32, child: Cwd },
    CheckingOwn { own: Cwd, child: Cwd },
    CheckingChild { own: Cwd, child: Cwd },
}

/// A walk in progress, waiting for the answer to [`Walker::request`].
#[derive(Debug)]
pub struct Walker {
    priority: Vec<String>,
    stack: Vec<Frame>,
    phase: Phase,
}

/// Where a step led.
#[derive(Debug)]
pub enum Progress {
    /// The walk goes on: perform the walker's request and step again.
    Next(Walker),
    /// The walk is over.
    Done(Result<Cwd, CwdError>),
}

spec fn choice_view(best: Option<(u32, Cwd)>) -> Choice {
    match best {
        Some((pid, cwd)) => Some((pid, cwd@)),
        None => None,
    }
}

impl Frame {
    spec fn wf(&self) -> bool {
        self.next < self.kids@.len()
    }

    spec fn view(&self) -> FrameModel {
        FrameModel {
            pid: self.pid,
            own: self.own@,
            rest: self.kids@.skip(self.next as int),
            many: self.kids@.len() > 1,
            best: choice_view(self.best),
            depth: self.depth as nat,
        }
    }
}

impl Phase {
    spec fn view(&self) -> PhaseModel {
        match *self {
            Phase::Inspecting { pid, depth } => PhaseModel::Inspecting {
                pid,
                depth: depth as nat,
            },
            Phase::CheckingLeaf { own } => PhaseModel::CheckingLeaf { own: own@ },
            Phase::Reporting { pid, own, followed, child } => PhaseModel::Reporting {
                pid,
                own: own@,
                followed,
                child: child@,
            },
            Phase::CheckingOwn { own, child } => PhaseModel::CheckingOwn {
                own: own@,
                child: child@,
            },
            Phase::CheckingChild { own, child } => PhaseModel::CheckingChild {
                own: own@,
                child: child@,
            },
        }
    }
}

spec fn frames_view(stack: Seq<Frame>) -> Seq<FrameModel> {
    stack.map_values(|f: Frame| f.view())
}

spec fn frames_wf(stack: Seq<Frame>) -> bool {
    forall|i: int| 0 <= i < stack.len() ==> (#[trigger] stack[i]).wf()
}

impl View for Walker {
    type V = WalkerModel;

    closed spec fn view(&self) -> WalkerModel {
        WalkerModel {
            priority: texts(self.priority@),
            stack: frames_view(self.stack@),
            phase: self.phase.view(),
        }
    }
}

impl View for Progress {
    type V = ProgressModel;

    open spec fn view(&self) -> ProgressModel {
        match *self {
            Progress::Next(walker) => ProgressModel::Next(walker@),
            Progress::Done(result) => ProgressModel::Done(outcome_view(result)),
        }
    }
}

/// Pushing a frame with a child in progress keeps the stack in order, and
/// the model of the result is the model of the stack with the frame's model
/// pushed.
proof fn lemma_pushed(below: Seq<Frame>, frame: Frame)
    requires
        frames_wf(below),
        frame.wf(),
    ensures
        frames_wf(below.push(frame)),
        frames_view(below.push(frame)) == frames_view(below).push(frame.view()),
{
    let stack = below.push(frame);
    assert forall|i: int| 0 <= i < stack.len() implies (#[trigger] stack[i]).wf() by {
        if i < below.len() {
            assert(stack[i] == below[i]);
        }
    }
    assert(frames_view(stack) =~= frames_view(below).push(frame.view()));
}

/// Popping the top frame leaves the stack in order, and the models follow.
proof fn lemma_popped(stack: Seq<Frame>)
    requires
        frames_wf(stack),
        stack.len() > 0,
    ensures
        stack.last().wf(),
        frames_wf(stack.drop_last()),
        frames_view(stack).last() == stack.last().view(),
        frames_view(stack.drop_last()) == frames_view(stack).drop_last(),
{
    let below = stack.drop_last();
    assert forall|i: int| 0 <= i < below.len() implies (#[trigger] below[i]).wf() by {
        assert(below[i] == stack[i]);
    }
    assert(frames_view(below) =~= frames_view(stack).drop_last());
}

/// Takes a child's result into a process's choice among its children.
fn absorb(best: Option<(u32, Cwd)>, pid: u32, r: Result<Cwd, CwdError>) -> (chosen: Option<
    (u32, Cwd),
>)
    ensures
        choice_view(chosen) == crate::walk::absorb(choice_view(best), pid, outcome_view(r)),
{
    match r {
        Err(_) => best,
        Ok(cwd) => match best {
            None => Some((pid, cwd)),
            Some((held_pid, held)) => if !held.is_priority() && cwd.is_priority() {
                Some((pid, cwd))
            } else {
                Some((held_pid, held))
            },
        },
    }
}

/// Hands the result of a finished subtree up the stack, as far as it goes
/// without another look at the outside.
fn hand_up(priority: Vec<String>, stack: Vec<Frame>, r: Result<Cwd, CwdError>) -> (p: Progress)
    requires
        frames_wf(stack@),
    ensures
        p@ == deliver(texts(priority@), frames_view(stack@), outcome_view(r)),
{
    let ghost goal = deliver(texts(priority@), frames_view(stack@), outcome_view(r));
    let mut frames = stack;
    let mut result = r;
    loop
        invariant
            frames_wf(frames@),
            goal == deliver(texts(priority@), frames_view(stack@), outcome_view(r)),
            deliver(texts(priority@), frames_view(frames@), outcome_view(result)) == goal,
        decreases frames@.len(),
    {
        let ghost before = frames@;
        match frames.pop() {
            None => {
                return Progress::Done(result);
            },
            Some(frame) => {
                proof {
                    lemma_popped(before);
                }
                let Frame { pid, own, kids, next, best, depth } = frame;
                let count = kids.len();
                let best = absorb(best, kids[next], result);
                let next = next + 1;
                proof {
                    assert(kids@.skip(next - 1)[0] == kids@[next - 1]);
                    assert(kids@.skip(next - 1).drop_first() =~= kids@.skip(next as int));
                }
                if next < count {
                    let child = kids[next];
                    let ghost below = frames@;
                    let resumed = Frame { pid, own, kids, next, best, depth };
                    frames.push(resumed);
                    proof {
                        assert(kids@.skip(next as int)[0] == child);
                        lemma_pushed(below, resumed);
                    }
                    return Progress::Next(
                        Walker {
                            priority,
                            stack: frames,
                            phase: Phase::Inspecting { pid: child, depth },
                        },
                    );
                }
                let many = count > 1;
                match best {
                    None => {
                        return Progress::Next(
                            Walker { priority, stack: frames, phase: Phase::CheckingLeaf { own } },
                        );
                    },
                    Some((followed, child)) => {
                        if many {
                            return Progress::Next(
                                Walker {
                                    priority,
                                    stack: frames,
                                    phase: Phase::Reporting { pid, own, followed, child },
                                },
                            );
                        }
                        if own.outranks(&child) {
                            return Progress::Next(
                                Walker {
                                    priority,
                                    stack: frames,
                                    phase: Phase::CheckingOwn { own, child },
                                },
                            );
                        }
                        result = Ok(child);
                    },
                }
            },
        }
    }
}

/// Decides between a process and its chosen child, and goes on from there.
fn settle_with_child(priority: Vec<String>, stack: Vec<Frame>, own: Cwd, child: Cwd) -> (p:
    Progress)
    requires
        frames_wf(stack@),
    ensures
        p@ == merge(texts(priority@), frames_view(stack@), own@, child@),
{
    if own.outranks(&child) {
        Progress::Next(Walker { priority, stack, phase: Phase::CheckingOwn { own, child } })
    } else {
        hand_up(priority, stack, Ok(child))
    }
}

impl Walker {
    /// Every process on the stack still has a child in progress.
    #[verifier::type_invariant]
    spec fn wf(self) -> bool {
        frames_wf(self.stack@)
    }

    /// A walk that starts at `pid` and descends at most `max_depth` levels
    /// below it. `priority` lists the executables of priority commands.
    pub fn new(pid: u32, priority: Vec<String>, max_depth: u32) -> (walker: Walker)
        ensures
            walker@ == initial(pid, texts(priority@), max_depth as nat),
    {
        let walker = Walker {
            priority,
            stack: Vec::new(),
            phase: Phase::Inspecting { pid, depth: max_depth },
        };
        proof {
            assert(frames_view(walker.stack@) =~= Seq::empty());
        }
        walker
    }

    /// What the walker is waiting for.
    pub fn request(&self) -> (request: Request)
        ensures
            request@ == request_of(self@),
    {
        match &self.phase {
            Phase::Inspecting { pid, depth } => Request::Inspect { pid: *pid },
            Phase::CheckingLeaf { own } => Request::CheckPath { path: own.as_ref().to_owned() },
            Phase::Reporting { pid, own, followed, child } => Request::Report {
                pid: *pid,
                followed: *followed,
            },
            Phase::CheckingOwn { own, child } => Request::CheckPath {
                path: own.as_ref().to_owned(),
            },
            Phase::CheckingChild { own, child } => Request::CheckPath {
                path: child.as_ref().to_owned(),
            },
        }
    }

    /// Takes the answer to the pending request and moves on. An event of the
    /// wrong kind is ignored: the walker comes back unchanged.
    pub fn step(self, event: Event) -> (p: Progress)
        ensures
            p@ == step_model(self@, event@),
    {
        proof {
            use_type_invariant(&self);
        }
        let Walker { priority, stack, phase } = self;
        match (phase, event) {
            (Phase::Inspecting { pid, depth }, Event::Inspected(reading)) => {
                let ProcessReading { exe, cwd, children } = reading;
                let exe = match exe {
                    Some(exe) => exe,
                    None => {
                        return hand_up(
                            priority,
                            stack,
                            Err(CwdError::ProcessRead { pid, file: ProcessFile::Exe }),
                        );
                    },
                };
                let cwd = match cwd {
                    Some(cwd) => cwd,
                    None => {
                        return hand_up(
                            priority,
                            stack,
                            Err(CwdError::ProcessRead { pid, file: ProcessFile::Cwd }),
                        );
                    },
                };
                let own = Cwd::new(cwd, exe.as_str(), priority.as_slice());
                let kids = if depth == 0 {
                    Vec::new()
                } else {
                    match children {
                        Some(text) => match parse_children(text.as_slice()) {
                            Some(ids) => ids,
                            None => Vec::new(),
                        },
                        None => Vec::new(),
                    }
                };
                if kids.len() == 0 {
                    Progress::Next(Walker { priority, stack, phase: Phase::CheckingLeaf { own } })
                } else {
                    let first = kids[0];
                    let ghost below = stack@;
                    let frame = Frame { pid, own, kids, next: 0, best: None, depth: depth - 1 };
                    let mut stack = stack;
                    stack.push(frame);
                    proof {
                        assert(frame.kids@.skip(0) =~= frame.kids@);
                        lemma_pushed(below, frame);
                    }
                    Progress::Next(
                        Walker {
                            priority,
                            stack,
                            phase: Phase::Inspecting { pid: first, depth: depth - 1 },
                        },
                    )
                }
            },
            (Phase::CheckingLeaf { own }, Event::PathChecked(exists)) => {
                hand_up(priority, stack, own.exists_or_err(exists))
            },
            (Phase::Reporting { pid, own, followed, child }, Event::Reported) => {
                settle_with_child(priority, stack, own, child)
            },
            (Phase::CheckingOwn { own, child }, Event::PathChecked(exists)) => {
                if exists {
                    hand_up(priority, stack, Ok(own))
                } else {
                    Progress::Next(
                        Walker { priority, stack, phase: Phase::CheckingChild { own, child } },
                    )
                }
            },
            (Phase::CheckingChild { own, child }, Event::PathChecked(exists)) => {
                if exists {
                    hand_up(priority, stack, Ok(child))
                } else {
                    hand_up(priority, stack, Err(CwdError::Vanished { path: own.into() }))
                }
            },
            (phase, _) => Progress::Next(Walker { priority, stack, phase }),
        }
    }
}

} // verus!
