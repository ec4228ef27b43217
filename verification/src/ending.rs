//! A walk over an unchanging process table comes to an end: a bound on the
//! number of steps, and with it the result of every such walk.

use crate::cwd::{keep_if_exists, outranks, CwdErrorModel, CwdModel};
use crate::fidelity::{law_run, law_start, run};
use crate::tree::{resolve, World};
use crate::walk::{
    absorb, conclude, deliver, initial, merge, node, request_of, step_model, Choice, FrameModel,
    Outcome, PhaseModel, ProgressModel, WalkerModel,
};
use vstd::prelude::*;

verus! {

/// Steps that resolving the tree below `pid` takes at most: one for the look
/// at the process, up to three to settle on a directory once the children
/// are done, and those of the children.
pub open spec fn weight(world: World, priority: Seq<Seq<char>>, pid: u32, depth: nat) -> nat
    decreases depth, 0nat,
{
    match node(world.reading(pid), pid, priority, depth) {
        Err(_) => 1,
        Ok((_, kids)) => if depth == 0 {
            4
        } else {
            4 + weights(world, priority, kids, (depth - 1) as nat)
        },
    }
}

/// The steps that resolving each of `kids` takes at most, together.
pub open spec fn weights(world: World, priority: Seq<Seq<char>>, kids: Seq<u32>, depth: nat) -> nat
    decreases depth, 1 + kids.len(),
{
    if kids.len() == 0 {
        0
    } else {
        weight(world, priority, kids[0], depth) + weights(
            world,
            priority,
            kids.drop_first(),
            depth,
        )
    }
}

/// Steps still owed by the processes on the stack once the child in progress
/// is done: their younger children, and up to three steps each to settle.
pub open spec fn owed(world: World, priority: Seq<Seq<char>>, stack: Seq<FrameModel>) -> nat
    decreases stack.len(),
{
    if stack.len() == 0 {
        0
    } else {
        owed(world, priority, stack.drop_last()) + weights(
            world,
            priority,
            stack.last().rest.drop_first(),
            stack.last().depth,
        ) + 3
    }
}

/// Steps that the pending request and what follows from it for the process
/// in hand take at most.
pub open spec fn pending(world: World, s: WalkerModel) -> nat {
    match s.phase {
        PhaseModel::Inspecting { pid, depth } => weight(world, s.priority, pid, depth),
        PhaseModel::CheckingLeaf { own } => 1,
        PhaseModel::Reporting { pid, own, followed, child } => 3,
        PhaseModel::CheckingOwn { own, child } => 2,
        PhaseModel::CheckingChild { own, child } => 1,
    }
}

/// Steps that a walk in state `s` takes at most in this world.
pub open spec fn remaining(world: World, s: WalkerModel) -> nat {
    pending(world, s) + owed(world, s.priority, s.stack)
}

/// Whether progress `p` is done or at most `bound` steps from it.
pub open spec fn within(world: World, p: ProgressModel, bound: nat) -> bool {
    match p {
        ProgressModel::Next(s) => remaining(world, s) <= bound,
        ProgressModel::Done(_) => true,
    }
}

proof fn lemma_merge_owed(
    world: World,
    priority: Seq<Seq<char>>,
    below: Seq<FrameModel>,
    own: CwdModel,
    child: CwdModel,
)
    ensures
        within(world, merge(priority, below, own, child), owed(world, priority, below) + 2),
    decreases below.len(), 1nat,
{
    if !outranks(own, child) {
        lemma_deliver_owed(world, priority, below, Ok(child));
    }
}

proof fn lemma_conclude_owed(
    world: World,
    priority: Seq<Seq<char>>,
    below: Seq<FrameModel>,
    pid: u32,
    own: CwdModel,
    many: bool,
    best: Choice,
)
    ensures
        within(
            world,
            conclude(priority, below, pid, own, many, best),
            owed(world, priority, below) + 3,
        ),
    decreases below.len(), 2nat,
{
    match best {
        None => {},
        Some((followed, child)) => {
            if !many {
                lemma_merge_owed(world, priority, below, own, child);
            }
        },
    }
}

proof fn lemma_deliver_owed(
    world: World,
    priority: Seq<Seq<char>>,
    stack: Seq<FrameModel>,
    r: Outcome,
)
    ensures
        within(world, deliver(priority, stack, r), owed(world, priority, stack)),
    decreases stack.len(), 0nat,
{
    if stack.len() > 0 {
        let frame = stack.last();
        let below = stack.drop_last();
        let best = absorb(frame.best, frame.rest[0], r);
        let rest = frame.rest.drop_first();
        if rest.len() > 0 {
            let resumed = FrameModel { rest, best, ..frame };
            let next = WalkerModel {
                priority,
                stack: below.push(resumed),
                phase: PhaseModel::Inspecting { pid: rest[0], depth: frame.depth },
            };
            assert(next.stack.drop_last() =~= below);
            assert(next.stack.last() == resumed);
        } else {
            lemma_conclude_owed(world, priority, below, frame.pid, frame.own, frame.many, best);
        }
    }
}

/// Every step that the world answers brings the walk nearer to its end.
pub proof fn law_step_nears_end(world: World, s: WalkerModel)
    ensures
        remaining(world, s) >= 1,
        step_model(s, world.answer(request_of(s))) matches ProgressModel::Next(next)
            ==> remaining(world, next) < remaining(world, s),
{
    let priority = s.priority;
    match s.phase {
        PhaseModel::Inspecting { pid, depth } => {
            match node(world.reading(pid), pid, priority, depth) {
                Err(error) => {
                    lemma_deliver_owed(world, priority, s.stack, Err(error));
                },
                Ok((own, kids)) => {
                    if kids.len() > 0 {
                        let frame = FrameModel {
                            pid,
                            own,
                            rest: kids,
                            many: kids.len() > 1,
                            best: None,
                            depth: (depth - 1) as nat,
                        };
                        let stack = s.stack.push(frame);
                        assert(stack.drop_last() =~= s.stack);
                        assert(stack.last() == frame);
                    }
                },
            }
        },
        PhaseModel::CheckingLeaf { own } => {
            lemma_deliver_owed(
                world,
                priority,
                s.stack,
                keep_if_exists(own, world.present.contains(own.path)),
            );
        },
        PhaseModel::Reporting { pid, own, followed, child } => {
            lemma_merge_owed(world, priority, s.stack, own, child);
        },
        PhaseModel::CheckingOwn { own, child } => {
            lemma_deliver_owed(world, priority, s.stack, Ok(own));
        },
        PhaseModel::CheckingChild { own, child } => {
            lemma_deliver_owed(world, priority, s.stack, Ok(child));
            lemma_deliver_owed(
                world,
                priority,
                s.stack,
                Err(CwdErrorModel::Vanished { path: own.path }),
            );
        },
    }
}

/// A walk is over after as many steps as it had remaining, and after any
/// number beyond.
pub proof fn law_walk_ends(world: World, s: WalkerModel, steps: nat)
    requires
        steps >= remaining(world, s),
    ensures
        run(world, s, steps) is Done,
    decreases steps,
{
    law_step_nears_end(world, s);
    match step_model(s, world.answer(request_of(s))) {
        ProgressModel::Next(next) => {
            law_walk_ends(world, next, (steps - 1) as nat);
        },
        ProgressModel::Done(r) => {},
    }
}

/// In an unchanging world the walk that starts at `pid` ends within
/// `weight` steps, and its result is the tree's directory.
pub proof fn law_walk_resolves(world: World, pid: u32, priority: Seq<Seq<char>>, max_depth: nat)
    ensures
        run(
            world,
            initial(pid, priority, max_depth),
            weight(world, priority, pid, max_depth),
        ) == ProgressModel::Done(resolve(world, priority, pid, max_depth)),
{
    let start = initial(pid, priority, max_depth);
    let steps = weight(world, priority, pid, max_depth);
    assert(owed(world, priority, start.stack) == 0);
    law_walk_ends(world, start, steps);
    law_start(world, pid, priority, max_depth);
    law_run(world, start, steps);
}

} // verus!
