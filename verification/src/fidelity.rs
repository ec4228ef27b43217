//! The walker is faithful to the rule: driven by a process table that does
//! not change, it heads at every step for the directory that the recursive
//! rule gives, and ends with it.

use crate::cwd::{keep_if_exists, outranks, settle, CwdErrorModel, CwdModel};
use crate::tree::{finish, resolve, scan, World};
use crate::walk::{
    absorb, conclude, deliver, initial, merge, node, request_of, step_model, Choice, FrameModel,
    Outcome, PhaseModel, ProgressModel, WalkerModel,
};
use vstd::prelude::*;

verus! {

/// The result that the walker's pending request leads to for the process in
/// hand, in this world.
pub open spec fn local(world: World, s: WalkerModel) -> Outcome {
    match s.phase {
        PhaseModel::Inspecting { pid, depth } => resolve(world, s.priority, pid, depth),
        PhaseModel::CheckingLeaf { own } => keep_if_exists(own, world.present.contains(own.path)),
        PhaseModel::Reporting { pid, own, followed, child } => settle(
            own,
            child,
            world.present.contains(own.path),
            world.present.contains(child.path),
        ),
        PhaseModel::CheckingOwn { own, child } => if world.present.contains(own.path) {
            Ok(own)
        } else if world.present.contains(child.path) {
            Ok(child)
        } else {
            Err(CwdErrorModel::Vanished { path: own.path })
        },
        PhaseModel::CheckingChild { own, child } => if world.present.contains(child.path) {
            Ok(child)
        } else {
            Err(CwdErrorModel::Vanished { path: own.path })
        },
    }
}

/// The result at the root when the subtree in hand has resolved to `r` and
/// the processes on the stack finish their children in this world.
pub open spec fn unwind(world: World, priority: Seq<Seq<char>>, stack: Seq<FrameModel>, r: Outcome)
    -> Outcome
    decreases stack.len(),
{
    if stack.len() == 0 {
        r
    } else {
        let frame = stack.last();
        let best = scan(
            world,
            priority,
            frame.rest.drop_first(),
            frame.depth,
            absorb(frame.best, frame.rest[0], r),
        );
        unwind(world, priority, stack.drop_last(), finish(world, frame.own, best))
    }
}

/// The result that a walk in state `s` is heading for in this world.
pub open spec fn outcome(world: World, s: WalkerModel) -> Outcome {
    unwind(world, s.priority, s.stack, local(world, s))
}

/// Whether progress `p` still heads for result `r` in this world.
pub open spec fn heads_for(world: World, p: ProgressModel, r: Outcome) -> bool {
    match p {
        ProgressModel::Next(s) => outcome(world, s) == r,
        ProgressModel::Done(found) => found == r,
    }
}

/// Where a walk stands after up to `steps` steps in this world.
pub open spec fn run(world: World, s: WalkerModel, steps: nat) -> ProgressModel
    decreases steps,
{
    if steps == 0 {
        ProgressModel::Next(s)
    } else {
        match step_model(s, world.answer(request_of(s))) {
            ProgressModel::Next(next) => run(world, next, (steps - 1) as nat),
            ProgressModel::Done(r) => ProgressModel::Done(r),
        }
    }
}

proof fn lemma_merge(
    world: World,
    priority: Seq<Seq<char>>,
    below: Seq<FrameModel>,
    own: CwdModel,
    child: CwdModel,
)
    ensures
        heads_for(
            world,
            merge(priority, below, own, child),
            unwind(
                world,
                priority,
                below,
                settle(
                    own,
                    child,
                    world.present.contains(own.path),
                    world.present.contains(child.path),
                ),
            ),
        ),
    decreases below.len(), 1nat,
{
    if !outranks(own, child) {
        lemma_deliver(world, priority, below, Ok(child));
    }
}

proof fn lemma_conclude(
    world: World,
    priority: Seq<Seq<char>>,
    below: Seq<FrameModel>,
    pid: u32,
    own: CwdModel,
    many: bool,
    best: Choice,
)
    ensures
        heads_for(
            world,
            conclude(priority, below, pid, own, many, best),
            unwind(world, priority, below, finish(world, own, best)),
        ),
    decreases below.len(), 2nat,
{
    match best {
        None => {},
        Some((followed, child)) => {
            if !many {
                lemma_merge(world, priority, below, own, child);
            }
        },
    }
}

proof fn lemma_deliver(world: World, priority: Seq<Seq<char>>, stack: Seq<FrameModel>, r: Outcome)
    ensures
        heads_for(world, deliver(priority, stack, r), unwind(world, priority, stack, r)),
    decreases stack.len(), 0nat,
{
    if stack.len() > 0 {
        let frame = stack.last();
        let below = stack.drop_last();
        let best = absorb(frame.best, frame.rest[0], r);
        let rest = frame.rest.drop_first();
        if rest.len() > 0 {
            let resumed = FrameModel { rest, best, ..frame };
            let next = WalkerModel {
                priority,
                stack: below.push(resumed),
                phase: PhaseModel::Inspecting { pid: rest[0], depth: frame.depth },
            };
            assert(next.stack.drop_last() =~= below);
            assert(next.stack.last() == resumed);
        } else {
            lemma_conclude(world, priority, below, frame.pid, frame.own, frame.many, best);
        }
    }
}

/// A fresh walk heads for the tree's directory.
pub proof fn law_start(world: World, pid: u32, priority: Seq<Seq<char>>, max_depth: nat)
    ensures
        outcome(world, initial(pid, priority, max_depth)) == resolve(
            world,
            priority,
            pid,
            max_depth,
        ),
{
}

/// A step that is answered by the world does not change where the walk is
/// heading; a walk that ends, ends with the result it was heading for.
pub proof fn law_step(world: World, s: WalkerModel)
    ensures
        heads_for(world, step_model(s, world.answer(request_of(s))), outcome(world, s)),
{
    let priority = s.priority;
    match s.phase {
        PhaseModel::Inspecting { pid, depth } => {
            match node(world.reading(pid), pid, priority, depth) {
                Err(error) => {
                    lemma_deliver(world, priority, s.stack, Err(error));
                },
                Ok((own, kids)) => {
                    if kids.len() > 0 {
                        let frame = FrameModel {
                            pid,
                            own,
                            rest: kids,
                            many: kids.len() > 1,
                            best: None,
                            depth: (depth - 1) as nat,
                        };
                        let stack = s.stack.push(frame);
                        assert(stack.drop_last() =~= s.stack);
                        assert(stack.last() == frame);
                    }
                },
            }
        },
        PhaseModel::CheckingLeaf { own } => {
            lemma_deliver(
                world,
                priority,
                s.stack,
                keep_if_exists(own, world.present.contains(own.path)),
            );
        },
        PhaseModel::Reporting { pid, own, followed, child } => {
            lemma_merge(world, priority, s.stack, own, child);
        },
        PhaseModel::CheckingOwn { own, child } => {
            if world.present.contains(own.path) {
                lemma_deliver(world, priority, s.stack, Ok(own));
            }
        },
        PhaseModel::CheckingChild { own, child } => {
            lemma_deliver(world, priority, s.stack, local(world, s));
        },
    }
}

/// However many steps a walk has taken in an unchanging world, it still heads
/// for the same result, and if it has ended, that is its result.
pub proof fn law_run(world: World, s: WalkerModel, steps: nat)
    ensures
        heads_for(world, run(world, s, steps), outcome(world, s)),
    decreases steps,
{
    if steps > 0 {
        law_step(world, s);
        match step_model(s, world.answer(request_of(s))) {
            ProgressModel::Next(next) => {
                law_run(world, next, (steps - 1) as nat);
            },
            ProgressModel::Done(r) => {},
        }
    }
}

/// Two walks of the same tree in the same unchanging world, with the same
/// priority list and depth, that both come to an end give the same result:
/// the tree's directory.
pub proof fn law_same_world_same_result(
    world: World,
    pid: u32,
    priority: Seq<Seq<char>>,
    max_depth: nat,
    steps_a: nat,
    steps_b: nat,
)
    requires
        run(world, initial(pid, priority, max_depth), steps_a) is Done,
        run(world, initial(pid, priority, max_depth), steps_b) is Done,
    ensures
        run(world, initial(pid, priority, max_depth), steps_a) == run(
            world,
            initial(pid, priority, max_depth),
            steps_b,
        ),
        run(world, initial(pid, priority, max_depth), steps_a) == ProgressModel::Done(
            resolve(world, priority, pid, max_depth),
        ),
{
    law_start(world, pid, priority, max_depth);
    law_run(world, initial(pid, priority, max_depth), steps_a);
    law_run(world, initial(pid, priority, max_depth), steps_b);
}

} // verus!
