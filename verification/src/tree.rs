//! The directory of a process tree on a process table that does not change:
//! the recursive rule, and what follows from it for the choice between a
//! process and its children.

use crate::cwd::{keep_if_exists, settle, CwdErrorModel, CwdModel};
use crate::walk::{absorb, node, Choice, EventModel, Outcome, ReadingModel, RequestModel};
use vstd::prelude::*;

verus! {

/// A process table frozen in time, with the directories that exist.
pub struct World {
    pub table: Map<u32, ReadingModel>,
    pub present: Set<Seq<char>>,
}

impl World {
    /// What the table holds for `pid`; nothing readable for a process that is
    /// not in it.
    pub open spec fn reading(self, pid: u32) -> ReadingModel {
        if self.table.dom().contains(pid) {
            self.table[pid]
        } else {
            ReadingModel { exe: None, cwd: None, children: None }
        }
    }

    /// The event with which this world answers a request.
    pub open spec fn answer(self, request: RequestModel) -> EventModel {
        match request {
            RequestModel::Inspect { pid } => EventModel::Inspected(self.reading(pid)),
            RequestModel::CheckPath { path } => EventModel::PathChecked(self.present.contains(path)),
            RequestModel::Report { pid, followed } => EventModel::Reported,
        }
    }
}

/// The directory for a process once its children have been chosen among.
pub open spec fn finish(world: World, own: CwdModel, best: Choice) -> Outcome {
    match best {
        None => keep_if_exists(own, world.present.contains(own.path)),
        Some((_, child)) => settle(
            own,
            child,
            world.present.contains(own.path),
            world.present.contains(child.path),
        ),
    }
}

/// The directory that stands for the tree below `pid`, descending at most
/// `depth` levels.
pub open spec fn resolve(world: World, priority: Seq<Seq<char>>, pid: u32, depth: nat) -> Outcome
    decreases depth, 0nat,
{
    match node(world.reading(pid), pid, priority, depth) {
        Err(error) => Err(error),
        Ok((own, kids)) => finish(
            world,
            own,
            if depth == 0 {
                None
            } else {
                scan(world, priority, kids, (depth - 1) as nat, None)
            },
        ),
    }
}

/// The child preferred among `kids`, each resolved `depth` levels deep, when
/// `best` was preferred among their elder siblings.
pub open spec fn scan(
    world: World,
    priority: Seq<Seq<char>>,
    kids: Seq<u32>,
    depth: nat,
    best: Choice,
) -> Choice
    decreases depth, 1 + kids.len(),
{
    if kids.len() == 0 {
        best
    } else {
        scan(
            world,
            priority,
            kids.drop_first(),
            depth,
            absorb(best, kids[0], resolve(world, priority, kids[0], depth)),
        )
    }
}

/// Whether child `i` of `kids` resolves to a priority directory.
pub open spec fn resolves_priority(
    world: World,
    priority: Seq<Seq<char>>,
    kids: Seq<u32>,
    depth: nat,
    i: int,
) -> bool {
    resolve(world, priority, kids[i], depth) matches Ok(cwd) && cwd.priority
}

/// A priority directory, once preferred, stays preferred.
pub proof fn law_priority_choice_is_kept(
    world: World,
    priority: Seq<Seq<char>>,
    kids: Seq<u32>,
    depth: nat,
    best: Choice,
)
    requires
        best matches Some((_, held)) && held.priority,
    ensures
        scan(world, priority, kids, depth, best) == best,
    decreases kids.len(),
{
    if kids.len() > 0 {
        law_priority_choice_is_kept(world, priority, kids.drop_first(), depth, best);
    }
}

/// Among children of which none resolves to a priority directory, a choice
/// already made stays, and otherwise the first child that resolves is chosen.
pub proof fn law_first_resolved_child_is_chosen(
    world: World,
    priority: Seq<Seq<char>>,
    kids: Seq<u32>,
    depth: nat,
    best: Choice,
)
    requires
        forall|j: int| 0 <= j < kids.len() ==> !resolves_priority(world, priority, kids, depth, j),
    ensures
        best is Some ==> scan(world, priority, kids, depth, best) == best,
        best is None ==> match scan(world, priority, kids, depth, best) {
            Some((pid, cwd)) => exists|i: int|
                0 <= i < kids.len() && pid == kids[i] && resolve(world, priority, kids[i], depth)
                    == Ok::<CwdModel, CwdErrorModel>(cwd) && forall|j: int|
                    0 <= j < i ==> resolve(world, priority, #[trigger] kids[j], depth) is Err,
            None => forall|j: int|
                0 <= j < kids.len() ==> resolve(world, priority, #[trigger] kids[j], depth) is Err,
        },
    decreases kids.len(),
{
    if kids.len() > 0 {
        let tail = kids.drop_first();
        let first = resolve(world, priority, kids[0], depth);
        let taken = absorb(best, kids[0], first);
        assert(!resolves_priority(world, priority, kids, depth, 0));
        assert forall|j: int| 0 <= j < tail.len() implies !resolves_priority(
            world,
            priority,
            tail,
            depth,
            j,
        ) by {
            assert(tail[j] == kids[j + 1]);
            assert(!resolves_priority(world, priority, kids, depth, j + 1));
        }
        law_first_resolved_child_is_chosen(world, priority, tail, depth, taken);
        if best is None {
            match first {
                Ok(cwd) => {
                    assert(taken == Some((kids[0], cwd)));
                },
                Err(_) => {
                    match scan(world, priority, kids, depth, best) {
                        Some((pid, cwd)) => {
                            let i = choose|i: int|
                                0 <= i < tail.len() && pid == tail[i] && resolve(
                                    world,
                                    priority,
                                    tail[i],
                                    depth,
                                ) == Ok::<CwdModel, CwdErrorModel>(cwd) && forall|j: int|
                                    0 <= j < i ==> resolve(
                                        world,
                                        priority,
                                        #[trigger] tail[j],
                                        depth,
                                    ) is Err;
                            assert(tail[i] == kids[i + 1]);
                            assert forall|j: int| 0 <= j < i + 1 implies resolve(
                                world,
                                priority,
                                #[trigger] kids[j],
                                depth,
                            ) is Err by {
                                if j > 0 {
                                    assert(tail[j - 1] == kids[j]);
                                }
                            }
                        },
                        None => {
                            assert forall|j: int| 0 <= j < kids.len() implies resolve(
                                world,
                                priority,
                                #[trigger] kids[j],
                                depth,
                            ) is Err by {
                                if j > 0 {
                                    assert(tail[j - 1] == kids[j]);
                                }
                            }
                        },
                    }
                },
            }
        }
    }
}

/// If child `i` is the first that resolves to a priority directory, and no
/// priority directory was preferred before, that child is chosen, wherever it
/// stands among its siblings.
pub proof fn law_first_priority_child_is_chosen(
    world: World,
    priority: Seq<Seq<char>>,
    kids: Seq<u32>,
    depth: nat,
    best: Choice,
    i: int,
)
    requires
        0 <= i < kids.len(),
        resolves_priority(world, priority, kids, depth, i),
        forall|j: int| 0 <= j < i ==> !resolves_priority(world, priority, kids, depth, j),
        !(best matches Some((_, held)) && held.priority),
    ensures
        scan(world, priority, kids, depth, best) == Some(
            (kids[i], resolve(world, priority, kids[i], depth)->Ok_0),
        ),
    decreases kids.len(),
{
    let tail = kids.drop_first();
    let taken = absorb(best, kids[0], resolve(world, priority, kids[0], depth));
    if i == 0 {
        law_priority_choice_is_kept(world, priority, tail, depth, taken);
    } else {
        assert(!resolves_priority(world, priority, kids, depth, 0));
        assert(tail[i - 1] == kids[i]);
        assert forall|j: int| 0 <= j < i - 1 implies !resolves_priority(
            world,
            priority,
            tail,
            depth,
            j,
        ) by {
            assert(tail[j] == kids[j + 1]);
            assert(!resolves_priority(world, priority, kids, depth, j + 1));
        }
        law_first_priority_child_is_chosen(world, priority, tail, depth, taken, i - 1);
    }
}

/// A process with a child that resolves to a priority directory resolves to
/// the directory of the first such child, whatever its own tag and wherever
/// the child stands in the list. `depth` counts the levels below the children.
pub proof fn law_priority_child_wins(
    world: World,
    priority: Seq<Seq<char>>,
    pid: u32,
    depth: nat,
    kids: Seq<u32>,
    i: int,
)
    requires
        node(world.reading(pid), pid, priority, depth + 1) matches Ok((_, listed)) && listed
            == kids,
        0 <= i < kids.len(),
        resolves_priority(world, priority, kids, depth, i),
        forall|j: int| 0 <= j < i ==> !resolves_priority(world, priority, kids, depth, j),
    ensures
        resolve(world, priority, pid, depth + 1) == resolve(world, priority, kids[i], depth),
{
    law_first_priority_child_is_chosen(world, priority, kids, depth, None, i);
}

/// Without a priority command in sight the deepest descendant wins: a regular
/// process with a child that resolves, and none that resolves to a priority
/// directory, resolves to the directory of its first child that resolves.
/// `depth` counts the levels below the children.
pub proof fn law_regular_process_follows_first_child(
    world: World,
    priority: Seq<Seq<char>>,
    pid: u32,
    depth: nat,
    kids: Seq<u32>,
    i: int,
)
    requires
        node(world.reading(pid), pid, priority, depth + 1) matches Ok((own, listed)) && listed
            == kids && !own.priority,
        0 <= i < kids.len(),
        resolve(world, priority, kids[i], depth) is Ok,
        forall|j: int| 0 <= j < i ==> resolve(world, priority, #[trigger] kids[j], depth) is Err,
        forall|j: int| 0 <= j < kids.len() ==> !resolves_priority(world, priority, kids, depth, j),
    ensures
        resolve(world, priority, pid, depth + 1) == resolve(world, priority, kids[i], depth),
{
    law_first_resolved_child_is_chosen(world, priority, kids, depth, None);
    match scan(world, priority, kids, depth, None) {
        Some((chosen, cwd)) => {
            let k = choose|k: int|
                0 <= k < kids.len() && chosen == kids[k] && resolve(world, priority, kids[k], depth)
                    == Ok::<CwdModel, CwdErrorModel>(cwd) && forall|j: int|
                    0 <= j < k ==> resolve(world, priority, #[trigger] kids[j], depth) is Err;
            if k < i {
                assert(resolve(world, priority, kids[k], depth) is Err);
            }
            if i < k {
                assert(resolve(world, priority, kids[i], depth) is Err);
            }
            assert(!resolves_priority(world, priority, kids, depth, i));
        },
        None => {
            assert(resolve(world, priority, kids[i], depth) is Err);
        },
    }
}

/// A priority process whose directory exists, and none of whose children
/// resolves to a priority directory, resolves to its own directory. `depth`
/// counts the levels below the children.
pub proof fn law_priority_process_keeps_its_directory(
    world: World,
    priority: Seq<Seq<char>>,
    pid: u32,
    depth: nat,
    own: CwdModel,
    kids: Seq<u32>,
)
    requires
        node(world.reading(pid), pid, priority, depth + 1) == Ok::<
            (CwdModel, Seq<u32>),
            CwdErrorModel,
        >((own, kids)),
        own.priority,
        world.present.contains(own.path),
        forall|j: int| 0 <= j < kids.len() ==> !resolves_priority(world, priority, kids, depth, j),
    ensures
        resolve(world, priority, pid, depth + 1) == Ok::<CwdModel, CwdErrorModel>(own),
{
    law_first_resolved_child_is_chosen(world, priority, kids, depth, None);
    match scan(world, priority, kids, depth, None) {
        Some((chosen, cwd)) => {
            let k = choose|k: int|
                0 <= k < kids.len() && chosen == kids[k] && resolve(world, priority, kids[k], depth)
                    == Ok::<CwdModel, CwdErrorModel>(cwd);
            assert(!resolves_priority(world, priority, kids, depth, k));
        },
        None => {},
    }
}

} // verus!
