//! The dependency graph of a workflow's steps, and cycle detection.
//!
//! Steps point at each other through their `depends_on` lists.  A
//! dependency on an id that no step carries is a dangling reference and
//! is not an edge; everything here follows the first step with a given
//! id, as the lookup functions do.
//!
//! The algorithm is a peeling in topological order: a step all of whose
//! resolving dependencies are already peeled can itself be peeled; when
//! nothing more can be peeled, the steps left are exactly those from
//! which a walk along dependency edges can revisit a node — those that
//! reach a cycle.  [`first_cycle_origin`] returns the first such step in
//! workflow order, with that exact characterization proved in both
//! directions.

use vstd::prelude::*;

use crate::strings::{contains_string, seq_has_text, str_eq, strs_view};
use crate::workflow::{find_step_model, lemma_find_step_skip, steps_view, StepModel, WorkflowStep};

verus! {

/// An edge of the dependency graph: the first step with id `a` lists
/// `b` among its dependencies.
pub open spec fn dep_edge(steps: Seq<StepModel>, a: Seq<char>, b: Seq<char>) -> bool {
    match find_step_model(steps, a) {
        Some(s) => s.depends_on.contains(b),
        None => false,
    }
}

/// A walk along dependency edges, given by the ids it visits.
pub open spec fn is_path(steps: Seq<StepModel>, p: Seq<Seq<char>>) -> bool {
    1 <= p.len() && forall|i: int|
        0 <= i < p.len() - 1 ==> dep_edge(steps, #[trigger] p[i], p[i + 1])
}

/// Some id occurs twice on the walk.
pub open spec fn path_repeats(p: Seq<Seq<char>>) -> bool {
    exists|i: int, j: int| 0 <= i < j < p.len() && p[i] == p[j]
}

/// From `id` a walk exists that revisits a node.
pub open spec fn reaches_cycle(steps: Seq<StepModel>, id: Seq<char>) -> bool {
    exists|p: Seq<Seq<char>>| is_path(steps, p) && p[0] == id && path_repeats(p)
}

/// The graph has a closed walk.
pub open spec fn has_cycle(steps: Seq<StepModel>) -> bool {
    exists|p: Seq<Seq<char>>| is_path(steps, p) && p.len() >= 2 && p[0] == p[p.len() - 1]
}

/// The ids of the steps, in order.
pub open spec fn step_ids(steps: Seq<StepModel>) -> Seq<Seq<char>> {
    steps.map_values(|s: StepModel| s.id)
}

/// All dependencies of `s` that resolve to a step are among `done`.
pub open spec fn deps_done(steps: Seq<StepModel>, s: StepModel, done: Seq<Seq<char>>) -> bool {
    forall|d: int|
        0 <= d < s.depends_on.len() && find_step_model(steps, #[trigger] s.depends_on[d]) is Some
            ==> seq_has_text(done, s.depends_on[d])
}

/// `steps[i]` is what its own id resolves to: the first step carrying
/// that id, or an exact copy of it.
pub open spec fn owns_id(steps: Seq<StepModel>, i: int) -> bool {
    find_step_model(steps, steps[i].id) == Some(steps[i])
}

/// Nothing outside `done` can be peeled: every step that owns its id
/// and is not in `done` still has a resolving dependency outside
/// `done`.
pub open spec fn stalled(steps: Seq<StepModel>, done: Seq<Seq<char>>) -> bool {
    forall|i: int|
        0 <= i < steps.len() && #[trigger] owns_id(steps, i) && !seq_has_text(done, steps[i].id)
            ==> !deps_done(steps, steps[i], done)
}

/// A peeling order: every id resolves, none repeats, and each entry's
/// resolving dependencies come strictly earlier.
pub open spec fn peel_order(steps: Seq<StepModel>, done: Seq<Seq<char>>) -> bool {
    &&& done.no_duplicates()
    &&& forall|k: int| 0 <= k < done.len() ==> find_step_model(steps, #[trigger] done[k]) is Some
    &&& forall|k: int|
        0 <= k < done.len() ==> deps_done(
            steps,
            find_step_model(steps, #[trigger] done[k])->Some_0,
            done.subrange(0, k),
        )
}

/// A found step means some index carries that id and owns it.
pub proof fn lemma_find_step_index(steps: Seq<StepModel>, id: Seq<char>)
    requires
        find_step_model(steps, id) is Some,
    ensures
        exists|i: int|
            0 <= i < steps.len() && (#[trigger] steps[i]).id == id && steps[i] == find_step_model(
                steps,
                id,
            )->Some_0,
    decreases steps.len(),
{
    if steps.len() > 0 {
        if steps[0].id == id {
            assert(0 <= 0 < steps.len() && steps[0].id == id && steps[0] == find_step_model(
                steps,
                id,
            )->Some_0);
        } else {
            let rest = steps.subrange(1, steps.len() as int);
            lemma_find_step_index(rest, id);
            let i = choose|i: int|
                0 <= i < rest.len() && (#[trigger] rest[i]).id == id && rest[i] == find_step_model(
                    rest,
                    id,
                )->Some_0;
            assert(steps[i + 1] == rest[i]);
            assert(steps[i + 1].id == id && steps[i + 1] == find_step_model(steps, id)->Some_0);
        }
    }
}

/// The id at any index resolves to some step.
pub proof fn lemma_id_resolves(steps: Seq<StepModel>, i: int)
    requires
        0 <= i < steps.len(),
    ensures
        find_step_model(steps, steps[i].id) is Some,
    decreases steps.len(),
{
    if steps[0].id == steps[i].id {
    } else {
        let rest = steps.subrange(1, steps.len() as int);
        assert(rest[i - 1] == steps[i]);
        lemma_id_resolves(rest, i - 1);
    }
}

/// A contiguous piece of a walk is a walk.
pub proof fn lemma_subpath(steps: Seq<StepModel>, p: Seq<Seq<char>>, a: int, b: int)
    requires
        is_path(steps, p),
        0 <= a < b <= p.len(),
    ensures
        is_path(steps, p.subrange(a, b)),
{
    let q = p.subrange(a, b);
    assert forall|i: int| 0 <= i < q.len() - 1 implies dep_edge(
        steps,
        #[trigger] q[i],
        q[i + 1],
    ) by {
        assert(q[i] == p[a + i]);
        assert(q[i + 1] == p[a + i + 1]);
        assert(dep_edge(steps, p[a + i], p[a + i + 1]));
    }
}

/// Walking from an id inside a peeling order only moves strictly
/// backwards through the order, as long as every visited id resolves.
proof fn lemma_peel_chain(
    steps: Seq<StepModel>,
    done: Seq<Seq<char>>,
    p: Seq<Seq<char>>,
    pos0: int,
    j: int,
)
    requires
        peel_order(steps, done),
        is_path(steps, p),
        0 <= pos0 < done.len(),
        done[pos0] == p[0],
        0 <= j < p.len(),
        forall|k: int| 1 <= k <= j ==> find_step_model(steps, #[trigger] p[k]) is Some,
    ensures
        exists|pj: int| 0 <= pj < done.len() && #[trigger] done[pj] == p[j] && pj <= pos0 - j,
    decreases j,
{
    if j == 0 {
        assert(0 <= pos0 < done.len() && done[pos0] == p[0] && pos0 <= pos0 - 0);
    } else {
        lemma_peel_chain(steps, done, p, pos0, j - 1);
        let pj1 = choose|pj1: int|
            0 <= pj1 < done.len() && #[trigger] done[pj1] == p[j - 1] && pj1 <= pos0 - (j - 1);
        assert(dep_edge(steps, p[j - 1], p[j]));
        let s = find_step_model(steps, done[pj1])->Some_0;
        assert(s == find_step_model(steps, p[j - 1])->Some_0);
        assert(s.depends_on.contains(p[j]));
        let d = choose|d: int| 0 <= d < s.depends_on.len() && s.depends_on[d] == p[j];
        assert(deps_done(steps, s, done.subrange(0, pj1)));
        assert(find_step_model(steps, s.depends_on[d]) is Some);
        assert(seq_has_text(done.subrange(0, pj1), p[j]));
        let pj = choose|pj: int| 0 <= pj < pj1 && done.subrange(0, pj1)[pj] == p[j];
        assert(done[pj] == p[j]);
        assert(0 <= pj < done.len() && done[pj] == p[j] && pj <= pos0 - j);
    }
}

/// No id inside a peeling order reaches a cycle.
pub proof fn lemma_peeled_safe(steps: Seq<StepModel>, done: Seq<Seq<char>>, id: Seq<char>)
    requires
        peel_order(steps, done),
        seq_has_text(done, id),
    ensures
        !reaches_cycle(steps, id),
{
    if reaches_cycle(steps, id) {
        let p = choose|p: Seq<Seq<char>>| is_path(steps, p) && p[0] == id && path_repeats(p);
        let (i, j): (int, int) = choose|i: int, j: int| 0 <= i < j < p.len() && p[i] == p[j];
        let pos0 = choose|pos0: int| 0 <= pos0 < done.len() && done[pos0] == p[0];
        // every id on the walk up to j resolves: inner ids have an
        // outgoing edge, and p[j] equals p[i], which has one too
        assert forall|k: int| 1 <= k <= j implies find_step_model(
            steps,
            #[trigger] p[k],
        ) is Some by {
            if k < p.len() - 1 {
                assert(dep_edge(steps, p[k], p[k + 1]));
            } else {
                assert(p[k] == p[i] && i < p.len() - 1);
                assert(dep_edge(steps, p[i], p[i + 1]));
            }
        }
        lemma_peel_chain(steps, done, p, pos0, i);
        let pi = choose|pi: int|
            0 <= pi < done.len() && #[trigger] done[pi] == p[i] && pi <= pos0 - i;
        let q = p.subrange(i, p.len() as int);
        lemma_subpath(steps, p, i, p.len() as int);
        assert forall|k: int| 1 <= k <= j - i implies find_step_model(
            steps,
            #[trigger] q[k],
        ) is Some by {
            assert(q[k] == p[i + k]);
        }
        assert(q[0] == p[i]);
        lemma_peel_chain(steps, done, q, pi, j - i);
        let pj = choose|pj: int|
            0 <= pj < done.len() && #[trigger] done[pj] == q[j - i] && pj <= pi - (j - i);
        assert(q[j - i] == p[j]);
        assert(done[pj] == p[i] && done[pi] == p[i]);
        assert(pj < pi);
        assert(done[pj] != done[pi]);
        assert(false);
    }
}

/// In a stalled state, from any unpeeled resolving id a walk of any
/// requested length exists that stays on unpeeled resolving ids.
proof fn lemma_stalled_walk(
    steps: Seq<StepModel>,
    done: Seq<Seq<char>>,
    x: Seq<char>,
    n: int,
) -> (p: Seq<Seq<char>>)
    requires
        stalled(steps, done),
        find_step_model(steps, x) is Some,
        !seq_has_text(done, x),
        n >= 1,
    ensures
        is_path(steps, p),
        p.len() == n,
        p[0] == x,
        forall|k: int| 0 <= k < p.len() ==> find_step_model(steps, #[trigger] p[k]) is Some,
    decreases n,
{
    if n == 1 {
        let p = seq![x];
        assert(p[0] == x);
        assert(is_path(steps, p));
        p
    } else {
        lemma_find_step_index(steps, x);
        let i = choose|i: int|
            0 <= i < steps.len() && (#[trigger] steps[i]).id == x && steps[i] == find_step_model(
                steps,
                x,
            )->Some_0;
        assert(owns_id(steps, i));
        assert(!deps_done(steps, steps[i], done));
        let d = choose|d: int|
            0 <= d < steps[i].depends_on.len() && find_step_model(
                steps,
                #[trigger] steps[i].depends_on[d],
            ) is Some && !seq_has_text(done, steps[i].depends_on[d]);
        let y = steps[i].depends_on[d];
        let rest = lemma_stalled_walk(steps, done, y, n - 1);
        let p = seq![x] + rest;
        assert(p.len() == n);
        assert(p[0] == x);
        assert(find_step_model(steps, x)->Some_0.depends_on.contains(y)) by {
            assert(steps[i].depends_on[d] == y);
        }
        assert forall|k: int| 0 <= k < p.len() - 1 implies dep_edge(
            steps,
            #[trigger] p[k],
            p[k + 1],
        ) by {
            if k == 0 {
                assert(p[0] == x && p[1] == rest[0] && rest[0] == y);
                assert(dep_edge(steps, x, y));
            } else {
                assert(p[k] == rest[k - 1] && p[k + 1] == rest[k]);
                assert(dep_edge(steps, rest[k - 1], rest[k]));
            }
        }
        assert forall|k: int| 0 <= k < p.len() implies find_step_model(
            steps,
            #[trigger] p[k],
        ) is Some by {
            if k > 0 {
                assert(p[k] == rest[k - 1]);
            }
        }
        p
    }
}

/// A walk longer than the number of ids it can visit revisits one.
proof fn lemma_walk_pigeonhole(p: Seq<Seq<char>>, s: Set<Seq<char>>)
    requires
        s.finite(),
        forall|k: int| 0 <= k < p.len() ==> s.contains(#[trigger] p[k]),
        p.len() > s.len(),
    ensures
        path_repeats(p),
{
    if !path_repeats(p) {
        assert forall|i: int, j: int|
            0 <= i < p.len() && 0 <= j < p.len() && i != j implies p[i] != p[j] by {
            if i < j {
                assert(!(0 <= i < j < p.len() && p[i] == p[j]));
            } else {
                assert(!(0 <= j < i < p.len() && p[j] == p[i]));
            }
        }
        assert(p.no_duplicates());
        p.unique_seq_to_set();
        assert forall|e: Seq<char>| p.to_set().contains(e) implies s.contains(e) by {
            assert(p.contains(e));
            let k = choose|k: int| 0 <= k < p.len() && p[k] == e;
            assert(s.contains(p[k]));
        }
        vstd::set_lib::lemma_len_subset(p.to_set(), s);
        assert(false);
    }
}

/// In a stalled state, every unpeeled resolving id reaches a cycle.
pub proof fn lemma_stalled_reaches(steps: Seq<StepModel>, done: Seq<Seq<char>>, x: Seq<char>)
    requires
        stalled(steps, done),
        find_step_model(steps, x) is Some,
        !seq_has_text(done, x),
    ensures
        reaches_cycle(steps, x),
{
    broadcast use vstd::seq_lib::seq_to_set_is_finite;

    let ids = step_ids(steps);
    let s = ids.to_set();
    ids.lemma_cardinality_of_set();
    let p = lemma_stalled_walk(steps, done, x, s.len() as int + 1);
    assert forall|k: int| 0 <= k < p.len() implies s.contains(#[trigger] p[k]) by {
        assert(find_step_model(steps, p[k]) is Some);
        lemma_find_step_index(steps, p[k]);
        let i = choose|i: int|
            0 <= i < steps.len() && (#[trigger] steps[i]).id == p[k] && steps[i]
                == find_step_model(steps, p[k])->Some_0;
        assert(ids[i] == p[k]);
        assert(ids.contains(p[k]));
    }
    lemma_walk_pigeonhole(p, s);
}

/// The graph has a cycle exactly when some step reaches one.
pub proof fn lemma_cycle_iff_origin(steps: Seq<StepModel>)
    ensures
        has_cycle(steps) <==> exists|i: int|
            0 <= i < steps.len() && reaches_cycle(steps, (#[trigger] steps[i]).id),
{
    if has_cycle(steps) {
        let p = choose|p: Seq<Seq<char>>|
            is_path(steps, p) && p.len() >= 2 && p[0] == p[p.len() - 1];
        assert(dep_edge(steps, p[0], p[1]));
        lemma_find_step_index(steps, p[0]);
        let i = choose|i: int|
            0 <= i < steps.len() && (#[trigger] steps[i]).id == p[0] && steps[i]
                == find_step_model(steps, p[0])->Some_0;
        assert(0 <= 0 < p.len() - 1 && p[0] == p[p.len() - 1]);
        assert(path_repeats(p));
        assert(is_path(steps, p) && p[0] == steps[i].id && path_repeats(p));
        assert(reaches_cycle(steps, steps[i].id));
    }
    if exists|i: int| 0 <= i < steps.len() && reaches_cycle(steps, (#[trigger] steps[i]).id) {
        let i = choose|i: int|
            0 <= i < steps.len() && reaches_cycle(steps, (#[trigger] steps[i]).id);
        let p = choose|p: Seq<Seq<char>>|
            is_path(steps, p) && p[0] == steps[i].id && path_repeats(p);
        let (a, b): (int, int) = choose|a: int, b: int| 0 <= a < b < p.len() && p[a] == p[b];
        lemma_subpath(steps, p, a, b + 1);
        let q = p.subrange(a, b + 1);
        assert(q.len() >= 2 && q[0] == p[a] && q[q.len() - 1] == p[b]);
        assert(is_path(steps, q) && q.len() >= 2 && q[0] == q[q.len() - 1]);
    }
}

/// Index of the first step with the given id, if any.
pub fn find_step_index(steps: &Vec<WorkflowStep>, id: &String) -> (r: Option<usize>)
    ensures
        match r {
            Some(i) => i < steps@.len() && steps@[i as int]@.id == id@ && find_step_model(
                steps_view(steps@),
                id@,
            ) == Some(steps@[i as int]@) && forall|k: int|
                0 <= k < i ==> (#[trigger] steps_view(steps@)[k]).id != id@,
            None => find_step_model(steps_view(steps@), id@) is None,
        },
{
    let mut i: usize = 0;
    while i < steps.len()
        invariant
            i <= steps@.len(),
            forall|j: int| 0 <= j < i ==> (#[trigger] steps_view(steps@)[j]).id != id@,
        decreases steps@.len() - i,
    {
        if str_eq(&steps[i].id, id) {
            proof {
                lemma_find_step_skip(steps_view(steps@), id@, i as int);
            }
            return Some(i);
        }
        assert(steps_view(steps@)[i as int].id != id@);
        i = i + 1;
    }
    proof {
        lemma_find_step_skip(steps_view(steps@), id@, steps@.len() as int);
        assert(steps_view(steps@).subrange(
            steps_view(steps@).len() as int,
            steps_view(steps@).len() as int,
        ) =~= Seq::<StepModel>::empty());
    }
    None
}

/// Whether all resolving dependencies of `steps[i]` are in `done`.
fn deps_all_done(steps: &Vec<WorkflowStep>, i: usize, done: &Vec<String>) -> (r: bool)
    requires
        i < steps@.len(),
    ensures
        r == deps_done(steps_view(steps@), steps_view(steps@)[i as int], strs_view(done@)),
{
    let ghost sv = steps_view(steps@);
    let mut d: usize = 0;
    while d < steps[i].depends_on.len()
        invariant
            sv == steps_view(steps@),
            i < steps@.len(),
            d <= steps@[i as int].depends_on@.len(),
            forall|e: int|
                0 <= e < d && find_step_model(sv, #[trigger] sv[i as int].depends_on[e]) is Some
                    ==> seq_has_text(strs_view(done@), sv[i as int].depends_on[e]),
        decreases steps@[i as int].depends_on@.len() - d,
    {
        let dep = &steps[i].depends_on[d];
        assert(sv[i as int].depends_on[d as int] == dep@);
        if find_step_index(steps, dep).is_some() {
            if !contains_string(done, dep) {
                assert(find_step_model(sv, sv[i as int].depends_on[d as int]) is Some
                    && !seq_has_text(strs_view(done@), sv[i as int].depends_on[d as int]));
                return false;
            }
        }
        d = d + 1;
    }
    true
}

/// One peeling candidate: the first step whose id is its own (first
/// occurrence), is not yet peeled, and whose resolving dependencies are
/// all peeled.  `None` means the peeling is stalled.
fn pick_peelable(steps: &Vec<WorkflowStep>, done: &Vec<String>) -> (r: Option<usize>)
    ensures
        match r {
            Some(i) => i < steps@.len() && owns_id(steps_view(steps@), i as int) && !seq_has_text(
                strs_view(done@),
                steps_view(steps@)[i as int].id,
            ) && deps_done(steps_view(steps@), steps_view(steps@)[i as int], strs_view(done@)),
            None => stalled(steps_view(steps@), strs_view(done@)),
        },
{
    let ghost sv = steps_view(steps@);
    let mut i: usize = 0;
    while i < steps.len()
        invariant
            sv == steps_view(steps@),
            i <= steps@.len(),
            forall|k: int|
                0 <= k < i && #[trigger] owns_id(sv, k) && !seq_has_text(strs_view(done@), sv[k].id)
                    ==> !deps_done(sv, sv[k], strs_view(done@)),
        decreases steps@.len() - i,
    {
        if !contains_string(done, &steps[i].id) {
            let owner = find_step_index(steps, &steps[i].id);
            let is_own = match owner {
                Some(j) => j == i,
                None => false,
            };
            if is_own {
                if deps_all_done(steps, i, done) {
                    assert(owns_id(sv, i as int));
                    return Some(i);
                }
            }
            proof {
                // either an earlier index owns this id and was already
                // found unpeelable with the same dependencies, or this
                // index owns it and its dependencies are not done
                if owns_id(sv, i as int) {
                    match owner {
                        Some(j) => {
                            if j != i {
                                assert(Some(sv[j as int]) == find_step_model(sv, sv[i as int].id));
                                assert(sv[j as int] == sv[i as int]);
                                assert(owns_id(sv, j as int));
                                assert((j as int) < i as int);
                                assert(!deps_done(sv, sv[j as int], strs_view(done@)));
                            }
                        },
                        None => {
                            assert(find_step_model(sv, sv[i as int].id) is None);
                            assert(false);
                        },
                    }
                }
            }
        }
        assert(sv[i as int].id == steps@[i as int]@.id);
        i = i + 1;
    }
    None
}

/// The first step in workflow order from which a dependency walk can
/// revisit a node, or `None` when no step reaches a cycle.
pub fn first_cycle_origin(steps: &Vec<WorkflowStep>) -> (r: Option<usize>)
    ensures
        match r {
            Some(i) => i < steps@.len() && reaches_cycle(
                steps_view(steps@),
                steps_view(steps@)[i as int].id,
            ) && forall|j: int|
                0 <= j < i ==> !reaches_cycle(
                    steps_view(steps@),
                    (#[trigger] steps_view(steps@)[j]).id,
                ),
            None => forall|j: int|
                0 <= j < steps@.len() ==> !reaches_cycle(
                    steps_view(steps@),
                    (#[trigger] steps_view(steps@)[j]).id,
                ),
        },
{
    let ghost sv = steps_view(steps@);
    let mut done: Vec<String> = Vec::new();
    let mut progress = true;
    proof {
        assert(strs_view(done@) =~= Seq::<Seq<char>>::empty());
    }
    while progress
        invariant
            sv == steps_view(steps@),
            peel_order(sv, strs_view(done@)),
            done@.len() <= steps@.len(),
            !progress ==> stalled(sv, strs_view(done@)),
        decreases steps@.len() - done@.len(), (if progress {
            1int
        } else {
            0int
        }),
    {
        let ghost done0 = strs_view(done@);
        match pick_peelable(steps, &done) {
            Some(i) => {
                done.push(steps[i].id.clone());
                proof {
                    let dnew = strs_view(done@);
                    let id = sv[i as int].id;
                    assert(dnew =~= done0.push(id));
                    assert(find_step_model(sv, id) == Some(sv[i as int]));
                    assert forall|k: int|
                        0 <= k < dnew.len() implies find_step_model(
                        sv,
                        #[trigger] dnew[k],
                    ) is Some by {
                        if k < done0.len() {
                            assert(dnew[k] == done0[k]);
                        } else {
                            assert(dnew[k] == id);
                        }
                    }
                    assert forall|k: int| 0 <= k < dnew.len() implies deps_done(
                        sv,
                        find_step_model(sv, #[trigger] dnew[k])->Some_0,
                        dnew.subrange(0, k),
                    ) by {
                        if k < done0.len() {
                            assert(dnew[k] == done0[k]);
                            assert(dnew.subrange(0, k) =~= done0.subrange(0, k));
                            assert(deps_done(
                                sv,
                                find_step_model(sv, done0[k])->Some_0,
                                done0.subrange(0, k),
                            ));
                        } else {
                            assert(dnew[k] == id);
                            assert(dnew.subrange(0, k) =~= done0);
                        }
                    }
                    assert(dnew.no_duplicates());
                    lemma_peel_len_bound(sv, dnew);
                }
            },
            None => {
                progress = false;
            },
        }
    }
    // the peeling is stalled: the first id left, if any, reaches a cycle
    let mut i: usize = 0;
    while i < steps.len()
        invariant
            sv == steps_view(steps@),
            peel_order(sv, strs_view(done@)),
            stalled(sv, strs_view(done@)),
            i <= steps@.len(),
            forall|j: int| 0 <= j < i ==> seq_has_text(strs_view(done@), (#[trigger] sv[j]).id),
        decreases steps@.len() - i,
    {
        if !contains_string(&done, &steps[i].id) {
            proof {
                lemma_id_resolves(sv, i as int);
                lemma_stalled_reaches(sv, strs_view(done@), sv[i as int].id);
                assert forall|j: int| 0 <= j < i implies !reaches_cycle(
                    sv,
                    (#[trigger] sv[j]).id,
                ) by {
                    lemma_peeled_safe(sv, strs_view(done@), sv[j].id);
                }
            }
            return Some(i);
        }
        assert(sv[i as int].id == steps@[i as int]@.id);
        i = i + 1;
    }
    proof {
        assert forall|j: int| 0 <= j < steps@.len() implies !reaches_cycle(
            sv,
            (#[trigger] sv[j]).id,
        ) by {
            lemma_peeled_safe(sv, strs_view(done@), sv[j].id);
        }
    }
    None
}

/// A peeling order cannot be longer than the step list.
proof fn lemma_peel_len_bound(steps: Seq<StepModel>, done: Seq<Seq<char>>)
    requires
        done.no_duplicates(),
        forall|k: int| 0 <= k < done.len() ==> find_step_model(steps, #[trigger] done[k]) is Some,
    ensures
        done.len() <= steps.len(),
{
    broadcast use vstd::seq_lib::seq_to_set_is_finite;

    let ids = step_ids(steps);
    done.unique_seq_to_set();
    assert forall|e: Seq<char>| done.to_set().contains(e) implies ids.to_set().contains(e) by {
        assert(done.contains(e));
        let k = choose|k: int| 0 <= k < done.len() && done[k] == e;
        assert(find_step_model(steps, done[k]) is Some);
        lemma_find_step_index(steps, e);
        let i = choose|i: int|
            0 <= i < steps.len() && (#[trigger] steps[i]).id == e && steps[i] == find_step_model(
                steps,
                e,
            )->Some_0;
        assert(ids[i] == e);
        assert(ids.contains(e));
    }
    vstd::set_lib::lemma_len_subset(done.to_set(), ids.to_set());
    ids.lemma_cardinality_of_set();
}


} // verus!
