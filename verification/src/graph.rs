//! The dependencies among models, and an order that respects them.

use vstd::prelude::*;

use crate::parser::{ModelView, NqlModel};
use crate::text;

verus! {

/// The models of a list in terms of characters.
pub open spec fn model_views(models: Seq<NqlModel>) -> Seq<ModelView> {
    models.map_values(|model: NqlModel| model@)
}

/// Whether no two models have the same name.
pub open spec fn distinct_names(models: Seq<ModelView>) -> bool {
    forall|i: int, j: int|
        0 <= i < j < models.len() ==> (#[trigger] models[i]).name != (#[trigger] models[j]).name
}

/// Whether the model `i` refers to the model `j`.
pub open spec fn depends(models: Seq<ModelView>, i: int, j: int) -> bool {
    &&& 0 <= i < models.len()
    &&& 0 <= j < models.len()
    &&& models[i].refs.contains(models[j].name)
}

/// Whether each model of a walk refers to the next one.
pub open spec fn is_walk(models: Seq<ModelView>, walk: Seq<int>) -> bool {
    &&& forall|k: int| 0 <= k < walk.len() ==> 0 <= #[trigger] walk[k] < models.len()
    &&& forall|k: int, l: int|
        0 <= k && l == k + 1 && l < walk.len() ==> depends(
            models,
            #[trigger] walk[k],
            #[trigger] walk[l],
        )
}

/// Whether a walk leads from the model `i` back to it.
pub open spec fn on_cycle(models: Seq<ModelView>, i: int) -> bool {
    exists|walk: Seq<int>| #[trigger]
        is_walk(models, walk) && walk.len() > 1 && walk.first() == i && walk.last() == i
}

/// Whether some model depends on itself, directly or through others.
pub open spec fn is_cyclic(models: Seq<ModelView>) -> bool {
    exists|i: int| #[trigger] on_cycle(models, i)
}

/// Whether the model `j` stands in `order` before the place `p`.
pub open spec fn comes_before(order: Seq<int>, j: int, p: int) -> bool {
    exists|q: int| 0 <= q < p && #[trigger] order[q] == j
}

/// Whether `order` names models, none twice, and each after those that it
/// refers to.
pub open spec fn respects_dependencies(models: Seq<ModelView>, order: Seq<int>) -> bool {
    &&& order.no_duplicates()
    &&& forall|p: int| 0 <= p < order.len() ==> 0 <= #[trigger] order[p] < models.len()
    &&& forall|p: int, j: int|
        0 <= p < order.len() && #[trigger] depends(models, order[p], j) ==> comes_before(
            order,
            j,
            p,
        )
}

/// How far the search has come with a model.
#[derive(Clone, Copy, PartialEq, Eq, Structural)]
pub enum Mark {
    /// The search has not come to the model.
    New,
    /// The search is among the models that the model refers to.
    Active,
    /// The model stands in the order.
    Done,
}

/// The models of an order, by number.
pub open spec fn numbers(order: Seq<usize>) -> Seq<int> {
    order.map_values(|i: usize| i as int)
}

/// The models that are done stand in an order that respects dependencies.
spec fn is_sound(models: Seq<ModelView>, marks: Seq<Mark>, order: Seq<int>) -> bool {
    &&& marks.len() == models.len()
    &&& respects_dependencies(models, order)
    &&& forall|i: int|
        0 <= i < marks.len() ==> ((#[trigger] marks[i]) == Mark::Done <==> order.contains(i))
}

/// The models that are active are those of the walk that leads to the search.
spec fn are_active(models: Seq<ModelView>, marks: Seq<Mark>, walk: Seq<int>) -> bool {
    &&& is_walk(models, walk)
    &&& forall|i: int|
        0 <= i < marks.len() ==> ((#[trigger] marks[i]) == Mark::Active <==> walk.contains(i))
}

/// The number of models that the search has not come to.
spec fn new_count(marks: Seq<Mark>) -> nat
    decreases marks.len(),
{
    if marks.len() == 0 {
        0
    } else {
        new_count(marks.drop_last()) + (if marks.last() == Mark::New {
            1nat
        } else {
            0nat
        })
    }
}

proof fn lemma_new_count(marks: Seq<Mark>, i: int, mark: Mark)
    requires
        0 <= i < marks.len(),
        mark != Mark::New,
    ensures
        new_count(marks.update(i, mark)) + (if marks[i] == Mark::New {
            1nat
        } else {
            0nat
        }) == new_count(marks),
    decreases marks.len(),
{
    let after = marks.update(i, mark);
    if i == marks.len() - 1 {
        assert(after.drop_last() == marks.drop_last());
    } else {
        assert(after.drop_last() == marks.drop_last().update(i, mark));
        lemma_new_count(marks.drop_last(), i, mark);
    }
}

/// The place of the first model named `name` from the place `i` on, or the
/// number of models where there is none.
pub open spec fn model_place(models: Seq<ModelView>, name: Seq<char>, i: int) -> int
    decreases models.len() - i,
{
    if 0 <= i < models.len() && models[i].name != name {
        model_place(models, name, i + 1)
    } else {
        i
    }
}

/// The model named `name`, where there is one.
pub open spec fn model_named(models: Seq<ModelView>, name: Seq<char>) -> Option<ModelView> {
    let i = model_place(models, name, 0);
    if i < models.len() {
        Some(models[i])
    } else {
        None
    }
}

/// The place of a model is the first one that has its name.
pub proof fn lemma_model_place(models: Seq<ModelView>, name: Seq<char>, i: int)
    requires
        0 <= i <= models.len(),
    ensures
        i <= model_place(models, name, i) <= models.len(),
        model_place(models, name, i) < models.len() ==> models[model_place(models, name, i)].name
            == name,
        forall|j: int|
            i <= j < model_place(models, name, i) ==> (#[trigger] models[j]).name != name,
    decreases models.len() - i,
{
    if i < models.len() && models[i].name != name {
        lemma_model_place(models, name, i + 1);
    }
}

/// Finds the model with a name.
pub fn find_model(models: &Vec<NqlModel>, name: &str) -> (res: Option<usize>)
    ensures
        match res {
            Some(i) => i < models@.len() && i == model_place(model_views(models@), name@, 0),
            None => models@.len() == model_place(model_views(models@), name@, 0),
        },
{
    let ghost views = model_views(models@);
    let mut i: usize = 0;
    while i < models.len()
        invariant
            views == model_views(models@),
            0 <= i <= models@.len(),
            model_place(views, name@, 0) == model_place(views, name@, i as int),
        decreases models@.len() - i,
    {
        assert(views[i as int] == models@[i as int]@);
        if text::same(models[i].name.as_str(), name) {
            return Some(i);
        }
        i += 1;
    }
    None
}

/// A walk that comes to one of its own models closes a cycle.
proof fn lemma_closes_cycle(models: Seq<ModelView>, walk: Seq<int>, i: int)
    requires
        is_walk(models, walk),
        walk.contains(i),
        depends(models, walk.last(), i),
    ensures
        on_cycle(models, i),
{
    let k = walk.index_of(i);
    let cycle = walk.skip(k).push(i);
    assert(cycle.first() == i);
    assert(cycle.last() == i);
    assert forall|a: int, b: int| 0 <= a && b == a + 1 && b < cycle.len() implies depends(
        models,
        #[trigger] cycle[a],
        #[trigger] cycle[b],
    ) by {
        if b < cycle.len() - 1 {
            assert(cycle[a] == walk[a + k]);
            assert(cycle[b] == walk[b + k]);
        }
    }
    assert(is_walk(models, cycle));
}

/// A walk grows by a model that its last one refers to.
proof fn lemma_walk_grows(models: Seq<ModelView>, walk: Seq<int>, i: int)
    requires
        is_walk(models, walk),
        0 <= i < models.len(),
        walk.len() > 0 ==> depends(models, walk.last(), i),
    ensures
        is_walk(models, walk.push(i)),
{
    let grown = walk.push(i);
    assert forall|a: int, b: int| 0 <= a && b == a + 1 && b < grown.len() implies depends(
        models,
        #[trigger] grown[a],
        #[trigger] grown[b],
    ) by {
        if b < walk.len() {
            assert(grown[a] == walk[a]);
            assert(grown[b] == walk[b]);
        }
    }
}

/// A model whose dependencies are all in the order can be added to it.
proof fn lemma_order_grows(models: Seq<ModelView>, order: Seq<int>, i: int)
    requires
        respects_dependencies(models, order),
        0 <= i < models.len(),
        !order.contains(i),
        forall|j: int| #[trigger] depends(models, i, j) ==> order.contains(j),
    ensures
        respects_dependencies(models, order.push(i)),
{
    let grown = order.push(i);
    assert forall|p: int, j: int|
        0 <= p < grown.len() && #[trigger] depends(models, grown[p], j) implies comes_before(
        grown,
        j,
        p,
    ) by {
        if p < order.len() {
            assert(comes_before(order, j, p));
            let q = choose|q: int| 0 <= q < p && #[trigger] order[q] == j;
            assert(grown[q] == j);
        } else {
            let q = order.index_of(j);
            assert(grown[q] == j);
        }
    }
}

/// Puts the model `i` into the order, after the models that it refers to: what
/// stands in the order stays, and the model ends it unless it stood there.
/// Fails with a model that depends on itself.
fn topo_sort(
    models: &Vec<NqlModel>,
    i: usize,
    marks: &mut Vec<Mark>,
    order: &mut Vec<usize>,
    Ghost(walk): Ghost<Seq<int>>,
) -> (res: Result<(), usize>)
    requires
        i < models@.len(),
        distinct_names(model_views(models@)),
        is_sound(model_views(models@), old(marks)@, numbers(old(order)@)),
        are_active(model_views(models@), old(marks)@, walk),
        walk.len() > 0 ==> depends(model_views(models@), walk.last(), i as int),
    ensures
        match res {
            Ok(_) => {
                &&& is_sound(model_views(models@), final(marks)@, numbers(final(order)@))
                &&& are_active(model_views(models@), final(marks)@, walk)
                &&& final(marks)@[i as int] == Mark::Done
                &&& old(order)@.is_prefix_of(final(order)@)
                &&& old(marks)@[i as int] == Mark::New ==> final(order)@.len() > old(order)@.len()
                    && final(order)@.last() == i
                &&& old(marks)@[i as int] == Mark::Done ==> final(order)@ == old(order)@
                    && final(marks)@ == old(marks)@
                &&& new_count(final(marks)@) <= new_count(old(marks)@)
                &&& forall|k: int|
                    0 <= k < old(marks)@.len() && old(marks)@[k] == Mark::Done
                        ==> #[trigger] final(marks)@[k] == Mark::Done
            },
            Err(c) => c < models@.len() && on_cycle(model_views(models@), c as int),
        },
    decreases new_count(old(marks)@),
{
    let ghost views = model_views(models@);
    let ghost start = marks@;
    match marks[i] {
        Mark::Active => {
            proof {
                lemma_closes_cycle(views, walk, i as int);
            }
            return Err(i);
        },
        Mark::Done => {
            return Ok(());
        },
        Mark::New => {},
    }
    let ghost here = walk.push(i as int);
    proof {
        lemma_walk_grows(views, walk, i as int);
        lemma_new_count(marks@, i as int, Mark::Active);
        assert(here.last() == i as int);
        assert forall|k: int| 0 <= k < marks@.len() implies (here.contains(k) <==> (
        walk.contains(k) || k == i)) by {
            if walk.contains(k) {
                let a = walk.index_of(k);
                assert(here[a] == k);
            }
            if k == i {
                assert(here[walk.len() as int] == k);
            }
        }
    }
    marks.set(i, Mark::Active);
    assert(models@[i as int]@ == views[i as int]);
    let refs = &models[i].refs;
    let mut k: usize = 0;
    while k < refs.len()
        invariant
            i < models@.len(),
            views == model_views(models@),
            refs@ == models@[i as int].refs@,
            views[i as int].refs == text::views(refs@),
            distinct_names(views),
            start.len() == models@.len(),
            here.len() > 0,
            here.last() == i as int,
            is_sound(views, marks@, numbers(order@)),
            are_active(views, marks@, here),
            old(order)@.is_prefix_of(order@),
            new_count(marks@) < new_count(start),
            0 <= k <= refs@.len(),
            start == old(marks)@,
            forall|a: int|
                0 <= a < start.len() && start[a] == Mark::Done ==> #[trigger] marks@[a]
                    == Mark::Done,
            forall|j: int|
                0 <= j < models@.len() && text::views(refs@).take(k as int).contains(
                    (#[trigger] views[j]).name,
                ) ==> marks@[j] == Mark::Done,
        decreases refs@.len() - k,
    {
        let ghost names = text::views(refs@);
        assert(names[k as int] == refs@[k as int]@);
        assert(names.take(k + 1) == names.take(k as int).push(names[k as int]));
        let found = find_model(models, refs[k].as_str());
        proof {
            lemma_model_place(views, names[k as int], 0);
        }
        match found {
            Some(j) => {
                proof {
                    assert(views[j as int] == models@[j as int]@);
                    assert(names.contains(views[j as int].name));
                    assert(depends(views, i as int, j as int));
                }
                let ghost before = marks@;
                let ghost order_then = order@;
                match topo_sort(models, j, marks, order, Ghost(here)) {
                    Ok(_) => {},
                    Err(c) => {
                        return Err(c);
                    },
                }
                proof {
                    lemma_prefix_of_prefix(old(order)@, order_then, order@);
                    assert forall|m: int|
                        0 <= m < models@.len() && names.take(k + 1).contains(
                            (#[trigger] views[m]).name,
                        ) implies marks@[m] == Mark::Done by {
                        lemma_contains_push(names.take(k as int), names[k as int], views[m].name);
                        if views[m].name == names[k as int] {
                            assert(m == j);
                        } else {
                            assert(before[m] == Mark::Done);
                        }
                    }
                }
            },
            None => {
                proof {
                    assert forall|m: int|
                        0 <= m < models@.len() && names.take(k + 1).contains(
                            (#[trigger] views[m]).name,
                        ) implies marks@[m] == Mark::Done by {
                        lemma_contains_push(names.take(k as int), names[k as int], views[m].name);
                    }
                }
            },
        }
        k += 1;
    }
    let ghost before = marks@;
    let ghost order_before = numbers(order@);
    proof {
        assert(text::views(refs@).take(refs@.len() as int) == text::views(refs@));
        assert(before[i as int] == Mark::Active) by {
            assert(here.contains(i as int)) by {
                assert(here[here.len() - 1] == i as int);
            }
        }
        assert forall|j: int| #[trigger] depends(views, i as int, j) implies order_before.contains(
            j,
        ) by {
            assert(views[j].name == views[j].name);
            assert(before[j] == Mark::Done);
        }
        lemma_order_grows(views, order_before, i as int);
        lemma_new_count(before, i as int, Mark::Done);
    }
    marks.set(i, Mark::Done);
    let ghost order_then = order@;
    order.push(i);
    proof {
        assert(order_then =~= order@.take(order_then.len() as int));
        lemma_prefix_of_prefix(old(order)@, order_then, order@);
        assert(numbers(order@) =~= order_before.push(i as int));
        assert forall|a: int| 0 <= a < marks@.len() implies ((#[trigger] marks@[a]) == Mark::Done
            <==> numbers(order@).contains(a)) by {
            lemma_contains_push(order_before, i as int, a);
            assert(a != i ==> marks@[a] == before[a]);
        }
        assert forall|a: int| 0 <= a < marks@.len() implies ((#[trigger] marks@[a]) == Mark::Active
            <==> walk.contains(a)) by {
            lemma_contains_push(walk, i as int, a);
            if a != i {
                assert(marks@[a] == before[a]);
            } else {
                assert(start[a] == Mark::New);
            }
        }
    }
    Ok(())
}

proof fn lemma_prefix_of_prefix<T>(a: Seq<T>, b: Seq<T>, c: Seq<T>)
    requires
        a.is_prefix_of(b),
        b.is_prefix_of(c),
    ensures
        a.is_prefix_of(c),
{
    assert(c.subrange(0, a.len() as int) =~= b.subrange(0, a.len() as int));
}

proof fn lemma_contains_push<T>(s: Seq<T>, a: T, b: T)
    ensures
        s.push(a).contains(b) <==> s.contains(b) || a == b,
{
    if s.contains(b) {
        let k = s.index_of(b);
        assert(s.push(a)[k] == b);
    }
    if a == b {
        assert(s.push(a)[s.len() as int] == b);
    }
    if s.push(a).contains(b) && a != b {
        let k = s.push(a).index_of(b);
        assert(s[k] == b);
    }
}

/// Where each model has a place in an order, models refer only to earlier ones:
/// along a walk the places go down.
proof fn lemma_walk_goes_down(
    models: Seq<ModelView>,
    order: Seq<int>,
    walk: Seq<int>,
    n: int,
    p: int,
    q: int,
)
    requires
        respects_dependencies(models, order),
        is_walk(models, walk),
        0 < n < walk.len(),
        0 <= p < order.len(),
        0 <= q < order.len(),
        order[p] == walk[0],
        order[q] == walk[n],
    ensures
        q < p,
    decreases n,
{
    let l = n - 1;
    assert(depends(models, walk[l], walk[n]));
    if l == 0 {
        assert(depends(models, order[p], walk[n]));
        let r = choose|r: int| 0 <= r < p && #[trigger] order[r] == walk[n];
        assert(r == q);
    } else {
        lemma_place_on_walk(models, order, walk, l, p);
        let m = choose|m: int| 0 <= m < order.len() && #[trigger] order[m] == walk[l];
        lemma_walk_goes_down(models, order, walk, l, p, m);
        assert(depends(models, order[m], walk[n]));
        let r = choose|r: int| 0 <= r < m && #[trigger] order[r] == walk[n];
        assert(r == q);
    }
}

/// Each model of a walk that begins in an order stands in it.
proof fn lemma_place_on_walk(
    models: Seq<ModelView>,
    order: Seq<int>,
    walk: Seq<int>,
    n: int,
    p: int,
)
    requires
        respects_dependencies(models, order),
        is_walk(models, walk),
        0 <= n < walk.len(),
        0 <= p < order.len(),
        order[p] == walk[0],
    ensures
        exists|m: int| 0 <= m < order.len() && #[trigger] order[m] == walk[n],
    decreases n,
{
    if n > 0 {
        let l = n - 1;
        lemma_place_on_walk(models, order, walk, l, p);
        let m = choose|m: int| 0 <= m < order.len() && #[trigger] order[m] == walk[l];
        assert(depends(models, walk[l], walk[n]));
        assert(depends(models, order[m], walk[n]));
        assert(comes_before(order, walk[n], m));
    }
}

/// Where every model stands in an order that respects dependencies, none
/// depends on itself.
pub proof fn law_ordered_is_acyclic(models: Seq<ModelView>, order: Seq<int>)
    requires
        respects_dependencies(models, order),
        forall|i: int| 0 <= i < models.len() ==> order.contains(i),
    ensures
        !is_cyclic(models),
{
    if is_cyclic(models) {
        let i = choose|i: int| #[trigger] on_cycle(models, i);
        let walk = choose|walk: Seq<int>| #[trigger]
            is_walk(models, walk) && walk.len() > 1 && walk.first() == i && walk.last() == i;
        assert(0 <= walk[0] < models.len());
        assert(order.contains(i));
        let p = choose|p: int| 0 <= p < order.len() && order[p] == i;
        lemma_walk_goes_down(models, order, walk, walk.len() - 1, p, p);
    }
}

/// Orders the models so that each comes after those that it refers to. Fails
/// with a model that depends on itself.
pub fn order_models(models: &Vec<NqlModel>) -> (res: Result<Vec<usize>, usize>)
    requires
        distinct_names(model_views(models@)),
    ensures
        match res {
            Ok(order) => {
                &&& respects_dependencies(model_views(models@), numbers(order@))
                &&& order@.len() == models@.len()
                &&& forall|i: int| 0 <= i < models@.len() ==> numbers(order@).contains(i)
                &&& !is_cyclic(model_views(models@))
            },
            Err(c) => c < models@.len() && on_cycle(model_views(models@), c as int),
        },
{
    let ghost views = model_views(models@);
    let mut marks: Vec<Mark> = Vec::new();
    let mut order: Vec<usize> = Vec::new();
    let mut i: usize = 0;
    while i < models.len()
        invariant
            0 <= i <= models@.len(),
            marks@.len() == i,
            forall|k: int| 0 <= k < i ==> #[trigger] marks@[k] == Mark::New,
        decreases models@.len() - i,
    {
        marks.push(Mark::New);
        i += 1;
    }
    let ghost nowhere = Seq::<int>::empty();
    assert(numbers(order@) =~= Seq::empty());
    let mut i: usize = 0;
    while i < models.len()
        invariant
            views == model_views(models@),
            distinct_names(views),
            0 <= i <= models@.len(),
            nowhere == Seq::<int>::empty(),
            is_sound(views, marks@, numbers(order@)),
            are_active(views, marks@, nowhere),
            forall|k: int| 0 <= k < i ==> #[trigger] marks@[k] == Mark::Done,
        decreases models@.len() - i,
    {
        match topo_sort(models, i, &mut marks, &mut order, Ghost(nowhere)) {
            Ok(_) => {},
            Err(c) => {
                return Err(c);
            },
        }
        i += 1;
    }
    proof {
        let placed = numbers(order@);
        assert forall|k: int| 0 <= k < models@.len() implies placed.contains(k) by {
            assert(marks@[k] == Mark::Done);
        }
        law_ordered_is_acyclic(views, placed);
        lemma_full_order(placed, models@.len() as int);
    }
    Ok(order)
}

/// An order that holds each of the first `n` numbers once has `n` places.
proof fn lemma_full_order(order: Seq<int>, n: int)
    requires
        0 <= n,
        order.no_duplicates(),
        forall|p: int| 0 <= p < order.len() ==> 0 <= #[trigger] order[p] < n,
        forall|i: int| 0 <= i < n ==> order.contains(i),
    ensures
        order.len() == n,
{
    let all = Seq::new(n as nat, |i: int| i);
    assert(all.no_duplicates());
    assert(order.to_set() =~= all.to_set()) by {
        assert forall|i: int| order.to_set().contains(i) <==> all.to_set().contains(i) by {
            if 0 <= i < n {
                assert(all[i] == i);
                assert(order.contains(i));
            }
        }
    }
    order.unique_seq_to_set();
    all.unique_seq_to_set();
}

}
