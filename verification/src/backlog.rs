//! What the reconciler does to the store and the two indexes, in the model
//! of the catalog: which recipes a cycle takes on, what a cycle leaves
//! behind, and how many cycles a recipe waits at most.

use crate::catalog::{later_answers, marked, next_answer, Answer, Catalog};
use crate::hybrid_search::{first_at_most, spec_document_id};
use crate::model::RecipeWithIdView;
use crate::recipe_service::RecipeRepView;
use crate::reconciler::{
    batch_documents, batch_plain_keys, batch_points, cycle_goes_on, reconciler_step,
    ReconcilerActionView, ReconcilerEventView, ReconcilerView, BATCH_SIZE,
};
use crate::search_indexer::{ContextErrorView, TaskReport, VectorPointView};
use vstd::prelude::*;

verus! {

/// The keys under `bound` of the recipes that are not marked as indexed, in
/// ascending order.
pub open spec fn dirty_keys_below(rows: Map<i64, RecipeRepView>, bound: int) -> Seq<i64>
    decreases bound - i64::MIN,
{
    if bound <= i64::MIN || bound > i64::MAX + 1 {
        Seq::empty()
    } else {
        let key = (bound - 1) as i64;
        let below = dirty_keys_below(rows, bound - 1);
        if rows.contains_key(key) && !rows[key].searchable {
            below.push(key)
        } else {
            below
        }
    }
}

/// The keys of all recipes that are not marked as indexed, in ascending
/// order.
pub open spec fn dirty_keys(rows: Map<i64, RecipeRepView>) -> Seq<i64> {
    dirty_keys_below(rows, i64::MAX + 1)
}

/// The keys of the batch that a cycle takes on: the `size` smallest keys of
/// recipes that are not marked, or all of them where there are no more.
pub open spec fn batch_keys(rows: Map<i64, RecipeRepView>, size: int) -> Seq<i64> {
    first_at_most(dirty_keys(rows), size)
}

/// The batch that a cycle takes on, in ascending order of the keys.
pub open spec fn batch(rows: Map<i64, RecipeRepView>, size: int) -> Seq<RecipeRepView> {
    batch_keys(rows, size).map_values(|key: i64| rows[key])
}

/// How many recipes with a key up to `id` are not marked as indexed: the
/// recipe under `id`, if it is one of them, and those that a cycle takes on
/// before it.
pub open spec fn backlog(catalog: Catalog, id: i64) -> nat {
    dirty_keys_below(catalog.rows, id + 1).len()
}

/// The rows with those under `keys` marked as indexed.
pub open spec fn marked_rows(rows: Map<i64, RecipeRepView>, keys: Seq<i64>) -> Map<
    i64,
    RecipeRepView,
> {
    Map::new(
        |key: i64| rows.contains_key(key),
        |key: i64|
            if keys.contains(key) {
                marked(rows[key])
            } else {
                rows[key]
            },
    )
}

/// The lexical index with the recipes put into it, each under its key.
pub open spec fn with_documents(
    lexical: Map<i64, RecipeWithIdView>,
    documents: Seq<RecipeWithIdView>,
) -> Map<i64, RecipeWithIdView>
    decreases documents.len(),
{
    if documents.len() == 0 {
        lexical
    } else {
        with_documents(lexical, documents.drop_last()).insert(
            documents.last().id,
            documents.last(),
        )
    }
}

/// The vector index with the points put into it, each under its key.
pub open spec fn with_points(vector: Map<u64, VectorPointView>, points: Seq<VectorPointView>) -> Map<
    u64,
    VectorPointView,
>
    decreases points.len(),
{
    if points.len() == 0 {
        vector
    } else {
        with_points(vector.insert(points[0].id, points[0]), points.drop_first())
    }
}

/// The keys of the recipes that the points stand for.
pub open spec fn point_documents(points: Seq<VectorPointView>) -> Seq<i64> {
    points.map_values(|p: VectorPointView| spec_document_id(p.id))
}

/// What a call of the reconciler does to the catalog, and what comes back.
/// (Of `Sleep`, which is a rest: nothing, and the end of the rest.)
pub open spec fn reconciler_call(catalog: Catalog, action: ReconcilerActionView, answer: Answer) -> (
    Catalog,
    ReconcilerEventView,
) {
    match action {
        ReconcilerActionView::SelectBatch { batch_size } => match answer {
            Answer::Done => (
                catalog,
                ReconcilerEventView::Selected(Ok(batch(catalog.rows, batch_size as int))),
            ),
            _ => (
                catalog,
                ReconcilerEventView::Selected(
                    Err(crate::recipe_service::ErrorView::DB(answer.report())),
                ),
            ),
        },
        ReconcilerActionView::Commit => match answer {
            Answer::Done => (catalog, ReconcilerEventView::Committed(Ok(()))),
            _ => (
                catalog,
                ReconcilerEventView::Committed(
                    Err(crate::recipe_service::ErrorView::DB(answer.report())),
                ),
            ),
        },
        ReconcilerActionView::AddOrUpdate { documents } => match answer {
            Answer::Done => (
                Catalog { lexical: with_documents(catalog.lexical, documents), ..catalog },
                ReconcilerEventView::DocumentsAdded(Ok(TaskReport { failed: false })),
            ),
            Answer::Failed => (
                catalog,
                ReconcilerEventView::DocumentsAdded(Ok(TaskReport { failed: true })),
            ),
            Answer::Refused(m) => (catalog, ReconcilerEventView::DocumentsAdded(Err(m))),
        },
        ReconcilerActionView::UpsertPoint { point } => match answer {
            Answer::Done => (
                Catalog { vector: catalog.vector.insert(point.id, point), ..catalog },
                ReconcilerEventView::PointUpserted(Ok(())),
            ),
            _ => (catalog, ReconcilerEventView::PointUpserted(Err(answer.report()))),
        },
        ReconcilerActionView::SetBatchSearchable { ids } => match answer {
            Answer::Done => (
                Catalog { rows: marked_rows(catalog.rows, ids), ..catalog },
                ReconcilerEventView::Marked(Ok(())),
            ),
            _ => (
                catalog,
                ReconcilerEventView::Marked(
                    Err(crate::recipe_service::ErrorView::DB(answer.report())),
                ),
            ),
        },
        ReconcilerActionView::Sleep { .. } => (catalog, ReconcilerEventView::Woke),
    }
}

/// Runs the reconciler from where it stands until it rests, or for `calls`
/// calls: each call is answered as `answers` says, in their order. Gives the
/// catalog as it is left.
pub open spec fn reconciler_run(
    catalog: Catalog,
    state: ReconcilerView,
    action: ReconcilerActionView,
    answers: Seq<Answer>,
    calls: nat,
) -> Catalog
    decreases calls,
{
    match action {
        ReconcilerActionView::Sleep { .. } => catalog,
        _ => if calls == 0 {
            catalog
        } else {
            let (after_call, event) = reconciler_call(catalog, action, next_answer(answers));
            let (next_state, next_action) = reconciler_step(state, event);
            reconciler_run(
                after_call,
                next_state,
                next_action,
                later_answers(answers),
                (calls - 1) as nat,
            )
        },
    }
}

/// One cycle of the reconciler, from waking to the next rest. A cycle makes
/// three calls and one for each point at most.
pub open spec fn cycle(catalog: Catalog, answers: Seq<Answer>) -> Catalog {
    let (state, action) = reconciler_step(ReconcilerView::Idle, ReconcilerEventView::Woke);
    reconciler_run(catalog, state, action, answers, (BATCH_SIZE + 3) as nat)
}

/// `count` cycles in which no call fails.
pub open spec fn cycles(catalog: Catalog, count: nat) -> Catalog
    decreases count,
{
    if count == 0 {
        catalog
    } else {
        cycles(cycle(catalog, Seq::empty()), (count - 1) as nat)
    }
}

/// What a cycle leaves behind in which no call fails.
pub open spec fn cycle_result(catalog: Catalog) -> Catalog {
    let taken = batch(catalog.rows, BATCH_SIZE as int);
    Catalog {
        rows: marked_rows(catalog.rows, batch_keys(catalog.rows, BATCH_SIZE as int)),
        lexical: with_documents(catalog.lexical, batch_documents(taken)),
        vector: with_points(catalog.vector, batch_points(taken)),
    }
}

/// The keys under a bound are in ascending order, each under the bound, and
/// they are the keys of the recipes under the bound that are not marked.
pub proof fn lemma_dirty_keys_below(rows: Map<i64, RecipeRepView>, bound: int)
    requires
        bound <= i64::MAX + 1,
    ensures
        forall|i: int, j: int|
            0 <= i < j < dirty_keys_below(rows, bound).len() ==> dirty_keys_below(rows, bound)[i]
                < dirty_keys_below(rows, bound)[j],
        forall|i: int|
            0 <= i < dirty_keys_below(rows, bound).len() ==> {
                let key = #[trigger] dirty_keys_below(rows, bound)[i];
                key < bound && rows.contains_key(key) && !rows[key].searchable
            },
        forall|key: i64|
            key < bound && rows.contains_key(key) && !rows[key].searchable ==> dirty_keys_below(
                rows,
                bound,
            ).contains(key),
    decreases bound - i64::MIN,
{
    if bound <= i64::MIN {
    } else {
        lemma_dirty_keys_below(rows, bound - 1);
        let below = dirty_keys_below(rows, bound - 1);
        let here = dirty_keys_below(rows, bound);
        let last = (bound - 1) as i64;
        assert forall|key: i64|
            key < bound && rows.contains_key(key) && !rows[key].searchable implies here.contains(
            key,
        ) by {
            if key == last {
                assert(here[here.len() - 1] == key);
            } else {
                assert(below.contains(key));
                let i = choose|i: int| 0 <= i < below.len() && below[i] == key;
                assert(here[i] == key);
            }
        }
    }
}

/// The keys under a bound are the first of the keys under any larger bound.
pub proof fn lemma_dirty_keys_prefix(rows: Map<i64, RecipeRepView>, low: int, high: int)
    requires
        low <= high <= i64::MAX + 1,
    ensures
        dirty_keys_below(rows, low).len() <= dirty_keys_below(rows, high).len(),
        dirty_keys_below(rows, low) == dirty_keys_below(rows, high).subrange(
            0,
            dirty_keys_below(rows, low).len() as int,
        ),
    decreases high - low,
{
    if low == high {
        assert(dirty_keys_below(rows, low) =~= dirty_keys_below(rows, high).subrange(
            0,
            dirty_keys_below(rows, low).len() as int,
        ));
    } else {
        lemma_dirty_keys_prefix(rows, low, high - 1);
        if high <= i64::MIN {
            assert(dirty_keys_below(rows, low) =~= dirty_keys_below(rows, high));
        }
        assert(dirty_keys_below(rows, low) =~= dirty_keys_below(rows, high).subrange(
            0,
            dirty_keys_below(rows, low).len() as int,
        ));
    }
}

/// What is left of `s` without its first `count` items.
pub open spec fn without_first<T>(s: Seq<T>, count: int) -> Seq<T> {
    if s.len() <= count {
        Seq::empty()
    } else {
        s.subrange(count, s.len() as int)
    }
}

/// Once the batch is marked, the recipes that are not marked are those that
/// were not marked before, less the batch: under every bound, the first
/// `size` keys are gone.
pub proof fn lemma_dirty_keys_after_batch(rows: Map<i64, RecipeRepView>, size: int, bound: int)
    requires
        size >= 0,
        bound <= i64::MAX + 1,
    ensures
        dirty_keys_below(marked_rows(rows, batch_keys(rows, size)), bound) == without_first(
            dirty_keys_below(rows, bound),
            size,
        ),
    decreases bound - i64::MIN,
{
    let taken = batch_keys(rows, size);
    let after = marked_rows(rows, taken);
    if bound <= i64::MIN {
    } else {
        lemma_dirty_keys_after_batch(rows, size, bound - 1);
        let key = (bound - 1) as i64;
        let below = dirty_keys_below(rows, bound - 1);
        let here = dirty_keys_below(rows, bound);
        let all = dirty_keys(rows);
        if rows.contains_key(key) && !rows[key].searchable {
            lemma_dirty_keys_prefix(rows, bound, i64::MAX + 1);
            lemma_dirty_keys_below(rows, i64::MAX + 1);
            let at = below.len() as int;
            assert(here[at] == key);
            assert(all[at] == key);
            if at < size {
                assert(taken[at] == key);
                assert(taken.contains(key));
                assert(after[key].searchable);
                assert(without_first(here, size) =~= without_first(below, size));
            } else {
                if taken.contains(key) {
                    let i = choose|i: int| 0 <= i < taken.len() && taken[i] == key;
                    assert(all[i] == key);
                    assert(i < at);
                    assert(all[i] < all[at]);
                }
                assert(!after[key].searchable);
                assert(without_first(here, size) =~= without_first(below, size).push(key));
            }
        } else {
            assert(after.contains_key(key) ==> after[key].searchable);
        }
    }
}

/// What a batch holds: the rows under the batch's keys, which stand where
/// their keys stand.
pub proof fn lemma_batch_rows(catalog: Catalog, size: int)
    requires
        catalog.well_formed(),
        size >= 0,
    ensures
        batch(catalog.rows, size).len() == batch_keys(catalog.rows, size).len(),
        forall|i: int|
            0 <= i < batch(catalog.rows, size).len() ==> (#[trigger] batch(catalog.rows, size)[i]).id
                == batch_keys(catalog.rows, size)[i],
{
    lemma_dirty_keys_below(catalog.rows, i64::MAX + 1);
    let keys = batch_keys(catalog.rows, size);
    assert forall|i: int| 0 <= i < batch(catalog.rows, size).len() implies (#[trigger] batch(
        catalog.rows,
        size,
    )[i]).id == keys[i] by {
        let all = dirty_keys(catalog.rows);
        assert(keys[i] == all[i]);
        assert(catalog.rows.contains_key(all[i]));
    }
}

/// The recipes of a batch that need no point and those that its points
/// stand for are, together, the recipes of the batch.
pub proof fn lemma_batch_is_plain_and_pointed(rows: Seq<RecipeRepView>, key: i64)
    ensures
        (batch_plain_keys(rows) + point_documents(batch_points(rows))).contains(key) <==> exists|
            i: int,
        |
            0 <= i < rows.len() && (#[trigger] rows[i]).id == key,
    decreases rows.len(),
{
    let plain = batch_plain_keys(rows);
    let pointed = point_documents(batch_points(rows));
    if rows.len() == 0 {
        assert(!(plain + pointed).contains(key));
    } else {
        let head = rows.drop_last();
        let last = rows.last();
        lemma_batch_is_plain_and_pointed(head, key);
        let head_plain = batch_plain_keys(head);
        let head_pointed = point_documents(batch_points(head));
        match last.embedding {
            Some(vector) => {
                assert(plain == head_plain);
                assert(pointed =~= head_pointed.push(last.id));
            },
            None => {
                assert(plain == head_plain.push(last.id));
                assert(pointed == head_pointed);
            },
        }
        if (plain + pointed).contains(key) {
            let i = choose|i: int| 0 <= i < (plain + pointed).len() && (plain + pointed)[i] == key;
            if key != last.id {
                if i < plain.len() {
                    assert(head_plain[i] == key);
                    assert((head_plain + head_pointed)[i] == key);
                } else {
                    assert(head_pointed[i - plain.len()] == key);
                    assert((head_plain + head_pointed)[head_plain.len() + i - plain.len()] == key);
                }
                let j = choose|j: int| 0 <= j < head.len() && (#[trigger] head[j]).id == key;
                assert(rows[j].id == key);
            } else {
                assert(rows[rows.len() - 1].id == key);
            }
        }
        if exists|i: int| 0 <= i < rows.len() && (#[trigger] rows[i]).id == key {
            let i = choose|i: int| 0 <= i < rows.len() && (#[trigger] rows[i]).id == key;
            if i < rows.len() - 1 {
                assert(head[i].id == key);
                let j = choose|j: int|
                    0 <= j < (head_plain + head_pointed).len() && (head_plain + head_pointed)[j]
                        == key;
                if j < head_plain.len() {
                    assert(plain[j] == key);
                    assert((plain + pointed)[j] == key);
                } else {
                    assert(pointed[j - head_plain.len()] == key);
                    assert((plain + pointed)[plain.len() + j - head_plain.len()] == key);
                }
            } else {
                match last.embedding {
                    Some(vector) => {
                        assert(pointed[pointed.len() - 1] == key);
                        assert((plain + pointed)[plain.len() + pointed.len() - 1] == key);
                    },
                    None => {
                        assert(plain[plain.len() - 1] == key);
                        assert((plain + pointed)[plain.len() - 1] == key);
                    },
                }
            }
        }
    }
}

/// Once the lexical index took the batch and no call fails after that, the
/// points still to be written are written, and the recipes they stand for
/// are marked together with those that were written before.
pub proof fn lemma_points_are_written(
    catalog: Catalog,
    points: Seq<VectorPointView>,
    written: Seq<i64>,
    calls: nat,
)
    requires
        calls > points.len(),
    ensures
        ({
            let (state, action) = cycle_goes_on(points, written, Seq::empty());
            reconciler_run(catalog, state, action, Seq::empty(), calls) == Catalog {
                rows: marked_rows(catalog.rows, written + point_documents(points)),
                lexical: catalog.lexical,
                vector: with_points(catalog.vector, points),
            }
        }),
    decreases points.len(),
{
    let none = Seq::<Answer>::empty();
    let no_failures = Seq::<ContextErrorView>::empty();
    let (state, action) = cycle_goes_on(points, written, no_failures);
    assert(later_answers(none) == none);
    reveal_with_fuel(reconciler_run, 3);
    if points.len() == 0 {
        assert(written + point_documents(points) =~= written);
    } else {
        let current = spec_document_id(points[0].id);
        let rest = points.drop_first();
        let after_call = Catalog {
            vector: catalog.vector.insert(points[0].id, points[0]),
            ..catalog
        };
        lemma_points_are_written(after_call, rest, written.push(current), (calls - 1) as nat);
        assert(written.push(current) + point_documents(rest) =~= written + point_documents(points));
    }
}

/// A cycle in which no call fails gives the batch to the lexical index,
/// gives the vector index the points of the batch, and marks the batch.
/// Nothing else is touched.
pub proof fn lemma_cycle_without_failure(catalog: Catalog)
    requires
        catalog.well_formed(),
    ensures
        cycle(catalog, Seq::empty()) == cycle_result(catalog),
        cycle_result(catalog).well_formed(),
{
    let none = Seq::<Answer>::empty();
    let size = BATCH_SIZE as int;
    let keys = batch_keys(catalog.rows, size);
    let taken = batch(catalog.rows, size);
    assert(later_answers(none) == none);
    reveal_with_fuel(reconciler_run, 4);
    lemma_batch_rows(catalog, size);
    let result = cycle_result(catalog);
    if taken.len() == 0 {
        assert(keys.len() == 0);
        assert(marked_rows(catalog.rows, keys) =~= catalog.rows);
        assert(batch_documents(taken) =~= Seq::empty());
        assert(cycle(catalog, none) == result);
    } else {
        let documents = batch_documents(taken);
        let points = batch_points(taken);
        let plain = batch_plain_keys(taken);
        let after_documents = Catalog {
            lexical: with_documents(catalog.lexical, documents),
            ..catalog
        };
        lemma_batch_points_count(taken);
        lemma_points_are_written(after_documents, points, plain, (BATCH_SIZE + 1) as nat);
        let ids = plain + point_documents(points);
        assert forall|key: i64| ids.contains(key) <==> keys.contains(key) by {
            lemma_batch_is_plain_and_pointed(taken, key);
            if keys.contains(key) {
                let i = choose|i: int| 0 <= i < keys.len() && keys[i] == key;
                assert(taken[i].id == key);
            }
            if ids.contains(key) {
                let i = choose|i: int| 0 <= i < taken.len() && (#[trigger] taken[i]).id == key;
                assert(keys[i] == key);
            }
        }
        assert(marked_rows(catalog.rows, ids) =~= marked_rows(catalog.rows, keys));
        assert(cycle(catalog, none) == result);
    }
    assert(result.well_formed());
}

/// A batch has no more points than recipes, and no more recipes than the
/// size of a batch.
pub proof fn lemma_batch_points_count(rows: Seq<RecipeRepView>)
    ensures
        batch_points(rows).len() <= rows.len(),
    decreases rows.len(),
{
    if rows.len() > 0 {
        lemma_batch_points_count(rows.drop_last());
    }
}

/// A cycle in which no call fails marks a recipe that waits, or takes a full
/// batch off the recipes that wait before it. A recipe that is marked stays
/// marked.
pub proof fn lemma_cycle_takes_a_batch(catalog: Catalog, id: i64)
    requires
        catalog.well_formed(),
        catalog.rows.contains_key(id),
    ensures
        ({
            let after = cycle(catalog, Seq::empty());
            &&& after.well_formed()
            &&& after.rows.contains_key(id)
            &&& catalog.is_marked(id) ==> after.is_marked(id)
            &&& backlog(catalog, id) <= BATCH_SIZE ==> after.is_marked(id)
            &&& backlog(catalog, id) > BATCH_SIZE ==> backlog(after, id) == backlog(catalog, id)
                - BATCH_SIZE
        }),
{
    let size = BATCH_SIZE as int;
    lemma_cycle_without_failure(catalog);
    let after = cycle(catalog, Seq::empty());
    let keys = batch_keys(catalog.rows, size);
    lemma_dirty_keys_after_batch(catalog.rows, size, id + 1);
    if catalog.is_dirty(id) && backlog(catalog, id) <= BATCH_SIZE {
        let here = dirty_keys_below(catalog.rows, id + 1);
        lemma_dirty_keys_prefix(catalog.rows, id + 1, i64::MAX + 1);
        assert(here[here.len() - 1] == id);
        let at = here.len() - 1;
        assert(dirty_keys(catalog.rows)[at] == id);
        assert(keys[at] == id);
        assert(keys.contains(id));
    }
}

/// A recipe that waits is marked after a bounded number of cycles: where no
/// call fails and the store is not changed from elsewhere, after `count`
/// cycles every recipe is marked that had no more than `count` batches of
/// recipes waiting up to it. A recipe that no notification announced needs
/// no more.
pub proof fn lemma_backlog_is_cleared(catalog: Catalog, id: i64, count: nat)
    requires
        catalog.well_formed(),
        catalog.rows.contains_key(id),
        backlog(catalog, id) <= count * BATCH_SIZE,
    ensures
        cycles(catalog, count).is_marked(id),
    decreases count,
{
    if count == 0 {
        assert(backlog(catalog, id) == 0);
        if catalog.is_dirty(id) {
            assert(dirty_keys_below(catalog.rows, id + 1).len() > 0);
        }
    } else {
        lemma_cycle_takes_a_batch(catalog, id);
        let after = cycle(catalog, Seq::empty());
        if after.is_marked(id) {
            lemma_dirty_keys_below(after.rows, id + 1);
            lemma_marked_has_no_backlog_need(after, id, (count - 1) as nat);
        } else {
            assert(backlog(after, id) <= (count - 1) * BATCH_SIZE) by (nonlinear_arith)
                requires
                    backlog(after, id) == backlog(catalog, id) - BATCH_SIZE,
                    backlog(catalog, id) <= count * BATCH_SIZE,
                    count >= 1,
            ;
            lemma_backlog_is_cleared(after, id, (count - 1) as nat);
        }
    }
}

/// A recipe that is marked stays marked through any number of cycles.
pub proof fn lemma_marked_has_no_backlog_need(catalog: Catalog, id: i64, count: nat)
    requires
        catalog.well_formed(),
        catalog.is_marked(id),
    ensures
        cycles(catalog, count).is_marked(id),
    decreases count,
{
    if count > 0 {
        lemma_cycle_takes_a_batch(catalog, id);
        lemma_marked_has_no_backlog_need(cycle(catalog, Seq::empty()), id, (count - 1) as nat);
    }
}

} // verus!
