//! The index writer and the reconciler at work at the same time.
//!
//! Both read the rows they work on under a lock that the store keeps until
//! their transaction ends, and the store makes a reader wait for a row that
//! another transaction has locked. This module adds those locks to the model
//! of the catalog and lets the two machines take turns in any order, with
//! any call failing. What is proved holds after every turn of every such
//! run.

use crate::backlog::{
    batch, batch_keys, lemma_batch_rows, lemma_dirty_keys_below, point_documents, reconciler_call,
    with_documents,
};
use crate::catalog::{marked, writer_call, Answer, Catalog};
use crate::hybrid_search::{spec_document_id, spec_point_key};
use crate::model::RecipeWithIdView;
use crate::recipe_service::RecipeRepView;
use crate::reconciler::{
    batch_documents, batch_plain_keys, batch_points, reconciler_step, ReconcilerActionView,
    ReconcilerView, BATCH_SIZE,
};
use crate::search_indexer::{
    point_of, writer_step, IndexWriterView, VectorPointView, WriterActionView,
};
use vstd::prelude::*;

verus! {

/// Who works on a row.
pub enum Task {
    /// The index writer, set to work by a notification.
    Listener,
    /// The reconciler.
    Reconciler,
}

/// The catalog, the locks on its rows, and where the two machines stand:
/// each with the call it asked for last, which is still to be made.
#[verifier::ext_equal]
pub struct System {
    pub catalog: Catalog,
    /// Whose transaction has locked which row.
    pub locks: Map<i64, Task>,
    pub writer: IndexWriterView,
    pub asked: WriterActionView,
    pub reconciler: ReconcilerView,
    pub wanted: ReconcilerActionView,
    /// The batch of the reconciler's present cycle.
    pub taken: Seq<RecipeRepView>,
}

/// One step of a run.
pub enum Turn {
    /// A notification sets the index writer to work on a recipe.
    Begin(i64),
    /// The call that the index writer asked for is made, with this answer.
    Writer(Answer),
    /// The call that the reconciler asked for is made, with this answer.
    Reconciler(Answer),
}

/// Whether `task` has locked the row under `id`.
pub open spec fn locked_by(locks: Map<i64, Task>, id: i64, task: Task) -> bool {
    locks.contains_key(id) && locks[id] == task
}

/// The locks without those of `task`, whose transaction has ended.
pub open spec fn release(locks: Map<i64, Task>, task: Task) -> Map<i64, Task> {
    Map::new(|id: i64| locks.contains_key(id) && locks[id] != task, |id: i64| locks[id])
}

/// The locks with the rows under `keys` locked by `task`.
pub open spec fn lock_all(locks: Map<i64, Task>, keys: Seq<i64>, task: Task) -> Map<i64, Task> {
    Map::new(
        |id: i64| locks.contains_key(id) || keys.contains(id),
        |id: i64|
            if keys.contains(id) {
                task
            } else {
                locks[id]
            },
    )
}

/// Whether the turn can be taken: the index writer is set to work only when
/// it is at rest, a call is made only when one is asked for, and a read
/// under lock waits while the other machine has locked a row that it would
/// read.
pub open spec fn enabled(s: System, turn: Turn) -> bool {
    match turn {
        Turn::Begin(_) => s.asked is Finish,
        Turn::Writer(answer) => match s.asked {
            WriterActionView::Finish { .. } => false,
            WriterActionView::LoadForUpdate { id } => !(answer is Done && locked_by(
                s.locks,
                id,
                Task::Reconciler,
            )),
            _ => true,
        },
        Turn::Reconciler(answer) => match s.wanted {
            ReconcilerActionView::SelectBatch { batch_size } => answer is Done ==> forall|i: int|
                0 <= i < batch_keys(s.catalog.rows, batch_size as int).len() ==> !locked_by(
                    s.locks,
                    #[trigger] batch_keys(s.catalog.rows, batch_size as int)[i],
                    Task::Listener,
                ),
            _ => true,
        },
    }
}

/// The system after the turn.
pub open spec fn take(s: System, turn: Turn) -> System {
    match turn {
        Turn::Begin(id) => System {
            writer: IndexWriterView::Loading { id },
            asked: WriterActionView::LoadForUpdate { id },
            ..s
        },
        Turn::Writer(answer) => {
            let (catalog, event) = writer_call(s.catalog, s.asked, answer);
            let (writer, asked) = writer_step(s.writer, event);
            let locked = match s.asked {
                WriterActionView::LoadForUpdate { id } => if answer is Done
                    && s.catalog.rows.contains_key(id) {
                    s.locks.insert(id, Task::Listener)
                } else {
                    s.locks
                },
                _ => s.locks,
            };
            let locks = if asked is Finish {
                release(locked, Task::Listener)
            } else {
                locked
            };
            System { catalog, locks, writer, asked, ..s }
        },
        Turn::Reconciler(answer) => {
            let (catalog, event) = reconciler_call(s.catalog, s.wanted, answer);
            let (reconciler, wanted) = reconciler_step(s.reconciler, event);
            let selected = s.wanted is SelectBatch && answer is Done;
            let locked = if selected {
                lock_all(
                    s.locks,
                    batch_keys(s.catalog.rows, s.wanted->batch_size as int),
                    Task::Reconciler,
                )
            } else {
                s.locks
            };
            let taken = if selected {
                batch(s.catalog.rows, s.wanted->batch_size as int)
            } else {
                s.taken
            };
            let locks = if wanted is Sleep {
                release(locked, Task::Reconciler)
            } else {
                locked
            };
            System { catalog, locks, reconciler, wanted, taken, ..s }
        },
    }
}

/// Whether `task` has locked the row under `id`, which is not marked.
pub open spec fn works_on(s: System, id: i64, task: Task) -> bool {
    locked_by(s.locks, id, task) && s.catalog.is_dirty(id)
}

/// Whether the lexical index holds the recipe under `id` as the store has
/// it.
pub open spec fn document_held(catalog: Catalog, id: i64) -> bool {
    catalog.lexical.contains_key(id) && catalog.lexical[id] == catalog.rows[id].model_with_id()
}

/// Whether the vector index holds the point of the recipe under `id` as the
/// store has it, where the recipe has an embedding.
pub open spec fn point_held(catalog: Catalog, id: i64) -> bool {
    catalog.rows[id].embedding matches Some(vector) ==> {
        &&& catalog.vector.contains_key(spec_point_key(id))
        &&& catalog.vector[spec_point_key(id)] == point_of(
            catalog.rows[id].model_with_id(),
            vector,
        )
    }
}

/// The recipe that the index writer works on, from the moment it has read
/// the row to the end of the attempt.
pub open spec fn writer_key(writer: IndexWriterView) -> Option<i64> {
    match writer {
        IndexWriterView::WritingPoint { document } => Some(document.id),
        IndexWriterView::WritingDocument { id } => Some(id),
        IndexWriterView::Marking { id } => Some(id),
        _ => None,
    }
}

/// The recipes that the reconciler may still mark in its present cycle.
pub open spec fn reconciler_keys(s: System) -> Seq<i64> {
    match s.reconciler {
        ReconcilerView::WritingDocuments { points, written } => written + point_documents(points),
        ReconcilerView::WritingPoint { current, rest, written, failures } => written.push(current)
            + point_documents(rest),
        ReconcilerView::Marking { failures } => match s.wanted {
            ReconcilerActionView::SetBatchSearchable { ids } => ids,
            _ => Seq::empty(),
        },
        _ => Seq::empty(),
    }
}

/// What holds of the index writer between turns: it has locked the recipe
/// it works on, which is not marked, it asks for the call that its state
/// waits for, and it asks for a recipe to be marked only when both indexes
/// hold the recipe.
pub open spec fn writer_in_order(s: System) -> bool {
    &&& forall|id: i64| locked_by(s.locks, id, Task::Listener) ==> writer_key(s.writer) == Some(id)
    &&& match s.writer {
        IndexWriterView::Loading { id } => s.asked == (WriterActionView::LoadForUpdate { id }),
        IndexWriterView::WritingPoint { document } => {
            &&& works_on(s, document.id, Task::Listener)
            &&& document == s.catalog.rows[document.id].model_with_id()
            &&& s.catalog.rows[document.id].embedding matches Some(vector) && s.asked == (
            WriterActionView::UpsertPoint { point: point_of(document, vector) })
        },
        IndexWriterView::WritingDocument { id } => {
            &&& works_on(s, id, Task::Listener)
            &&& s.asked == (WriterActionView::AddOrUpdate {
                document: s.catalog.rows[id].model_with_id(),
            })
            &&& point_held(s.catalog, id)
        },
        IndexWriterView::Marking { id } => {
            &&& works_on(s, id, Task::Listener)
            &&& s.asked == (WriterActionView::SetSearchable { id })
            &&& s.catalog.holds_indexed(id)
        },
        IndexWriterView::Closed => s.asked is Finish,
    }
}

/// Whether the point is one that the reconciler may write: it is the point
/// of a recipe that the reconciler works on and that the lexical index
/// holds.
pub open spec fn point_in_order(s: System, point: VectorPointView) -> bool {
    let id = spec_document_id(point.id);
    &&& works_on(s, id, Task::Reconciler)
    &&& document_held(s.catalog, id)
    &&& s.catalog.rows[id].embedding matches Some(vector) && point == point_of(
        s.catalog.rows[id].model_with_id(),
        vector,
    )
}

/// Whether the recipe under `id` is one that the reconciler may mark: the
/// reconciler works on it and both indexes hold it.
pub open spec fn ready_to_mark(s: System, id: i64) -> bool {
    works_on(s, id, Task::Reconciler) && s.catalog.holds_indexed(id)
}

/// What holds of the reconciler between turns: it has locked the recipes it
/// works on, none of which is marked, it asks for the call that its state
/// waits for, it writes a point only for a recipe that the lexical index
/// holds, and it asks for recipes to be marked only when both indexes hold
/// them.
pub open spec fn reconciler_in_order(s: System) -> bool {
    match s.reconciler {
        ReconcilerView::Idle => {
            &&& s.wanted is Sleep
            &&& forall|id: i64| !locked_by(s.locks, id, Task::Reconciler)
        },
        ReconcilerView::Selecting => {
            &&& s.wanted == (ReconcilerActionView::SelectBatch { batch_size: BATCH_SIZE })
            &&& forall|id: i64| !locked_by(s.locks, id, Task::Reconciler)
        },
        ReconcilerView::Committing => s.wanted is Commit,
        ReconcilerView::WritingDocuments { points, written } => {
            &&& s.wanted == (ReconcilerActionView::AddOrUpdate {
                documents: batch_documents(s.taken),
            })
            &&& points == batch_points(s.taken)
            &&& written == batch_plain_keys(s.taken)
            &&& forall|i: int|
                0 <= i < s.taken.len() ==> works_on(s, (#[trigger] s.taken[i]).id, Task::Reconciler)
                    && s.catalog.rows[s.taken[i].id] == s.taken[i]
        },
        ReconcilerView::WritingPoint { current, rest, written, failures } => {
            &&& s.wanted matches ReconcilerActionView::UpsertPoint { point }
            &&& point_in_order(s, point)
            &&& current == spec_document_id(point.id)
            &&& forall|i: int| 0 <= i < rest.len() ==> point_in_order(s, #[trigger] rest[i])
            &&& forall|i: int| 0 <= i < written.len() ==> ready_to_mark(s, #[trigger] written[i])
        },
        ReconcilerView::Marking { failures } => {
            &&& s.wanted matches ReconcilerActionView::SetBatchSearchable { ids }
            &&& forall|i: int| 0 <= i < ids.len() ==> ready_to_mark(s, #[trigger] ids[i])
        },
    }
}

/// What holds between turns: every row stands under its own key, each
/// machine is in order, and both indexes hold every recipe that is marked.
pub open spec fn in_order(s: System) -> bool {
    &&& s.catalog.well_formed()
    &&& writer_in_order(s)
    &&& reconciler_in_order(s)
    &&& forall|id: i64| s.catalog.is_marked(id) ==> #[trigger] s.catalog.holds_indexed(id)
}

/// The system with both machines at rest and no row locked.
pub open spec fn at_rest(catalog: Catalog) -> System {
    System {
        catalog,
        locks: Map::empty(),
        writer: IndexWriterView::Closed,
        asked: WriterActionView::Finish { outcome: Ok(crate::search_indexer::IndexOutcome::Missing) },
        reconciler: ReconcilerView::Idle,
        wanted: ReconcilerActionView::Sleep { millis: 0, reports: Seq::empty() },
        taken: Seq::empty(),
    }
}

/// The system is in order when both machines are at rest, no row is locked,
/// and both indexes hold every recipe that is marked.
pub proof fn lemma_at_rest_in_order(catalog: Catalog)
    requires
        catalog.well_formed(),
        forall|id: i64| catalog.is_marked(id) ==> #[trigger] catalog.holds_indexed(id),
    ensures
        in_order(at_rest(catalog)),
{
}

/// Different recipes have different points, and a point's key leads back to
/// its recipe.
pub proof fn lemma_point_keys(a: i64, b: i64)
    ensures
        spec_document_id(spec_point_key(a)) == a,
        a != b ==> spec_point_key(a) != spec_point_key(b),
{
}

/// What a turn of the index writer leaves alone: the reconciler, its locks,
/// and in the store and the indexes everything but what belongs to the
/// recipe that the index writer works on.
proof fn lemma_writer_turn_frame(s: System, answer: Answer)
    requires
        in_order(s),
        enabled(s, Turn::Writer(answer)),
    ensures
        ({
            let after = take(s, Turn::Writer(answer));
            &&& after.reconciler == s.reconciler
            &&& after.wanted == s.wanted
            &&& after.taken == s.taken
            &&& after.catalog.well_formed()
            &&& forall|id: i64|
                locked_by(after.locks, id, Task::Reconciler) == locked_by(
                    s.locks,
                    id,
                    Task::Reconciler,
                )
            &&& forall|id: i64|
                #![trigger after.catalog.rows[id]]
                #![trigger after.catalog.rows.contains_key(id)]
                !locked_by(s.locks, id, Task::Listener) ==> {
                    &&& after.catalog.rows.contains_key(id) == s.catalog.rows.contains_key(id)
                    &&& after.catalog.rows[id] == s.catalog.rows[id]
                }
            &&& forall|id: i64|
                #![trigger after.catalog.lexical[id]]
                #![trigger after.catalog.lexical.contains_key(id)]
                !locked_by(s.locks, id, Task::Listener) ==> {
                    &&& after.catalog.lexical.contains_key(id) == s.catalog.lexical.contains_key(
                        id,
                    )
                    &&& after.catalog.lexical[id] == s.catalog.lexical[id]
                }
            &&& forall|id: i64|
                #![trigger after.catalog.vector[spec_point_key(id)]]
                #![trigger after.catalog.vector.contains_key(spec_point_key(id))]
                !locked_by(s.locks, id, Task::Listener) ==> {
                    &&& after.catalog.vector.contains_key(spec_point_key(id))
                        == s.catalog.vector.contains_key(spec_point_key(id))
                    &&& after.catalog.vector[spec_point_key(id)] == s.catalog.vector[spec_point_key(
                        id,
                    )]
                }
        }),
{
    let after = take(s, Turn::Writer(answer));
    assert forall|id: i64|
        #![trigger after.catalog.vector[spec_point_key(id)]]
        #![trigger after.catalog.vector.contains_key(spec_point_key(id))]
        !locked_by(s.locks, id, Task::Listener) implies {
        &&& after.catalog.vector.contains_key(spec_point_key(id)) == s.catalog.vector.contains_key(
            spec_point_key(id),
        )
        &&& after.catalog.vector[spec_point_key(id)] == s.catalog.vector[spec_point_key(id)]
    } by {
        match s.writer {
            IndexWriterView::WritingPoint { document } => {
                lemma_point_keys(id, document.id);
            },
            _ => {},
        }
    }
}

/// The index writer stays in order through its own turn, and so does what
/// the indexes hold of the recipe it works on.
proof fn lemma_writer_turn_own(s: System, answer: Answer)
    requires
        in_order(s),
        enabled(s, Turn::Writer(answer)),
    ensures
        writer_in_order(take(s, Turn::Writer(answer))),
        forall|id: i64|
            locked_by(s.locks, id, Task::Listener) && take(
                s,
                Turn::Writer(answer),
            ).catalog.is_marked(id) ==> take(s, Turn::Writer(answer)).catalog.holds_indexed(id),
{
    let after = take(s, Turn::Writer(answer));
    match s.writer {
        IndexWriterView::Loading { id } => {
            // nothing is locked for the writer before it has read the row
            assert(forall|k: i64| !locked_by(s.locks, k, Task::Listener));
            if answer is Done && s.catalog.is_dirty(id) {
                assert(s.catalog.rows[id].id == id);
                assert(after.locks == s.locks.insert(id, Task::Listener));
                assert(writer_key(after.writer) == Some(id));
                assert forall|k: i64|
                    locked_by(after.locks, k, Task::Listener) implies writer_key(after.writer)
                    == Some(k) by {
                    if k != id {
                        assert(locked_by(s.locks, k, Task::Listener));
                    }
                }
            } else {
                assert(after.asked is Finish);
            }
        },
        IndexWriterView::WritingPoint { document } => {
            lemma_point_keys(document.id, document.id);
        },
        IndexWriterView::WritingDocument { id } => {},
        IndexWriterView::Marking { id } => {
            if answer is Done {
                assert(after.catalog.rows[id] == marked(s.catalog.rows[id]));
            }
        },
        IndexWriterView::Closed => {},
    }
}

/// The system stays in order through a turn of the index writer.
pub proof fn lemma_writer_turn_keeps_order(s: System, answer: Answer)
    requires
        in_order(s),
        enabled(s, Turn::Writer(answer)),
    ensures
        in_order(take(s, Turn::Writer(answer))),
{
    let after = take(s, Turn::Writer(answer));
    lemma_writer_turn_frame(s, answer);
    lemma_writer_turn_own(s, answer);
    assert forall|id: i64| after.catalog.is_marked(id) implies #[trigger] after.catalog.holds_indexed(
        id,
    ) by {
        if !locked_by(s.locks, id, Task::Listener) {
            assert(s.catalog.is_marked(id));
            assert(s.catalog.holds_indexed(id));
            assert(after.catalog.rows[id] == s.catalog.rows[id]);
            assert(after.catalog.lexical[id] == s.catalog.lexical[id]);
            assert(after.catalog.vector[spec_point_key(id)] == s.catalog.vector[spec_point_key(
                id,
            )]);
        }
    }
    lemma_reconciler_unmoved(s, after);
}

/// The reconciler stays in order where it did not move and where nothing has
/// changed of its locks and of what belongs to the recipes it has locked.
proof fn lemma_reconciler_unmoved(s: System, after: System)
    requires
        reconciler_in_order(s),
        after.reconciler == s.reconciler,
        after.wanted == s.wanted,
        after.taken == s.taken,
        forall|id: i64|
            locked_by(after.locks, id, Task::Reconciler) == locked_by(s.locks, id, Task::Reconciler),
        forall|id: i64|
            #![trigger after.catalog.rows[id]]
            #![trigger after.catalog.rows.contains_key(id)]
            locked_by(s.locks, id, Task::Reconciler) ==> {
                &&& after.catalog.rows.contains_key(id) == s.catalog.rows.contains_key(id)
                &&& after.catalog.rows[id] == s.catalog.rows[id]
            },
        forall|id: i64|
            #![trigger after.catalog.lexical[id]]
            #![trigger after.catalog.lexical.contains_key(id)]
            locked_by(s.locks, id, Task::Reconciler) ==> {
                &&& after.catalog.lexical.contains_key(id) == s.catalog.lexical.contains_key(id)
                &&& after.catalog.lexical[id] == s.catalog.lexical[id]
            },
        forall|id: i64|
            #![trigger after.catalog.vector[spec_point_key(id)]]
            #![trigger after.catalog.vector.contains_key(spec_point_key(id))]
            locked_by(s.locks, id, Task::Reconciler) ==> {
                &&& after.catalog.vector.contains_key(spec_point_key(id))
                    == s.catalog.vector.contains_key(spec_point_key(id))
                &&& after.catalog.vector[spec_point_key(id)] == s.catalog.vector[spec_point_key(id)]
            },
    ensures
        reconciler_in_order(after),
{
    assert forall|id: i64| works_on(s, id, Task::Reconciler) implies works_on(
        after,
        id,
        Task::Reconciler,
    ) && document_held(after.catalog, id) == document_held(s.catalog, id)
        && after.catalog.holds_indexed(id) == s.catalog.holds_indexed(id)
        && after.catalog.rows[id] == s.catalog.rows[id] by {
        assert(locked_by(after.locks, id, Task::Reconciler));
        assert(after.catalog.rows[id] == s.catalog.rows[id]);
        assert(after.catalog.lexical[id] == s.catalog.lexical[id]);
        assert(after.catalog.vector[spec_point_key(id)] == s.catalog.vector[spec_point_key(id)]);
    }
    match s.reconciler {
        ReconcilerView::WritingDocuments { points, written } => {
            assert forall|i: int| 0 <= i < after.taken.len() implies works_on(
                after,
                (#[trigger] after.taken[i]).id,
                Task::Reconciler,
            ) && after.catalog.rows[after.taken[i].id] == after.taken[i] by {
                assert(works_on(s, s.taken[i].id, Task::Reconciler));
            }
        },
        ReconcilerView::WritingPoint { current, rest, written, failures } => {
            let point = s.wanted->point;
            assert(point_in_order(s, point));
            assert(works_on(s, spec_document_id(point.id), Task::Reconciler));
            assert forall|i: int| 0 <= i < rest.len() implies point_in_order(
                after,
                #[trigger] rest[i],
            ) by {
                assert(point_in_order(s, rest[i]));
                assert(works_on(s, spec_document_id(rest[i].id), Task::Reconciler));
            }
            assert forall|i: int| 0 <= i < written.len() implies ready_to_mark(
                after,
                #[trigger] written[i],
            ) by {
                assert(ready_to_mark(s, written[i]));
            }
        },
        ReconcilerView::Marking { failures } => {
            let ids = s.wanted->ids;
            assert forall|i: int| 0 <= i < ids.len() implies ready_to_mark(
                after,
                #[trigger] ids[i],
            ) by {
                assert(ready_to_mark(s, ids[i]));
            }
        },
        _ => {},
    }
}

/// What the lexical index holds once recipes were put into it: under the key
/// of none of them, what it held before; under the key of one of them, that
/// recipe, where all the recipes put under that key are the same.
pub proof fn lemma_with_documents(
    lexical: Map<i64, RecipeWithIdView>,
    documents: Seq<RecipeWithIdView>,
    id: i64,
    document: RecipeWithIdView,
)
    ensures
        (forall|i: int| 0 <= i < documents.len() ==> (#[trigger] documents[i]).id != id) ==> {
            &&& with_documents(lexical, documents).contains_key(id) == lexical.contains_key(id)
            &&& with_documents(lexical, documents)[id] == lexical[id]
        },
        (exists|i: int| 0 <= i < documents.len() && (#[trigger] documents[i]).id == id) && (forall|
            i: int,
        |
            0 <= i < documents.len() && (#[trigger] documents[i]).id == id ==> documents[i]
                == document) ==> {
            &&& with_documents(lexical, documents).contains_key(id)
            &&& with_documents(lexical, documents)[id] == document
        },
    decreases documents.len(),
{
    if documents.len() > 0 {
        let head = documents.drop_last();
        lemma_with_documents(lexical, head, id, document);
        assert forall|i: int| 0 <= i < head.len() implies head[i] == documents[i] by {}
        if forall|i: int| 0 <= i < documents.len() ==> (#[trigger] documents[i]).id != id {
            assert forall|i: int| 0 <= i < head.len() implies (#[trigger] head[i]).id != id by {
                assert(head[i] == documents[i]);
            }
            assert(documents[documents.len() - 1].id != id);
        }
        if (exists|i: int| 0 <= i < documents.len() && (#[trigger] documents[i]).id == id) && (
        forall|i: int|
            0 <= i < documents.len() && (#[trigger] documents[i]).id == id ==> documents[i]
                == document) {
            if documents.last().id == id {
                assert(documents[documents.len() - 1] == document);
            } else {
                let i = choose|i: int| 0 <= i < documents.len() && (#[trigger] documents[i]).id == id;
                assert(head[i].id == id);
                assert forall|j: int|
                    0 <= j < head.len() && (#[trigger] head[j]).id == id implies head[j]
                    == document by {
                    assert(head[j] == documents[j]);
                }
            }
        }
    }
}

/// Every point of a batch is the point of one of its recipes, which has an
/// embedding.
pub proof fn lemma_batch_point_from_row(rows: Seq<RecipeRepView>, i: int) -> (j: int)
    requires
        0 <= i < batch_points(rows).len(),
    ensures
        0 <= j < rows.len(),
        rows[j].embedding matches Some(vector) && batch_points(rows)[i] == point_of(
            rows[j].model_with_id(),
            vector,
        ),
    decreases rows.len(),
{
    let head = rows.drop_last();
    if rows.last().embedding is Some && i == batch_points(head).len() {
        rows.len() - 1
    } else {
        lemma_batch_point_from_row(head, i)
    }
}

/// Every key of a batch that needs no point is the key of one of its
/// recipes, which has no embedding.
pub proof fn lemma_batch_plain_from_row(rows: Seq<RecipeRepView>, i: int) -> (j: int)
    requires
        0 <= i < batch_plain_keys(rows).len(),
    ensures
        0 <= j < rows.len(),
        rows[j].embedding is None,
        batch_plain_keys(rows)[i] == rows[j].id,
    decreases rows.len(),
{
    let head = rows.drop_last();
    if rows.last().embedding is None && i == batch_plain_keys(head).len() {
        rows.len() - 1
    } else {
        lemma_batch_plain_from_row(head, i)
    }
}

/// What a turn of the reconciler leaves alone: the index writer, its locks,
/// and in the store and the indexes everything but what belongs to the
/// recipes that the reconciler works on.
proof fn lemma_reconciler_turn_frame(s: System, answer: Answer)
    requires
        in_order(s),
        enabled(s, Turn::Reconciler(answer)),
    ensures
        ({
            let after = take(s, Turn::Reconciler(answer));
            &&& after.writer == s.writer
            &&& after.asked == s.asked
            &&& after.catalog.well_formed()
            &&& forall|id: i64|
                locked_by(after.locks, id, Task::Listener) == locked_by(s.locks, id, Task::Listener)
            &&& forall|id: i64|
                #![trigger after.catalog.rows[id]]
                #![trigger after.catalog.rows.contains_key(id)]
                !works_on(s, id, Task::Reconciler) ==> {
                    &&& after.catalog.rows.contains_key(id) == s.catalog.rows.contains_key(id)
                    &&& s.catalog.rows.contains_key(id) ==> after.catalog.rows[id]
                        == s.catalog.rows[id]
                }
            &&& forall|id: i64|
                #![trigger after.catalog.lexical[id]]
                #![trigger after.catalog.lexical.contains_key(id)]
                !works_on(s, id, Task::Reconciler) ==> {
                    &&& after.catalog.lexical.contains_key(id) == s.catalog.lexical.contains_key(
                        id,
                    )
                    &&& after.catalog.lexical[id] == s.catalog.lexical[id]
                }
            &&& forall|id: i64|
                #![trigger after.catalog.vector[spec_point_key(id)]]
                #![trigger after.catalog.vector.contains_key(spec_point_key(id))]
                !works_on(s, id, Task::Reconciler) ==> {
                    &&& after.catalog.vector.contains_key(spec_point_key(id))
                        == s.catalog.vector.contains_key(spec_point_key(id))
                    &&& after.catalog.vector[spec_point_key(id)] == s.catalog.vector[spec_point_key(
                        id,
                    )]
                }
        }),
{
    let after = take(s, Turn::Reconciler(answer));
    match s.wanted {
        ReconcilerActionView::SelectBatch { batch_size } => {
            let keys = batch_keys(s.catalog.rows, batch_size as int);
            assert forall|id: i64|
                locked_by(after.locks, id, Task::Listener) == locked_by(
                    s.locks,
                    id,
                    Task::Listener,
                ) by {
                if answer is Done && keys.contains(id) {
                    let i = choose|i: int| 0 <= i < keys.len() && keys[i] == id;
                    assert(!locked_by(s.locks, keys[i], Task::Listener));
                }
            }
        },
        ReconcilerActionView::AddOrUpdate { documents } => {
            if answer is Done {
                assert forall|id: i64|
                    #![trigger after.catalog.lexical[id]]
                    #![trigger after.catalog.lexical.contains_key(id)]
                    !works_on(s, id, Task::Reconciler) implies {
                    &&& after.catalog.lexical.contains_key(id) == s.catalog.lexical.contains_key(
                        id,
                    )
                    &&& after.catalog.lexical[id] == s.catalog.lexical[id]
                } by {
                    assert forall|i: int| 0 <= i < documents.len() implies (
                    #[trigger] documents[i]).id != id by {
                        assert(works_on(s, s.taken[i].id, Task::Reconciler));
                    }
                    lemma_with_documents(s.catalog.lexical, documents, id, documents[0]);
                }
            }
        },
        ReconcilerActionView::UpsertPoint { point } => {
            assert(point_in_order(s, point));
            let current = spec_document_id(point.id);
            assert(point.id == spec_point_key(current));
            assert forall|id: i64|
                #![trigger after.catalog.vector[spec_point_key(id)]]
                #![trigger after.catalog.vector.contains_key(spec_point_key(id))]
                !works_on(s, id, Task::Reconciler) implies {
                &&& after.catalog.vector.contains_key(spec_point_key(id))
                    == s.catalog.vector.contains_key(spec_point_key(id))
                &&& after.catalog.vector[spec_point_key(id)] == s.catalog.vector[spec_point_key(id)]
            } by {
                lemma_point_keys(id, current);
            }
        },
        ReconcilerActionView::SetBatchSearchable { ids } => {
            assert forall|id: i64|
                #![trigger after.catalog.rows[id]]
                #![trigger after.catalog.rows.contains_key(id)]
                !works_on(s, id, Task::Reconciler) implies {
                &&& after.catalog.rows.contains_key(id) == s.catalog.rows.contains_key(id)
                &&& s.catalog.rows.contains_key(id) ==> after.catalog.rows[id]
                    == s.catalog.rows[id]
            } by {
                assert(s.reconciler is Marking);
                if ids.contains(id) {
                    let i = choose|i: int| 0 <= i < ids.len() && ids[i] == id;
                    assert(ready_to_mark(s, ids[i]));
                }
            }
        },
        _ => {},
    }
}

/// The reconciler stays in order through its own turn, and so does what the
/// indexes hold of the recipes it works on.
proof fn lemma_reconciler_turn_own(s: System, answer: Answer)
    requires
        in_order(s),
        enabled(s, Turn::Reconciler(answer)),
    ensures
        reconciler_in_order(take(s, Turn::Reconciler(answer))),
        forall|id: i64|
            works_on(s, id, Task::Reconciler) && take(
                s,
                Turn::Reconciler(answer),
            ).catalog.is_marked(id) ==> take(s, Turn::Reconciler(answer)).catalog.holds_indexed(id),
{
    let after = take(s, Turn::Reconciler(answer));
    match s.reconciler {
        ReconcilerView::Idle => {},
        ReconcilerView::Selecting => {
            if answer is Done {
                let size = BATCH_SIZE as int;
                let keys = batch_keys(s.catalog.rows, size);
                lemma_batch_rows(s.catalog, size);
                lemma_dirty_keys_below(s.catalog.rows, i64::MAX + 1);
                assert(after.taken == batch(s.catalog.rows, size));
                assert forall|i: int| 0 <= i < after.taken.len() implies works_on(
                    after,
                    (#[trigger] after.taken[i]).id,
                    Task::Reconciler,
                ) && after.catalog.rows[after.taken[i].id] == after.taken[i] by {
                    assert(after.taken[i].id == keys[i]);
                    assert(keys.contains(keys[i]));
                    assert(crate::backlog::dirty_keys(s.catalog.rows)[i] == keys[i]);
                }
            }
        },
        ReconcilerView::Committing => {},
        ReconcilerView::WritingDocuments { points, written } => {
            if answer is Done {
                let documents = batch_documents(s.taken);
                assert forall|id: i64| works_on(s, id, Task::Reconciler) implies works_on(
                    after,
                    id,
                    Task::Reconciler,
                ) by {}
                assert forall|j: int| 0 <= j < s.taken.len() implies document_held(
                    after.catalog,
                    (#[trigger] s.taken[j]).id,
                ) by {
                    let id = s.taken[j].id;
                    let document = s.taken[j].model_with_id();
                    assert(works_on(s, s.taken[j].id, Task::Reconciler));
                    assert(documents[j].id == id);
                    assert forall|i: int|
                        0 <= i < documents.len() && (#[trigger] documents[i]).id
                            == id implies documents[i] == document by {
                        assert(works_on(s, s.taken[i].id, Task::Reconciler));
                        assert(s.catalog.rows[s.taken[i].id] == s.taken[i]);
                    }
                    lemma_with_documents(s.catalog.lexical, documents, id, document);
                }
                assert forall|i: int| 0 <= i < points.len() implies point_in_order(
                    after,
                    #[trigger] points[i],
                ) by {
                    let j = lemma_batch_point_from_row(s.taken, i);
                    assert(works_on(s, s.taken[j].id, Task::Reconciler));
                    assert(document_held(after.catalog, s.taken[j].id));
                    lemma_point_keys(s.taken[j].id, s.taken[j].id);
                }
                assert forall|i: int| 0 <= i < written.len() implies ready_to_mark(
                    after,
                    #[trigger] written[i],
                ) by {
                    let j = lemma_batch_plain_from_row(s.taken, i);
                    assert(works_on(s, s.taken[j].id, Task::Reconciler));
                    assert(document_held(after.catalog, s.taken[j].id));
                }
                if points.len() > 0 {
                    let rest = points.drop_first();
                    assert forall|i: int| 0 <= i < rest.len() implies point_in_order(
                        after,
                        #[trigger] rest[i],
                    ) by {
                        assert(rest[i] == points[i + 1]);
                    }
                    assert(point_in_order(after, points[0]));
                }
            }
        },
        ReconcilerView::WritingPoint { current, rest, written, failures } => {
            let point = s.wanted->point;
            assert(point_in_order(s, point));
            assert(point.id == spec_point_key(current));
            assert forall|id: i64| works_on(s, id, Task::Reconciler) implies works_on(
                after,
                id,
                Task::Reconciler,
            ) && document_held(after.catalog, id) == document_held(s.catalog, id) by {}
            assert forall|i: int| 0 <= i < rest.len() implies point_in_order(
                after,
                #[trigger] rest[i],
            ) by {
                assert(point_in_order(s, rest[i]));
            }
            assert forall|i: int| 0 <= i < written.len() implies ready_to_mark(
                after,
                #[trigger] written[i],
            ) by {
                assert(ready_to_mark(s, written[i]));
                lemma_point_keys(written[i], current);
            }
            if answer is Done {
                assert(ready_to_mark(after, current));
                let more = written.push(current);
                assert forall|i: int| 0 <= i < more.len() implies ready_to_mark(
                    after,
                    #[trigger] more[i],
                ) by {
                    if i < written.len() {
                        assert(more[i] == written[i]);
                    }
                }
            }
            if rest.len() > 0 {
                let later = rest.drop_first();
                assert forall|i: int| 0 <= i < later.len() implies point_in_order(
                    after,
                    #[trigger] later[i],
                ) by {
                    assert(later[i] == rest[i + 1]);
                }
                assert(point_in_order(after, rest[0]));
            }
        },
        ReconcilerView::Marking { failures } => {
            let ids = s.wanted->ids;
            assert forall|id: i64|
                works_on(s, id, Task::Reconciler) && after.catalog.is_marked(
                    id,
                ) implies after.catalog.holds_indexed(id) by {
                assert(ids.contains(id));
                let i = choose|i: int| 0 <= i < ids.len() && ids[i] == id;
                assert(ready_to_mark(s, ids[i]));
            }
        },
    }
}

/// The index writer stays in order where it did not move and where nothing
/// has changed of its locks and of what belongs to the recipe it has locked.
proof fn lemma_writer_unmoved(s: System, after: System)
    requires
        writer_in_order(s),
        after.writer == s.writer,
        after.asked == s.asked,
        forall|id: i64|
            locked_by(after.locks, id, Task::Listener) == locked_by(s.locks, id, Task::Listener),
        forall|id: i64|
            #![trigger after.catalog.rows[id]]
            #![trigger after.catalog.rows.contains_key(id)]
            locked_by(s.locks, id, Task::Listener) ==> {
                &&& after.catalog.rows.contains_key(id) == s.catalog.rows.contains_key(id)
                &&& s.catalog.rows.contains_key(id) ==> after.catalog.rows[id]
                    == s.catalog.rows[id]
            },
        forall|id: i64|
            #![trigger after.catalog.lexical[id]]
            #![trigger after.catalog.lexical.contains_key(id)]
            locked_by(s.locks, id, Task::Listener) ==> {
                &&& after.catalog.lexical.contains_key(id) == s.catalog.lexical.contains_key(id)
                &&& after.catalog.lexical[id] == s.catalog.lexical[id]
            },
        forall|id: i64|
            #![trigger after.catalog.vector[spec_point_key(id)]]
            #![trigger after.catalog.vector.contains_key(spec_point_key(id))]
            locked_by(s.locks, id, Task::Listener) ==> {
                &&& after.catalog.vector.contains_key(spec_point_key(id))
                    == s.catalog.vector.contains_key(spec_point_key(id))
                &&& after.catalog.vector[spec_point_key(id)] == s.catalog.vector[spec_point_key(id)]
            },
    ensures
        writer_in_order(after),
{
    match writer_key(s.writer) {
        Some(id) => {
            assert(works_on(s, id, Task::Listener));
            assert(after.catalog.rows[id] == s.catalog.rows[id]);
            assert(after.catalog.lexical[id] == s.catalog.lexical[id]);
            assert(after.catalog.vector[spec_point_key(id)] == s.catalog.vector[spec_point_key(id)]);
        },
        None => {},
    }
}

/// The system stays in order through a turn of the reconciler.
pub proof fn lemma_reconciler_turn_keeps_order(s: System, answer: Answer)
    requires
        in_order(s),
        enabled(s, Turn::Reconciler(answer)),
    ensures
        in_order(take(s, Turn::Reconciler(answer))),
{
    let after = take(s, Turn::Reconciler(answer));
    lemma_reconciler_turn_frame(s, answer);
    lemma_reconciler_turn_own(s, answer);
    assert forall|id: i64| after.catalog.is_marked(id) implies #[trigger] after.catalog.holds_indexed(
        id,
    ) by {
        if !works_on(s, id, Task::Reconciler) {
            assert(after.catalog.rows[id] == s.catalog.rows[id]);
            assert(s.catalog.is_marked(id));
            assert(s.catalog.holds_indexed(id));
            assert(after.catalog.lexical[id] == s.catalog.lexical[id]);
            assert(after.catalog.vector[spec_point_key(id)] == s.catalog.vector[spec_point_key(
                id,
            )]);
        }
    }
    assert forall|id: i64| locked_by(s.locks, id, Task::Listener) implies !works_on(
        s,
        id,
        Task::Reconciler,
    ) by {}
    lemma_writer_unmoved(s, after);
}

/// The reconciler has locked every recipe that it may still mark, and none
/// of them is marked.
pub proof fn lemma_reconciler_works_on_its_keys(s: System, id: i64)
    requires
        in_order(s),
        reconciler_keys(s).contains(id),
    ensures
        works_on(s, id, Task::Reconciler),
{
    let keys = reconciler_keys(s);
    let at = choose|i: int| 0 <= i < keys.len() && keys[i] == id;
    match s.reconciler {
        ReconcilerView::WritingDocuments { points, written } => {
            crate::backlog::lemma_batch_is_plain_and_pointed(s.taken, id);
            let j = choose|j: int| 0 <= j < s.taken.len() && (#[trigger] s.taken[j]).id == id;
            assert(works_on(s, s.taken[j].id, Task::Reconciler));
        },
        ReconcilerView::WritingPoint { current, rest, written, failures } => {
            let point = s.wanted->point;
            assert(point_in_order(s, point));
            let first = written.push(current);
            if at < written.len() {
                assert(ready_to_mark(s, written[at]));
            } else if at == written.len() {
                assert(keys[at] == current);
            } else {
                let i = at - first.len();
                assert(keys[at] == point_documents(rest)[i]);
                assert(point_in_order(s, rest[i]));
            }
        },
        ReconcilerView::Marking { failures } => {
            let ids = s.wanted->ids;
            assert(ready_to_mark(s, ids[at]));
        },
        _ => {},
    }
}

/// No recipe is worked on by both machines at once: while the index writer
/// works on a recipe, the reconciler has it in no batch, and while the
/// reconciler has a recipe in its batch, the index writer does not work on
/// it.
pub proof fn lemma_one_at_a_time(s: System, id: i64)
    requires
        in_order(s),
    ensures
        !(works_on(s, id, Task::Listener) && works_on(s, id, Task::Reconciler)),
        !(writer_key(s.writer) == Some(id) && reconciler_keys(s).contains(id)),
{
    if writer_key(s.writer) == Some(id) && reconciler_keys(s).contains(id) {
        lemma_reconciler_works_on_its_keys(s, id);
        assert(works_on(s, id, Task::Listener));
    }
}

/// A recipe is marked by the machine that works on it, and only when both
/// indexes hold it: a turn after which a recipe is marked that was not
/// marked before is a turn of the machine that has locked the recipe.
pub proof fn lemma_marked_by_the_one_at_work(s: System, turn: Turn, id: i64)
    requires
        in_order(s),
        enabled(s, turn),
        !s.catalog.is_marked(id),
        take(s, turn).catalog.is_marked(id),
    ensures
        turn is Writer ==> works_on(s, id, Task::Listener) && !works_on(s, id, Task::Reconciler),
        turn is Reconciler ==> works_on(s, id, Task::Reconciler) && !works_on(
            s,
            id,
            Task::Listener,
        ),
        !(turn is Begin),
        take(s, turn).catalog.holds_indexed(id),
{
    lemma_turn_keeps_order(s, turn);
    let after = take(s, turn);
    match turn {
        Turn::Begin(_) => {},
        Turn::Writer(answer) => {
            lemma_writer_turn_frame(s, answer);
            if !locked_by(s.locks, id, Task::Listener) {
                assert(after.catalog.rows.contains_key(id));
                assert(after.catalog.rows[id] == s.catalog.rows[id]);
            }
            assert(writer_key(s.writer) == Some(id));
        },
        Turn::Reconciler(answer) => {
            lemma_reconciler_turn_frame(s, answer);
            if !works_on(s, id, Task::Reconciler) {
                assert(after.catalog.rows.contains_key(id));
                assert(after.catalog.rows[id] == s.catalog.rows[id]);
            }
        },
    }
}

/// A recipe that is marked stays marked through every turn, so no recipe is
/// marked twice.
pub proof fn lemma_marked_stays_marked(s: System, turn: Turn, id: i64)
    requires
        in_order(s),
        enabled(s, turn),
        s.catalog.is_marked(id),
    ensures
        take(s, turn).catalog.is_marked(id),
{
    let after = take(s, turn);
    match turn {
        Turn::Begin(_) => {},
        Turn::Writer(answer) => {
            lemma_writer_turn_frame(s, answer);
            if locked_by(s.locks, id, Task::Listener) {
                assert(works_on(s, id, Task::Listener));
            }
            assert(after.catalog.rows.contains_key(id));
            assert(after.catalog.rows[id] == s.catalog.rows[id]);
        },
        Turn::Reconciler(answer) => {
            lemma_reconciler_turn_frame(s, answer);
            assert(after.catalog.rows.contains_key(id));
            assert(after.catalog.rows[id] == s.catalog.rows[id]);
        },
    }
}

/// Who comes second does nothing. The index writer that reads a recipe which
/// is marked ends its attempt at once: it makes no other call and changes
/// nothing. The reconciler takes no recipe that is marked into a batch.
pub proof fn lemma_late_comer_does_nothing(s: System, id: i64, size: int)
    requires
        in_order(s),
        s.catalog.is_marked(id),
        size >= 0,
    ensures
        s.writer == (IndexWriterView::Loading { id }) && enabled(s, Turn::Writer(Answer::Done))
            ==> {
            let after = take(s, Turn::Writer(Answer::Done));
            &&& after.catalog == s.catalog
            &&& after.writer is Closed
            &&& after.asked == (WriterActionView::Finish {
                outcome: Ok(crate::search_indexer::IndexOutcome::AlreadyIndexed),
            })
        },
        !batch_keys(s.catalog.rows, size).contains(id),
{
    lemma_dirty_keys_below(s.catalog.rows, i64::MAX + 1);
    let keys = batch_keys(s.catalog.rows, size);
    if keys.contains(id) {
        let i = choose|i: int| 0 <= i < keys.len() && keys[i] == id;
        assert(crate::backlog::dirty_keys(s.catalog.rows)[i] == id);
    }
    if s.writer == (IndexWriterView::Loading { id }) {
        assert(s.catalog.rows[id].id == id);
    }
}

/// The system stays in order through every turn that can be taken.
pub proof fn lemma_turn_keeps_order(s: System, turn: Turn)
    requires
        in_order(s),
        enabled(s, turn),
    ensures
        in_order(take(s, turn)),
{
    match turn {
        Turn::Begin(id) => {
            let after = take(s, turn);
            assert(s.writer is Closed || s.writer is Loading) by {
                if !(s.writer is Closed) && !(s.writer is Loading) {
                    assert(!(s.asked is Finish));
                }
            }
            lemma_reconciler_unmoved(s, after);
        },
        Turn::Writer(answer) => {
            lemma_writer_turn_keeps_order(s, answer);
        },
        Turn::Reconciler(answer) => {
            lemma_reconciler_turn_keeps_order(s, answer);
        },
    }
}

/// The system after the turns were taken one after the other; none where one
/// of them could not be taken when it came.
pub open spec fn after_turns(s: System, turns: Seq<Turn>) -> Option<System>
    decreases turns.len(),
{
    if turns.len() == 0 {
        Some(s)
    } else {
        match after_turns(s, turns.drop_last()) {
            Some(before) => if enabled(before, turns.last()) {
                Some(take(before, turns.last()))
            } else {
                None
            },
            None => None,
        }
    }
}

/// However the two machines take turns and whatever fails: from a catalog in
/// which both indexes hold every recipe that is marked, with both machines
/// at rest, every run leads to a system in order. In it no recipe is worked
/// on by both machines, and both indexes hold every recipe that is marked.
pub proof fn lemma_every_run_stays_in_order(catalog: Catalog, turns: Seq<Turn>)
    requires
        catalog.well_formed(),
        forall|id: i64| catalog.is_marked(id) ==> #[trigger] catalog.holds_indexed(id),
        after_turns(at_rest(catalog), turns) is Some,
    ensures
        in_order(after_turns(at_rest(catalog), turns)->0),
        forall|id: i64|
            !(#[trigger] works_on(after_turns(at_rest(catalog), turns)->0, id, Task::Listener)
                && works_on(after_turns(at_rest(catalog), turns)->0, id, Task::Reconciler)),
        forall|id: i64|
            after_turns(at_rest(catalog), turns)->0.catalog.is_marked(id) ==> #[trigger] after_turns(
                at_rest(catalog),
                turns,
            )->0.catalog.holds_indexed(id),
    decreases turns.len(),
{
    if turns.len() == 0 {
        lemma_at_rest_in_order(catalog);
    } else {
        lemma_every_run_stays_in_order(catalog, turns.drop_last());
        let before = after_turns(at_rest(catalog), turns.drop_last())->0;
        lemma_turn_keeps_order(before, turns.last());
    }
}

} // verus!
