//! What indexing does to the store and the two indexes.
//!
//! The store and the indexes live outside this library. This module holds a
//! model of them: what each holds, by key, and what each call that the
//! machines of this library ask for does to them, with and without failure.
//! Against that model the machines are run in specifications, and what is
//! proved of those runs is what the library promises of indexing.

use crate::hybrid_search::spec_point_key;
use crate::model::RecipeWithIdView;
use crate::recipe_service::RecipeRepView;
use crate::search_indexer::{
    point_of, writer_step, ContextErrorView, ErrorView, IndexOutcome, IndexWriterView, TaskReport,
    VectorPointView, WriterActionView, WriterEventView,
};
use vstd::prelude::*;

verus! {

/// The store and the two indexes: the rows of the store, the recipes of the
/// lexical index and the points of the vector index, each by its key.
#[verifier::ext_equal]
pub struct Catalog {
    pub rows: Map<i64, RecipeRepView>,
    pub lexical: Map<i64, RecipeWithIdView>,
    pub vector: Map<u64, VectorPointView>,
}

impl Catalog {
    /// Whether every row stands under its own key.
    pub open spec fn well_formed(self) -> bool {
        forall|id: i64| self.rows.contains_key(id) ==> (#[trigger] self.rows[id]).id == id
    }

    /// Whether the store holds a recipe under `id` that is not marked as
    /// indexed.
    pub open spec fn is_dirty(self, id: i64) -> bool {
        self.rows.contains_key(id) && !self.rows[id].searchable
    }

    /// Whether the store holds a recipe under `id` that is marked as
    /// indexed.
    pub open spec fn is_marked(self, id: i64) -> bool {
        self.rows.contains_key(id) && self.rows[id].searchable
    }

    /// Whether both indexes hold the recipe under `id` as the store has it:
    /// the lexical index holds the recipe, and the vector index holds its
    /// point where the recipe has an embedding.
    pub open spec fn holds_indexed(self, id: i64) -> bool {
        &&& self.rows.contains_key(id)
        &&& self.lexical.contains_key(id)
        &&& self.lexical[id] == self.rows[id].model_with_id()
        &&& self.rows[id].embedding matches Some(vector) ==> {
            &&& self.vector.contains_key(spec_point_key(id))
            &&& self.vector[spec_point_key(id)] == point_of(self.rows[id].model_with_id(), vector)
        }
    }
}

/// The row `row`, marked as indexed.
pub open spec fn marked(row: RecipeRepView) -> RecipeRepView {
    RecipeRepView { searchable: true, ..row }
}

/// How the outside answers a call.
pub enum Answer {
    /// The call does what it is for.
    Done,
    /// The call fails with this report and changes nothing.
    Refused(Seq<char>),
    /// The lexical index takes the write, works through it, and reports that
    /// it failed; nothing is changed. Of any other call: as `Refused`, with
    /// an empty report.
    Failed,
}

impl Answer {
    /// The report of a call that did not do what it is for.
    pub open spec fn report(self) -> Seq<char> {
        match self {
            Answer::Refused(m) => m,
            _ => Seq::empty(),
        }
    }
}

/// What a call of the index writer does to the catalog, and what comes back.
/// (Of `Finish`, which is no call: nothing, and a report that the store
/// failed.)
pub open spec fn writer_call(catalog: Catalog, action: WriterActionView, answer: Answer) -> (
    Catalog,
    WriterEventView,
) {
    match action {
        WriterActionView::LoadForUpdate { id } => match answer {
            Answer::Done => (
                catalog,
                WriterEventView::Loaded(
                    Ok(
                        if catalog.rows.contains_key(id) {
                            Some(catalog.rows[id])
                        } else {
                            None
                        },
                    ),
                ),
            ),
            _ => (
                catalog,
                WriterEventView::Loaded(Err(crate::recipe_service::ErrorView::DB(answer.report()))),
            ),
        },
        WriterActionView::UpsertPoint { point } => match answer {
            Answer::Done => (
                Catalog { vector: catalog.vector.insert(point.id, point), ..catalog },
                WriterEventView::PointUpserted(Ok(())),
            ),
            _ => (catalog, WriterEventView::PointUpserted(Err(answer.report()))),
        },
        WriterActionView::AddOrUpdate { document } => match answer {
            Answer::Done => (
                Catalog { lexical: catalog.lexical.insert(document.id, document), ..catalog },
                WriterEventView::DocumentAdded(Ok(TaskReport { failed: false })),
            ),
            Answer::Failed => (
                catalog,
                WriterEventView::DocumentAdded(Ok(TaskReport { failed: true })),
            ),
            Answer::Refused(m) => (catalog, WriterEventView::DocumentAdded(Err(m))),
        },
        WriterActionView::SetSearchable { id } => match answer {
            Answer::Done => (
                if catalog.rows.contains_key(id) {
                    Catalog { rows: catalog.rows.insert(id, marked(catalog.rows[id])), ..catalog }
                } else {
                    catalog
                },
                WriterEventView::Marked(Ok(())),
            ),
            _ => (
                catalog,
                WriterEventView::Marked(Err(crate::recipe_service::ErrorView::DB(answer.report()))),
            ),
        },
        WriterActionView::Finish { .. } => (
            catalog,
            WriterEventView::Loaded(Err(crate::recipe_service::ErrorView::Fail)),
        ),
    }
}

/// The answer to the next call: the first of `answers`, and `Done` where
/// there is none left.
pub open spec fn next_answer(answers: Seq<Answer>) -> Answer {
    if answers.len() > 0 {
        answers[0]
    } else {
        Answer::Done
    }
}

/// The answers to the calls after the next.
pub open spec fn later_answers(answers: Seq<Answer>) -> Seq<Answer> {
    if answers.len() > 0 {
        answers.drop_first()
    } else {
        answers
    }
}

/// Runs the index writer from where it stands until it finishes, or for
/// `calls` calls: each call is answered as `answers` says, in their order.
/// Gives the catalog as it is left, and how the attempt ended.
pub open spec fn writer_run(
    catalog: Catalog,
    state: IndexWriterView,
    action: WriterActionView,
    answers: Seq<Answer>,
    calls: nat,
) -> (Catalog, Result<IndexOutcome, ContextErrorView>)
    decreases calls,
{
    match action {
        WriterActionView::Finish { outcome } => (catalog, outcome),
        _ => if calls == 0 {
            (catalog, Err(ContextErrorView::bare(ErrorView::Consistency)))
        } else {
            let (after_call, event) = writer_call(catalog, action, next_answer(answers));
            let (next_state, next_action) = writer_step(state, event);
            writer_run(
                after_call,
                next_state,
                next_action,
                later_answers(answers),
                (calls - 1) as nat,
            )
        },
    }
}

/// One attempt to index the recipe under `id`, from its first call to its
/// end. An attempt makes four calls at most.
pub open spec fn index_attempt(catalog: Catalog, id: i64, answers: Seq<Answer>) -> (
    Catalog,
    Result<IndexOutcome, ContextErrorView>,
) {
    writer_run(
        catalog,
        IndexWriterView::Loading { id },
        WriterActionView::LoadForUpdate { id },
        answers,
        4,
    )
}

/// An attempt in which no call fails.
pub open spec fn index_once(catalog: Catalog, id: i64) -> Catalog {
    index_attempt(catalog, id, Seq::empty()).0
}

/// What an attempt does where no call fails: nothing where the store has no
/// recipe under the key or has it marked already; else both indexes are
/// given the recipe as the store has it, and then the recipe is marked.
/// Nothing else is touched.
pub proof fn lemma_attempt_without_failure(catalog: Catalog, id: i64)
    requires
        catalog.well_formed(),
    ensures
        !catalog.rows.contains_key(id) ==> index_attempt(catalog, id, Seq::empty()) == (
            catalog,
            Ok::<IndexOutcome, ContextErrorView>(IndexOutcome::Missing),
        ),
        catalog.is_marked(id) ==> index_attempt(catalog, id, Seq::empty()) == (
            catalog,
            Ok::<IndexOutcome, ContextErrorView>(IndexOutcome::AlreadyIndexed),
        ),
        catalog.is_dirty(id) ==> {
            let (after, outcome) = index_attempt(catalog, id, Seq::empty());
            let document = catalog.rows[id].model_with_id();
            &&& outcome == Ok::<IndexOutcome, ContextErrorView>(IndexOutcome::Indexed)
            &&& after.rows == catalog.rows.insert(id, marked(catalog.rows[id]))
            &&& after.lexical == catalog.lexical.insert(id, document)
            &&& after.vector == match catalog.rows[id].embedding {
                Some(vector) => catalog.vector.insert(
                    spec_point_key(id),
                    point_of(document, vector),
                ),
                None => catalog.vector,
            }
            &&& after.well_formed()
            &&& after.is_marked(id)
            &&& after.holds_indexed(id)
        },
{
    reveal_with_fuel(writer_run, 5);
    let none = Seq::<Answer>::empty();
    assert(later_answers(none) == none);
    if catalog.is_dirty(id) {
        let row = catalog.rows[id];
        assert(row.id == id);
        let after = index_attempt(catalog, id, none).0;
        assert(after.rows =~= catalog.rows.insert(id, marked(row)));
    }
}

/// Indexing a recipe a second time changes nothing: after an attempt in
/// which no call failed, the store and both indexes are left by another such
/// attempt as the first one left them, and the recipe stays marked. The
/// indexes hold one recipe and one point under the key, since each is held
/// by its key.
pub proof fn lemma_indexing_twice_is_indexing_once(catalog: Catalog, id: i64)
    requires
        catalog.well_formed(),
    ensures
        index_once(index_once(catalog, id), id) == index_once(catalog, id),
        catalog.rows.contains_key(id) ==> index_once(catalog, id).is_marked(id),
        catalog.rows.contains_key(id) ==> index_once(index_once(catalog, id), id).is_marked(id),
{
    lemma_attempt_without_failure(catalog, id);
    lemma_attempt_without_failure(index_once(catalog, id), id);
}

/// An attempt marks a recipe only when both indexes hold it: whatever fails
/// and wherever, a recipe that was not marked before the attempt is marked
/// after it only if the attempt ended well, and then the lexical index holds
/// the recipe and the vector index holds its point. An attempt that fails
/// leaves the store as it was.
pub proof fn lemma_marked_only_when_both_hold(catalog: Catalog, id: i64, answers: Seq<Answer>)
    requires
        catalog.well_formed(),
        catalog.is_dirty(id),
    ensures
        ({
            let (after, outcome) = index_attempt(catalog, id, answers);
            &&& after.is_marked(id) ==> outcome == Ok::<IndexOutcome, ContextErrorView>(
                IndexOutcome::Indexed,
            ) && after.holds_indexed(id)
            &&& outcome is Err ==> after.rows == catalog.rows
            &&& outcome is Err ==> after.is_dirty(id)
            &&& forall|other: i64| other != id ==> after.rows.contains_key(other)
                == catalog.rows.contains_key(other) && after.rows[other] == catalog.rows[other]
        }),
{
    reveal_with_fuel(writer_run, 5);
    let row = catalog.rows[id];
    assert(row.id == id);
    let (after, outcome) = index_attempt(catalog, id, answers);
    if after.is_marked(id) {
        assert(after.rows =~= catalog.rows.insert(id, marked(row)));
    }
}

/// A write to the vector index that fails leaves the recipe unmarked, and an
/// attempt after it in which nothing fails marks it.
pub proof fn lemma_failed_vector_write_is_retried(catalog: Catalog, id: i64, report: Seq<char>)
    requires
        catalog.well_formed(),
        catalog.is_dirty(id),
        catalog.rows[id].embedding is Some,
    ensures
        ({
            let (after, outcome) = index_attempt(
                catalog,
                id,
                seq![Answer::Done, Answer::Refused(report)],
            );
            &&& outcome == Err::<IndexOutcome, ContextErrorView>(
                ContextErrorView::bare(ErrorView::Qdrant(report)),
            )
            &&& after == catalog
            &&& after.is_dirty(id)
            &&& index_once(after, id).is_marked(id)
            &&& index_once(after, id).holds_indexed(id)
        }),
{
    reveal_with_fuel(writer_run, 5);
    let answers = seq![Answer::Done, Answer::Refused(report)];
    assert(catalog.rows[id].id == id);
    assert(later_answers(answers) =~= seq![Answer::Refused(report)]);
    assert(later_answers(later_answers(answers)) =~= Seq::<Answer>::empty());
    lemma_attempt_without_failure(catalog, id);
}

} // verus!
