//! Brings in the recipes that no notification announced. At a fixed pace the
//! store is asked for a batch of recipes that are not marked as indexed; the
//! batch goes to the lexical index as a whole, the recipes with an embedding
//! go to the vector index one by one, and those that both indexes took are
//! marked.
//!
//! As in the rest of the library the work on the outside is the caller's:
//! the machine of this module tells what to do next.

use crate::hybrid_search::{document_id, spec_document_id};
use crate::model::{recipe_views, RecipeWithId, RecipeWithIdView};
use crate::recipe_service::{RecipeRep, RecipeRepView};
use crate::search_indexer::{
    point_of, vector_point, ContextError, ContextErrorView, Error, ErrorView, TaskReport,
    VectorPoint, VectorPointView,
};
use vstd::prelude::*;

verus! {

/// The most recipes that one cycle takes on.
pub const BATCH_SIZE: usize = 50;

/// How long to rest after a cycle in which nothing failed, in milliseconds.
pub const POLL_INTERVAL_MILLIS: u64 = 500;

/// How long to rest after a cycle in which something failed, in milliseconds.
pub const BACKOFF_MILLIS: u64 = 5000;

/// What is added to the trail of a failure of a cycle.
pub const CYCLE_CONTEXT: &'static str = "Failed to index a batch of recipes";

/// The views of a list of points, in the list's order.
pub open spec fn point_views(points: Seq<VectorPoint>) -> Seq<VectorPointView> {
    points.map_values(|p: VectorPoint| p@)
}

/// The views of a list of failures, in the list's order.
pub open spec fn failure_views(failures: Seq<ContextError>) -> Seq<ContextErrorView> {
    failures.map_values(|e: ContextError| e@)
}

/// The views of a list of rows, in the list's order.
pub open spec fn row_views(rows: Seq<RecipeRep>) -> Seq<RecipeRepView> {
    rows.map_values(|r: RecipeRep| r@)
}

/// The recipes of a batch of rows, in the batch's order.
pub open spec fn batch_documents(rows: Seq<RecipeRepView>) -> Seq<RecipeWithIdView> {
    rows.map_values(|r: RecipeRepView| r.model_with_id())
}

/// The points of the recipes of a batch that have an embedding, in the
/// batch's order.
pub open spec fn batch_points(rows: Seq<RecipeRepView>) -> Seq<VectorPointView>
    decreases rows.len(),
{
    if rows.len() == 0 {
        Seq::empty()
    } else {
        match rows.last().embedding {
            Some(vector) => batch_points(rows.drop_last()).push(
                point_of(rows.last().model_with_id(), vector),
            ),
            None => batch_points(rows.drop_last()),
        }
    }
}

/// The keys of the recipes of a batch that have no embedding, in the batch's
/// order: once the lexical index took the batch, nothing more is owed for
/// them.
pub open spec fn batch_plain_keys(rows: Seq<RecipeRepView>) -> Seq<i64>
    decreases rows.len(),
{
    if rows.len() == 0 {
        Seq::empty()
    } else {
        match rows.last().embedding {
            Some(_) => batch_plain_keys(rows.drop_last()),
            None => batch_plain_keys(rows.drop_last()).push(rows.last().id),
        }
    }
}

/// Where the reconciler stands.
#[derive(Debug, Clone, PartialEq, Eq)]
pub enum Reconciler {
    /// Between two cycles.
    Idle,
    /// Waiting for the batch, read under a lock on its rows.
    Selecting,
    /// Waiting for the store to commit a cycle that found nothing to do.
    Committing,
    /// Waiting for the lexical index to work through the batch. `points`
    /// are still to be written; the recipes under `written` need no point.
    WritingDocuments { points: Vec<VectorPoint>, written: Vec<i64> },
    /// Waiting for the vector index to take the point of the recipe under
    /// `current`. `rest` are still to be written; both indexes took the
    /// recipes under `written`; `failures` tells of the points that the
    /// vector index did not take.
    WritingPoint {
        current: i64,
        rest: Vec<VectorPoint>,
        written: Vec<i64>,
        failures: Vec<ContextError>,
    },
    /// Waiting for the store to mark the recipes and commit.
    Marking { failures: Vec<ContextError> },
}

/// What a state of the reconciler holds.
pub enum ReconcilerView {
    Idle,
    Selecting,
    Committing,
    WritingDocuments { points: Seq<VectorPointView>, written: Seq<i64> },
    WritingPoint {
        current: i64,
        rest: Seq<VectorPointView>,
        written: Seq<i64>,
        failures: Seq<ContextErrorView>,
    },
    Marking { failures: Seq<ContextErrorView> },
}

impl View for Reconciler {
    type V = ReconcilerView;

    open spec fn view(&self) -> ReconcilerView {
        match *self {
            Reconciler::Idle => ReconcilerView::Idle,
            Reconciler::Selecting => ReconcilerView::Selecting,
            Reconciler::Committing => ReconcilerView::Committing,
            Reconciler::WritingDocuments { points, written } => ReconcilerView::WritingDocuments {
                points: point_views(points@),
                written: written@,
            },
            Reconciler::WritingPoint { current, rest, written, failures } =>
                ReconcilerView::WritingPoint {
                    current,
                    rest: point_views(rest@),
                    written: written@,
                    failures: failure_views(failures@),
                },
            Reconciler::Marking { failures } => ReconcilerView::Marking {
                failures: failure_views(failures@),
            },
        }
    }
}

/// What came of the last thing that the reconciler asked for.
#[derive(Debug, PartialEq, Eq)]
pub enum ReconcilerEvent {
    /// The rest is over.
    Woke,
    /// The batch: rows not marked as indexed, in ascending order of their
    /// keys, locked until the cycle is over.
    Selected(Result<Vec<RecipeRep>, crate::recipe_service::Error>),
    Committed(Result<(), crate::recipe_service::Error>),
    DocumentsAdded(Result<TaskReport, String>),
    PointUpserted(Result<(), String>),
    Marked(Result<(), crate::recipe_service::Error>),
}

/// What an outcome reported to the reconciler holds.
pub enum ReconcilerEventView {
    Woke,
    Selected(Result<Seq<RecipeRepView>, crate::recipe_service::ErrorView>),
    Committed(Result<(), crate::recipe_service::ErrorView>),
    DocumentsAdded(Result<TaskReport, Seq<char>>),
    PointUpserted(Result<(), Seq<char>>),
    Marked(Result<(), crate::recipe_service::ErrorView>),
}

impl View for ReconcilerEvent {
    type V = ReconcilerEventView;

    open spec fn view(&self) -> ReconcilerEventView {
        match *self {
            ReconcilerEvent::Woke => ReconcilerEventView::Woke,
            ReconcilerEvent::Selected(Ok(rows)) => ReconcilerEventView::Selected(
                Ok(row_views(rows@)),
            ),
            ReconcilerEvent::Selected(Err(e)) => ReconcilerEventView::Selected(Err(e@)),
            ReconcilerEvent::Committed(Ok(())) => ReconcilerEventView::Committed(Ok(())),
            ReconcilerEvent::Committed(Err(e)) => ReconcilerEventView::Committed(Err(e@)),
            ReconcilerEvent::DocumentsAdded(Ok(report)) => ReconcilerEventView::DocumentsAdded(
                Ok(report),
            ),
            ReconcilerEvent::DocumentsAdded(Err(m)) => ReconcilerEventView::DocumentsAdded(
                Err(m@),
            ),
            ReconcilerEvent::PointUpserted(Ok(())) => ReconcilerEventView::PointUpserted(Ok(())),
            ReconcilerEvent::PointUpserted(Err(m)) => ReconcilerEventView::PointUpserted(Err(m@)),
            ReconcilerEvent::Marked(Ok(())) => ReconcilerEventView::Marked(Ok(())),
            ReconcilerEvent::Marked(Err(e)) => ReconcilerEventView::Marked(Err(e@)),
        }
    }
}

/// What the reconciler asks for next.
#[derive(Debug, Clone, PartialEq, Eq)]
pub enum ReconcilerAction {
    /// Open a transaction and read up to `batch_size` rows that are not
    /// marked as indexed, in ascending order of their keys, locking them.
    SelectBatch { batch_size: usize },
    /// Commit the transaction, in which nothing was done.
    Commit,
    /// Put the recipes into the lexical index, each under its key, and wait
    /// until the index has worked through them.
    AddOrUpdate { documents: Vec<RecipeWithId> },
    /// Put the point into the recipes' collection of the vector index.
    UpsertPoint { point: VectorPoint },
    /// Mark the recipes under `ids` as indexed and commit the transaction.
    SetBatchSearchable { ids: Vec<i64> },
    /// Give up the transaction if one is open, report the failures, and rest
    /// for `millis` milliseconds.
    Sleep { millis: u64, reports: Vec<ContextError> },
}

/// What a request of the reconciler holds.
pub enum ReconcilerActionView {
    SelectBatch { batch_size: usize },
    Commit,
    AddOrUpdate { documents: Seq<RecipeWithIdView> },
    UpsertPoint { point: VectorPointView },
    SetBatchSearchable { ids: Seq<i64> },
    Sleep { millis: u64, reports: Seq<ContextErrorView> },
}

impl View for ReconcilerAction {
    type V = ReconcilerActionView;

    open spec fn view(&self) -> ReconcilerActionView {
        match *self {
            ReconcilerAction::SelectBatch { batch_size } => ReconcilerActionView::SelectBatch {
                batch_size,
            },
            ReconcilerAction::Commit => ReconcilerActionView::Commit,
            ReconcilerAction::AddOrUpdate { documents } => ReconcilerActionView::AddOrUpdate {
                documents: recipe_views(documents@),
            },
            ReconcilerAction::UpsertPoint { point } => ReconcilerActionView::UpsertPoint {
                point: point@,
            },
            ReconcilerAction::SetBatchSearchable { ids } =>
                ReconcilerActionView::SetBatchSearchable { ids: ids@ },
            ReconcilerAction::Sleep { millis, reports } => ReconcilerActionView::Sleep {
                millis,
                reports: failure_views(reports@),
            },
        }
    }
}

/// A failure of a cycle, as it is reported.
pub open spec fn cycle_failure(err: ErrorView) -> ContextErrorView {
    ContextErrorView::bare(err).more_context(CYCLE_CONTEXT@)
}

/// The end of a cycle that was given up for the reason `err`: a long rest.
pub open spec fn cycle_given_up(err: ErrorView) -> (ReconcilerView, ReconcilerActionView) {
    (
        ReconcilerView::Idle,
        ReconcilerActionView::Sleep { millis: BACKOFF_MILLIS, reports: seq![cycle_failure(err)] },
    )
}

/// The end of a cycle: a short rest where nothing failed, a long one where
/// something did.
pub open spec fn cycle_over(failures: Seq<ContextErrorView>) -> (
    ReconcilerView,
    ReconcilerActionView,
) {
    (
        ReconcilerView::Idle,
        ReconcilerActionView::Sleep {
            millis: if failures.len() == 0 {
                POLL_INTERVAL_MILLIS
            } else {
                BACKOFF_MILLIS
            },
            reports: failures,
        },
    )
}

/// What a cycle does once the lexical index took the batch: it writes the
/// next point where one is left, and has the written recipes marked where
/// none is.
pub open spec fn cycle_goes_on(
    points: Seq<VectorPointView>,
    written: Seq<i64>,
    failures: Seq<ContextErrorView>,
) -> (ReconcilerView, ReconcilerActionView) {
    if points.len() == 0 {
        (
            ReconcilerView::Marking { failures },
            ReconcilerActionView::SetBatchSearchable { ids: written },
        )
    } else {
        (
            ReconcilerView::WritingPoint {
                current: spec_document_id(points[0].id),
                rest: points.drop_first(),
                written,
                failures,
            },
            ReconcilerActionView::UpsertPoint { point: points[0] },
        )
    }
}

/// How the reconciler goes on: where it stands after `event`, and what it
/// asks for next.
///
/// A recipe is among those to be marked only when the lexical index took the
/// batch and, where the recipe has an embedding, the vector index took its
/// point. A point that the vector index did not take leaves its recipe out
/// and does not stop the cycle. Where the batch cannot be read, the lexical
/// index does not take it, or the store does not commit, the cycle is given
/// up and nothing is marked.
pub open spec fn reconciler_step(state: ReconcilerView, event: ReconcilerEventView) -> (
    ReconcilerView,
    ReconcilerActionView,
) {
    match (state, event) {
        (ReconcilerView::Idle, ReconcilerEventView::Woke) => (
            ReconcilerView::Selecting,
            ReconcilerActionView::SelectBatch { batch_size: BATCH_SIZE },
        ),
        (ReconcilerView::Selecting, ReconcilerEventView::Selected(Ok(rows))) => {
            if rows.len() == 0 {
                (ReconcilerView::Committing, ReconcilerActionView::Commit)
            } else {
                (
                    ReconcilerView::WritingDocuments {
                        points: batch_points(rows),
                        written: batch_plain_keys(rows),
                    },
                    ReconcilerActionView::AddOrUpdate { documents: batch_documents(rows) },
                )
            }
        },
        (ReconcilerView::Selecting, ReconcilerEventView::Selected(Err(e))) => cycle_given_up(
            ErrorView::RecipeAccess(e),
        ),
        (ReconcilerView::Committing, ReconcilerEventView::Committed(Ok(_))) => cycle_over(
            Seq::empty(),
        ),
        (ReconcilerView::Committing, ReconcilerEventView::Committed(Err(e))) => cycle_given_up(
            ErrorView::RecipeAccess(e),
        ),
        (
            ReconcilerView::WritingDocuments { points, written },
            ReconcilerEventView::DocumentsAdded(Ok(report)),
        ) => {
            if report.failed {
                cycle_given_up(ErrorView::MeiliSearchInserteFailure)
            } else {
                cycle_goes_on(points, written, Seq::empty())
            }
        },
        (
            ReconcilerView::WritingDocuments { points, written },
            ReconcilerEventView::DocumentsAdded(Err(m)),
        ) => cycle_given_up(ErrorView::SearchError(m)),
        (
            ReconcilerView::WritingPoint { current, rest, written, failures },
            ReconcilerEventView::PointUpserted(Ok(_)),
        ) => cycle_goes_on(rest, written.push(current), failures),
        (
            ReconcilerView::WritingPoint { current, rest, written, failures },
            ReconcilerEventView::PointUpserted(Err(m)),
        ) => cycle_goes_on(rest, written, failures.push(cycle_failure(ErrorView::Qdrant(m)))),
        (ReconcilerView::Marking { failures }, ReconcilerEventView::Marked(Ok(_))) => cycle_over(
            failures,
        ),
        (ReconcilerView::Marking { failures }, ReconcilerEventView::Marked(Err(e))) => cycle_over(
            failures.push(cycle_failure(ErrorView::RecipeAccess(e))),
        ),
        _ => cycle_given_up(ErrorView::Consistency),
    }
}

fn failure(err: Error) -> (r: ContextError)
    ensures
        r@ == cycle_failure(err@),
{
    ContextError::from(err).more_context(CYCLE_CONTEXT)
}

fn given_up(err: Error) -> (r: (Reconciler, ReconcilerAction))
    ensures
        (r.0@, r.1@) == cycle_given_up(err@),
{
    let mut reports: Vec<ContextError> = Vec::new();
    reports.push(failure(err));
    assert(failure_views(reports@) =~= seq![cycle_failure(err@)]);
    (Reconciler::Idle, ReconcilerAction::Sleep { millis: BACKOFF_MILLIS, reports })
}

fn over(failures: Vec<ContextError>) -> (r: (Reconciler, ReconcilerAction))
    ensures
        (r.0@, r.1@) == cycle_over(failure_views(failures@)),
{
    let millis = if failures.len() == 0 {
        POLL_INTERVAL_MILLIS
    } else {
        BACKOFF_MILLIS
    };
    (Reconciler::Idle, ReconcilerAction::Sleep { millis, reports: failures })
}

fn goes_on(points: Vec<VectorPoint>, written: Vec<i64>, failures: Vec<ContextError>) -> (r: (
    Reconciler,
    ReconcilerAction,
))
    ensures
        (r.0@, r.1@) == cycle_goes_on(point_views(points@), written@, failure_views(failures@)),
{
    if points.len() == 0 {
        (Reconciler::Marking { failures }, ReconcilerAction::SetBatchSearchable { ids: written })
    } else {
        let ghost before = points@;
        let mut rest = points;
        let point = rest.remove(0);
        assert(point_views(rest@) =~= point_views(before).drop_first());
        let current = document_id(point.id);
        (
            Reconciler::WritingPoint { current, rest, written, failures },
            ReconcilerAction::UpsertPoint { point },
        )
    }
}

fn on_batch(rows: Vec<RecipeRep>) -> (r: (Reconciler, ReconcilerAction))
    requires
        rows@.len() > 0,
    ensures
        r.0@ == (ReconcilerView::WritingDocuments {
            points: batch_points(row_views(rows@)),
            written: batch_plain_keys(row_views(rows@)),
        }),
        r.1@ == (ReconcilerActionView::AddOrUpdate {
            documents: batch_documents(row_views(rows@)),
        }),
{
    let ghost all = rows@;
    let ghost views = row_views(all);
    let mut documents: Vec<RecipeWithId> = Vec::new();
    let mut points: Vec<VectorPoint> = Vec::new();
    let mut written: Vec<i64> = Vec::new();
    assert(views.subrange(0, 0) =~= Seq::<RecipeRepView>::empty());
    assert(recipe_views(documents@) =~= batch_documents(views.subrange(0, 0)));
    assert(point_views(points@) =~= Seq::<VectorPointView>::empty());
    for row in iter: rows
        invariant
            iter.seq() == all,
            views == row_views(all),
            recipe_views(documents@) == batch_documents(views.subrange(0, iter.index() as int)),
            point_views(points@) == batch_points(views.subrange(0, iter.index() as int)),
            written@ == batch_plain_keys(views.subrange(0, iter.index() as int)),
    {
        let ghost done = iter.index() as int;
        let ghost before = views.subrange(0, done);
        let ghost after = views.subrange(0, done + 1);
        proof {
            assert(row@ == views[done]);
            assert(after.drop_last() =~= before);
            assert(after.last() == row@);
        }
        let ghost old_documents = documents@;
        let ghost old_points = points@;
        let document = row.model_with_id();
        match vector_point(&document) {
            Some(point) => {
                points.push(point);
                assert(point_views(points@) =~= point_views(old_points).push(point@));
            },
            None => {
                written.push(document.id);
            },
        }
        documents.push(document);
        assert(recipe_views(documents@) =~= recipe_views(old_documents).push(document@));
        assert(batch_documents(after) =~= batch_documents(before).push(row@.model_with_id()));
    }
    assert(views.subrange(0, all.len() as int) =~= views);
    (Reconciler::WritingDocuments { points, written }, ReconcilerAction::AddOrUpdate { documents })
}

impl Reconciler {
    /// The reconciler before its first cycle.
    pub fn new() -> (r: Reconciler)
        ensures
            r@ == ReconcilerView::Idle,
    {
        Reconciler::Idle
    }

    /// Goes on after `event`.
    pub fn step(self, event: ReconcilerEvent) -> (r: (Reconciler, ReconcilerAction))
        ensures
            (r.0@, r.1@) == reconciler_step(self@, event@),
    {
        match self {
            Reconciler::Idle => match event {
                ReconcilerEvent::Woke => (
                    Reconciler::Selecting,
                    ReconcilerAction::SelectBatch { batch_size: BATCH_SIZE },
                ),
                _ => given_up(Error::Consistency),
            },
            Reconciler::Selecting => match event {
                ReconcilerEvent::Selected(Ok(rows)) => {
                    if rows.len() == 0 {
                        assert(row_views(rows@).len() == 0);
                        (Reconciler::Committing, ReconcilerAction::Commit)
                    } else {
                        assert(row_views(rows@).len() != 0);
                        on_batch(rows)
                    }
                },
                ReconcilerEvent::Selected(Err(e)) => given_up(Error::RecipeAccess(e)),
                _ => given_up(Error::Consistency),
            },
            Reconciler::Committing => match event {
                ReconcilerEvent::Committed(Ok(_)) => {
                    let failures: Vec<ContextError> = Vec::new();
                    assert(failure_views(failures@) =~= Seq::empty());
                    over(failures)
                },
                ReconcilerEvent::Committed(Err(e)) => given_up(Error::RecipeAccess(e)),
                _ => given_up(Error::Consistency),
            },
            Reconciler::WritingDocuments { points, written } => match event {
                ReconcilerEvent::DocumentsAdded(Ok(report)) => {
                    if report.failed {
                        given_up(Error::MeiliSearchInserteFailure)
                    } else {
                        let failures: Vec<ContextError> = Vec::new();
                        assert(failure_views(failures@) =~= Seq::empty());
                        goes_on(points, written, failures)
                    }
                },
                ReconcilerEvent::DocumentsAdded(Err(m)) => given_up(Error::SearchError(m)),
                _ => given_up(Error::Consistency),
            },
            Reconciler::WritingPoint { current, rest, written, failures } => match event {
                ReconcilerEvent::PointUpserted(Ok(_)) => {
                    let mut written = written;
                    written.push(current);
                    goes_on(rest, written, failures)
                },
                ReconcilerEvent::PointUpserted(Err(m)) => {
                    let ghost before = failures@;
                    let mut failures = failures;
                    let f = failure(Error::Qdrant(m));
                    failures.push(f);
                    assert(failure_views(failures@) =~= failure_views(before).push(f@));
                    goes_on(rest, written, failures)
                },
                _ => given_up(Error::Consistency),
            },
            Reconciler::Marking { failures } => match event {
                ReconcilerEvent::Marked(Ok(_)) => over(failures),
                ReconcilerEvent::Marked(Err(e)) => {
                    let ghost before = failures@;
                    let mut failures = failures;
                    let f = failure(Error::RecipeAccess(e));
                    failures.push(f);
                    assert(failure_views(failures@) =~= failure_views(before).push(f@));
                    over(failures)
                },
                _ => given_up(Error::Consistency),
            },
        }
    }
}

} // verus!
