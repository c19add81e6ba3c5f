//! Keeps the two search indexes in step with the store.
//!
//! The work on the outside (reading the store, writing to an index, waiting
//! for a notification) is done by the caller. What is decided here is what to
//! do next: each machine of this module takes the outcome of the last thing
//! it asked for and answers with the next thing to do.

use crate::decimal::{decode_i64, parse_i64};
use crate::hybrid_search::{point_key, spec_point_key};
use crate::model::{RecipeWithId, RecipeWithIdView};
use crate::recipe_service::{RecipeRep, RecipeRepView};
use vstd::prelude::*;
use vstd::string::*;

verus! {

/// The lexical index that holds the recipes.
pub const R_ECIPE_S_INDEX_NAME: &'static str = "r_ecipe_s";

/// The field of a recipe that is its key in the lexical index.
pub const PRIMARY_KEY: &'static str = "id";

/// The channel on which the store announces a recipe whose content changed.
pub const NOTIFICATION_CHANNEL: &'static str = "search_index";

/// The number of components of an embedding in the vector index.
pub const EMBEDDING_DIMENSIONS: u64 = 384;

/// What can go wrong while indexing.
#[derive(Debug, Clone, PartialEq, Eq)]
pub enum Error {
    /// The lexical index refused a call or could not be reached.
    SearchError(String),
    /// The connection to the store's notifications failed.
    TransactionError(String),
    /// The store failed.
    RecipeAccess(crate::recipe_service::Error),
    /// The lexical index took the write and then reported that it failed.
    MeiliSearchInserteFailure,
    /// A notification did not carry a recipe's key; holds what it carried.
    NotificationError(String),
    /// The vector index refused a call or could not be reached.
    Qdrant(String),
    /// An outcome was reported that does not answer what was asked for.
    Consistency,
}

/// What a failure of indexing holds.
pub enum ErrorView {
    SearchError(Seq<char>),
    TransactionError(Seq<char>),
    RecipeAccess(crate::recipe_service::ErrorView),
    MeiliSearchInserteFailure,
    NotificationError(Seq<char>),
    Qdrant(Seq<char>),
    Consistency,
}

impl View for Error {
    type V = ErrorView;

    open spec fn view(&self) -> ErrorView {
        match *self {
            Error::SearchError(m) => ErrorView::SearchError(m@),
            Error::TransactionError(m) => ErrorView::TransactionError(m@),
            Error::RecipeAccess(e) => ErrorView::RecipeAccess(e@),
            Error::MeiliSearchInserteFailure => ErrorView::MeiliSearchInserteFailure,
            Error::NotificationError(m) => ErrorView::NotificationError(m@),
            Error::Qdrant(m) => ErrorView::Qdrant(m@),
            Error::Consistency => ErrorView::Consistency,
        }
    }
}

impl ErrorView {
    /// The failure in words.
    pub open spec fn message(self) -> Seq<char> {
        match self {
            ErrorView::SearchError(m) => "Meilisearch Error "@ + m,
            ErrorView::TransactionError(m) => "Transaction Error "@ + m,
            ErrorView::RecipeAccess(e) => "Recipe Access Error "@ + e.message(),
            ErrorView::MeiliSearchInserteFailure => "Failed insert into Meilisearch"@,
            ErrorView::NotificationError(m) =>
                "Failed to parse i64 id. Check notification query in db. "@ + m,
            ErrorView::Qdrant(m) => "Qdrant error: "@ + m,
            ErrorView::Consistency => "Outcome does not answer what was asked for"@,
        }
    }
}

impl Error {
    /// The failure of a call to the vector index, from its report.
    pub fn qdrant(report: String) -> (r: Error)
        ensures
            r@ == ErrorView::Qdrant(report@),
    {
        Error::Qdrant(report)
    }

    /// The failure in words.
    pub fn message(&self) -> (r: String)
        ensures
            r@ == self@.message(),
    {
        match self {
            Error::SearchError(m) => {
                let mut r = String::from_str("Meilisearch Error ");
                r.append(m.as_str());
                r
            },
            Error::TransactionError(m) => {
                let mut r = String::from_str("Transaction Error ");
                r.append(m.as_str());
                r
            },
            Error::RecipeAccess(e) => {
                let mut r = String::from_str("Recipe Access Error ");
                r.append(e.message().as_str());
                r
            },
            Error::MeiliSearchInserteFailure => String::from_str("Failed insert into Meilisearch"),
            Error::NotificationError(m) => {
                let mut r = String::from_str(
                    "Failed to parse i64 id. Check notification query in db. ",
                );
                r.append(m.as_str());
                r
            },
            Error::Qdrant(m) => {
                let mut r = String::from_str("Qdrant error: ");
                r.append(m.as_str());
                r
            },
            Error::Consistency => String::from_str("Outcome does not answer what was asked for"),
        }
    }
}

/// A failure with the trail of what was being attempted when it happened,
/// innermost attempt first.
#[derive(Debug, Clone, PartialEq, Eq)]
pub struct ContextError {
    pub err: Error,
    pub context: Vec<String>,
}

/// What a failure with its trail holds.
pub struct ContextErrorView {
    pub err: ErrorView,
    pub context: Seq<Seq<char>>,
}

impl View for ContextError {
    type V = ContextErrorView;

    open spec fn view(&self) -> ContextErrorView {
        ContextErrorView { err: self.err@, context: self.context@.map_values(|s: String| s@) }
    }
}

/// The lines of a trail, each closed by a line feed.
pub open spec fn context_lines(context: Seq<Seq<char>>) -> Seq<char>
    decreases context.len(),
{
    if context.len() == 0 {
        Seq::empty()
    } else {
        context_lines(context.drop_last()) + context.last() + "\n"@
    }
}

impl ContextErrorView {
    /// The failure alone, with no trail yet.
    pub open spec fn bare(err: ErrorView) -> ContextErrorView {
        ContextErrorView { err, context: Seq::empty() }
    }

    /// The failure with one more attempt at the end of its trail.
    pub open spec fn more_context(self, message: Seq<char>) -> ContextErrorView {
        ContextErrorView { err: self.err, context: self.context.push(message) }
    }

    /// The failure and its trail in words: the failure, the heading, an
    /// empty line, then one line for each attempt.
    pub open spec fn render(self) -> Seq<char> {
        self.err.message() + ", context:\n\n"@ + context_lines(self.context)
    }
}

impl ContextError {
    /// The failure alone, with no trail yet.
    pub fn from(err: Error) -> (r: ContextError)
        ensures
            r@ == ContextErrorView::bare(err@),
    {
        let r = ContextError { err, context: Vec::new() };
        assert(r@.context =~= Seq::empty());
        r
    }

    /// Adds what was being attempted to the trail.
    pub fn more_context(self, message: &str) -> (r: ContextError)
        ensures
            r@ == self@.more_context(message@),
    {
        let ContextError { err, context } = self;
        let mut context = context;
        let ghost before = context@;
        context.push(String::from_str(message));
        let r = ContextError { err, context };
        assert(r@.context =~= before.map_values(|s: String| s@).push(message@));
        r
    }

    /// The failure and its trail in words.
    pub fn render(&self) -> (r: String)
        ensures
            r@ == self@.render(),
    {
        let mut r = self.err.message();
        r.append(", context:\n\n");
        let ghost head = r@;
        let ghost lines = self@.context;
        let mut i: usize = 0;
        assert(lines.subrange(0, 0) =~= Seq::<Seq<char>>::empty());
        while i < self.context.len()
            invariant
                i <= self.context@.len(),
                lines == self@.context,
                lines.len() == self.context@.len(),
                r@ == head + context_lines(lines.subrange(0, i as int)),
            decreases self.context@.len() - i,
        {
            assert(lines.subrange(0, i + 1).drop_last() =~= lines.subrange(0, i as int));
            assert(lines.subrange(0, i + 1).last() == self.context@[i as int]@);
            r.append(self.context[i].as_str());
            r.append("\n");
            assert(r@ =~= head + context_lines(lines.subrange(0, i + 1)));
            i = i + 1;
        }
        assert(lines.subrange(0, i as int) =~= lines);
        r
    }
}

/// The outcome of an attempt, with what was being attempted added to the
/// trail where it failed.
pub fn context<T>(result: Result<T, ContextError>, message: &str) -> (r: Result<T, ContextError>)
    ensures
        result matches Ok(v) ==> r == Ok::<T, ContextError>(v),
        result matches Err(e) ==> (r matches Err(f) && f@ == e@.more_context(message@)),
{
    match result {
        Ok(v) => Ok(v),
        Err(e) => Err(e.more_context(message)),
    }
}

/// A point of the vector index: a recipe's embedding under the recipe's key,
/// with the recipe's name and description as its payload and nothing else.
#[derive(Debug, Clone, PartialEq, Eq)]
pub struct VectorPoint {
    pub id: u64,
    pub name: String,
    pub description: String,
    pub vector: Vec<u32>,
}

/// What a point holds.
pub struct VectorPointView {
    pub id: u64,
    pub name: Seq<char>,
    pub description: Seq<char>,
    pub vector: Seq<u32>,
}

impl View for VectorPoint {
    type V = VectorPointView;

    open spec fn view(&self) -> VectorPointView {
        VectorPointView {
            id: self.id,
            name: self.name@,
            description: self.description@,
            vector: self.vector@,
        }
    }
}

/// The point that stands for a recipe with the embedding `vector`.
pub open spec fn point_of(document: RecipeWithIdView, vector: Seq<u32>) -> VectorPointView {
    VectorPointView {
        id: spec_point_key(document.id),
        name: document.data.name,
        description: document.data.description,
        vector,
    }
}

fn copy_of(vector: &Vec<u32>) -> (r: Vec<u32>)
    ensures
        r@ == vector@,
{
    let mut r: Vec<u32> = Vec::new();
    let mut i: usize = 0;
    while i < vector.len()
        invariant
            i <= vector@.len(),
            r@ == vector@.subrange(0, i as int),
        decreases vector@.len() - i,
    {
        r.push(vector[i]);
        assert(r@ =~= vector@.subrange(0, i + 1));
        i = i + 1;
    }
    assert(vector@.subrange(0, i as int) =~= vector@);
    r
}

/// The point to write for a recipe: none for a recipe without an embedding.
pub fn vector_point(document: &RecipeWithId) -> (r: Option<VectorPoint>)
    ensures
        document@.data.embedding is None ==> r is None,
        document@.data.embedding matches Some(v) ==> (r matches Some(p) && p@ == point_of(
            document@,
            v,
        )),
{
    match &document.data.embedding {
        Some(vector) => Some(
            VectorPoint {
                id: point_key(document.id),
                name: document.data.name.clone(),
                description: document.data.description.clone(),
                vector: copy_of(vector),
            },
        ),
        None => None,
    }
}

/// How an attempt to index one recipe ended, where it did not fail.
#[derive(Debug, Clone, Copy, PartialEq, Eq, Structural)]
pub enum IndexOutcome {
    /// The store holds no recipe under the key; nothing was written.
    Missing,
    /// The recipe was marked as indexed already; nothing was written.
    AlreadyIndexed,
    /// Both indexes took the recipe, and then it was marked as indexed.
    Indexed,
}

/// What the lexical index reports when it has worked through a write.
#[derive(Debug, Clone, Copy, PartialEq, Eq, Structural)]
pub struct TaskReport {
    pub failed: bool,
}

/// Where an attempt to index one recipe stands.
#[derive(Debug, Clone, PartialEq, Eq)]
pub enum IndexWriter {
    /// Waiting for the recipe's row, read under a lock on that row.
    Loading { id: i64 },
    /// Waiting for the vector index to take the recipe's point.
    WritingPoint { document: RecipeWithId },
    /// Waiting for the lexical index to work through the recipe.
    WritingDocument { id: i64 },
    /// Waiting for the store to mark the recipe and commit.
    Marking { id: i64 },
    /// The attempt is over.
    Closed,
}

/// What a state of the index writer holds.
pub enum IndexWriterView {
    Loading { id: i64 },
    WritingPoint { document: RecipeWithIdView },
    WritingDocument { id: i64 },
    Marking { id: i64 },
    Closed,
}

impl View for IndexWriter {
    type V = IndexWriterView;

    open spec fn view(&self) -> IndexWriterView {
        match *self {
            IndexWriter::Loading { id } => IndexWriterView::Loading { id },
            IndexWriter::WritingPoint { document } => IndexWriterView::WritingPoint {
                document: document@,
            },
            IndexWriter::WritingDocument { id } => IndexWriterView::WritingDocument { id },
            IndexWriter::Marking { id } => IndexWriterView::Marking { id },
            IndexWriter::Closed => IndexWriterView::Closed,
        }
    }
}

/// What came of the last thing that an attempt asked for.
#[derive(Debug, PartialEq, Eq)]
pub enum WriterEvent {
    /// The row under the key, if there is one; the row stays locked until
    /// the attempt is over.
    Loaded(Result<Option<RecipeRep>, crate::recipe_service::Error>),
    /// The vector index took the point, or why it did not.
    PointUpserted(Result<(), String>),
    /// The lexical index worked through the recipe and reports, or why it
    /// could not be asked.
    DocumentAdded(Result<TaskReport, String>),
    /// The store marked the recipe and committed, or why it did not.
    Marked(Result<(), crate::recipe_service::Error>),
}

/// What an outcome reported to the index writer holds.
pub enum WriterEventView {
    Loaded(Result<Option<RecipeRepView>, crate::recipe_service::ErrorView>),
    PointUpserted(Result<(), Seq<char>>),
    DocumentAdded(Result<TaskReport, Seq<char>>),
    Marked(Result<(), crate::recipe_service::ErrorView>),
}

impl View for WriterEvent {
    type V = WriterEventView;

    open spec fn view(&self) -> WriterEventView {
        match *self {
            WriterEvent::Loaded(Ok(Some(row))) => WriterEventView::Loaded(Ok(Some(row@))),
            WriterEvent::Loaded(Ok(None)) => WriterEventView::Loaded(Ok(None)),
            WriterEvent::Loaded(Err(e)) => WriterEventView::Loaded(Err(e@)),
            WriterEvent::PointUpserted(Ok(())) => WriterEventView::PointUpserted(Ok(())),
            WriterEvent::PointUpserted(Err(m)) => WriterEventView::PointUpserted(Err(m@)),
            WriterEvent::DocumentAdded(Ok(report)) => WriterEventView::DocumentAdded(Ok(report)),
            WriterEvent::DocumentAdded(Err(m)) => WriterEventView::DocumentAdded(Err(m@)),
            WriterEvent::Marked(Ok(())) => WriterEventView::Marked(Ok(())),
            WriterEvent::Marked(Err(e)) => WriterEventView::Marked(Err(e@)),
        }
    }
}

/// What an attempt asks for next.
#[derive(Debug, PartialEq, Eq)]
pub enum WriterAction {
    /// Open a transaction and read the row under `id`, locking it.
    LoadForUpdate { id: i64 },
    /// Put the point into the recipes' collection of the vector index, in
    /// place of any point with the same key.
    UpsertPoint { point: VectorPoint },
    /// Put the recipe into the lexical index under its key, in place of any
    /// recipe with the same key, and wait until the index has worked
    /// through it.
    AddOrUpdate { document: RecipeWithId },
    /// Mark the recipe under `id` as indexed and commit the transaction.
    SetSearchable { id: i64 },
    /// Nothing more: the attempt is over. Where a transaction is still open,
    /// it is given up without a commit.
    Finish { outcome: Result<IndexOutcome, ContextError> },
}

/// What a request of the index writer holds.
pub enum WriterActionView {
    LoadForUpdate { id: i64 },
    UpsertPoint { point: VectorPointView },
    AddOrUpdate { document: RecipeWithIdView },
    SetSearchable { id: i64 },
    Finish { outcome: Result<IndexOutcome, ContextErrorView> },
}

impl View for WriterAction {
    type V = WriterActionView;

    open spec fn view(&self) -> WriterActionView {
        match *self {
            WriterAction::LoadForUpdate { id } => WriterActionView::LoadForUpdate { id },
            WriterAction::UpsertPoint { point } => WriterActionView::UpsertPoint { point: point@ },
            WriterAction::AddOrUpdate { document } => WriterActionView::AddOrUpdate {
                document: document@,
            },
            WriterAction::SetSearchable { id } => WriterActionView::SetSearchable { id },
            WriterAction::Finish { outcome: Ok(o) } => WriterActionView::Finish { outcome: Ok(o) },
            WriterAction::Finish { outcome: Err(e) } => WriterActionView::Finish {
                outcome: Err(e@),
            },
        }
    }
}

/// The end of an attempt that failed with `err`.
pub open spec fn writer_failed(err: ErrorView) -> (IndexWriterView, WriterActionView) {
    (
        IndexWriterView::Closed,
        WriterActionView::Finish { outcome: Err(ContextErrorView::bare(err)) },
    )
}

/// The end of an attempt that did not fail.
pub open spec fn writer_done(outcome: IndexOutcome) -> (IndexWriterView, WriterActionView) {
    (IndexWriterView::Closed, WriterActionView::Finish { outcome: Ok(outcome) })
}

/// What an attempt does with the row it asked for.
pub open spec fn writer_on_row(id: i64, row: RecipeRepView) -> (IndexWriterView, WriterActionView) {
    if row.id != id {
        writer_failed(ErrorView::Consistency)
    } else if row.searchable {
        writer_done(IndexOutcome::AlreadyIndexed)
    } else {
        match row.embedding {
            Some(vector) => (
                IndexWriterView::WritingPoint { document: row.model_with_id() },
                WriterActionView::UpsertPoint { point: point_of(row.model_with_id(), vector) },
            ),
            None => (
                IndexWriterView::WritingDocument { id },
                WriterActionView::AddOrUpdate { document: row.model_with_id() },
            ),
        }
    }
}

/// How an attempt goes on: where it stands after `event`, and what it asks
/// for next.
///
/// The recipe is marked only after the lexical index has reported that it
/// worked through it without failure, which is asked for only after the
/// vector index took the recipe's point, where the recipe has an embedding.
/// Every failure ends the attempt with the recipe unmarked.
pub open spec fn writer_step(state: IndexWriterView, event: WriterEventView) -> (
    IndexWriterView,
    WriterActionView,
) {
    match (state, event) {
        (IndexWriterView::Loading { id }, WriterEventView::Loaded(Ok(None))) => writer_done(
            IndexOutcome::Missing,
        ),
        (IndexWriterView::Loading { id }, WriterEventView::Loaded(Ok(Some(row)))) => writer_on_row(
            id,
            row,
        ),
        (IndexWriterView::Loading { id }, WriterEventView::Loaded(Err(e))) => writer_failed(
            ErrorView::RecipeAccess(e),
        ),
        (IndexWriterView::WritingPoint { document }, WriterEventView::PointUpserted(Ok(_))) => (
            IndexWriterView::WritingDocument { id: document.id },
            WriterActionView::AddOrUpdate { document },
        ),
        (IndexWriterView::WritingPoint { document }, WriterEventView::PointUpserted(Err(m))) =>
            writer_failed(ErrorView::Qdrant(m)),
        (IndexWriterView::WritingDocument { id }, WriterEventView::DocumentAdded(Ok(report))) => {
            if report.failed {
                writer_failed(ErrorView::MeiliSearchInserteFailure)
            } else {
                (IndexWriterView::Marking { id }, WriterActionView::SetSearchable { id })
            }
        },
        (IndexWriterView::WritingDocument { id }, WriterEventView::DocumentAdded(Err(m))) =>
            writer_failed(ErrorView::SearchError(m)),
        (IndexWriterView::Marking { id }, WriterEventView::Marked(Ok(_))) => writer_done(
            IndexOutcome::Indexed,
        ),
        (IndexWriterView::Marking { id }, WriterEventView::Marked(Err(e))) => writer_failed(
            ErrorView::RecipeAccess(e),
        ),
        _ => writer_failed(ErrorView::Consistency),
    }
}

fn failed(err: Error) -> (r: (IndexWriter, WriterAction))
    ensures
        (r.0@, r.1@) == writer_failed(err@),
{
    (IndexWriter::Closed, WriterAction::Finish { outcome: Err(ContextError::from(err)) })
}

fn done(outcome: IndexOutcome) -> (r: (IndexWriter, WriterAction))
    ensures
        (r.0@, r.1@) == writer_done(outcome),
{
    (IndexWriter::Closed, WriterAction::Finish { outcome: Ok(outcome) })
}

fn on_row(id: i64, row: RecipeRep) -> (r: (IndexWriter, WriterAction))
    ensures
        (r.0@, r.1@) == writer_on_row(id, row@),
{
    if row.id != id {
        failed(Error::Consistency)
    } else if row.searchable {
        done(IndexOutcome::AlreadyIndexed)
    } else {
        let document = row.model_with_id();
        match vector_point(&document) {
            Some(point) => (
                IndexWriter::WritingPoint { document },
                WriterAction::UpsertPoint { point },
            ),
            None => (IndexWriter::WritingDocument { id }, WriterAction::AddOrUpdate { document }),
        }
    }
}

impl IndexWriter {
    /// Begins an attempt to index the recipe under `id`.
    pub fn index(id: i64) -> (r: (IndexWriter, WriterAction))
        ensures
            r.0@ == (IndexWriterView::Loading { id }),
            r.1@ == (WriterActionView::LoadForUpdate { id }),
    {
        (IndexWriter::Loading { id }, WriterAction::LoadForUpdate { id })
    }

    /// Goes on with the attempt after `event`.
    pub fn step(self, event: WriterEvent) -> (r: (IndexWriter, WriterAction))
        ensures
            (r.0@, r.1@) == writer_step(self@, event@),
    {
        match self {
            IndexWriter::Loading { id } => match event {
                WriterEvent::Loaded(Ok(None)) => done(IndexOutcome::Missing),
                WriterEvent::Loaded(Ok(Some(row))) => on_row(id, row),
                WriterEvent::Loaded(Err(e)) => failed(Error::RecipeAccess(e)),
                _ => failed(Error::Consistency),
            },
            IndexWriter::WritingPoint { document } => match event {
                WriterEvent::PointUpserted(Ok(_)) => (
                    IndexWriter::WritingDocument { id: document.id },
                    WriterAction::AddOrUpdate { document },
                ),
                WriterEvent::PointUpserted(Err(m)) => failed(Error::Qdrant(m)),
                _ => failed(Error::Consistency),
            },
            IndexWriter::WritingDocument { id } => match event {
                WriterEvent::DocumentAdded(Ok(report)) => {
                    if report.failed {
                        failed(Error::MeiliSearchInserteFailure)
                    } else {
                        (IndexWriter::Marking { id }, WriterAction::SetSearchable { id })
                    }
                },
                WriterEvent::DocumentAdded(Err(m)) => failed(Error::SearchError(m)),
                _ => failed(Error::Consistency),
            },
            IndexWriter::Marking { id } => match event {
                WriterEvent::Marked(Ok(_)) => done(IndexOutcome::Indexed),
                WriterEvent::Marked(Err(e)) => failed(Error::RecipeAccess(e)),
                _ => failed(Error::Consistency),
            },
            IndexWriter::Closed => failed(Error::Consistency),
        }
    }

    /// Whether the attempt is over.
    pub fn is_closed(&self) -> (r: bool)
        ensures
            r == (self@ is Closed),
    {
        match self {
            IndexWriter::Closed => true,
            _ => false,
        }
    }
}

/// What is added to the trail of a failure that cost one notification.
pub const NOTIFICATION_CONTEXT: &'static str = "Failed to process a notification";

/// What is added to the trail where a payload is not a key.
pub const PARSE_CONTEXT: &'static str = "Failed to parse i64 form notification";

/// What is added to the trail where the listener cannot be made.
pub const CONNECT_CONTEXT: &'static str = "Failed to create listener";

/// What is added to the trail where the channel cannot be subscribed to.
pub const LISTEN_CONTEXT: &'static str = "Failed to start listening to 'search_index' topic";

/// What a notification's payload stands for: the key it writes in decimal,
/// or the failure to read one.
pub open spec fn notification_key(payload: Seq<char>) -> Result<i64, ContextErrorView> {
    match decode_i64(payload) {
        Some(id) => Ok(id),
        None => Err(
            ContextErrorView::bare(ErrorView::NotificationError(payload)).more_context(
                PARSE_CONTEXT@,
            ),
        ),
    }
}

/// Reads the key of the recipe that a notification announces.
pub fn process_notification(payload: &str) -> (r: Result<i64, ContextError>)
    ensures
        decode_i64(payload@) matches Some(id) ==> r == Ok::<i64, ContextError>(id),
        decode_i64(payload@) is None ==> (r matches Err(e) && Err::<i64, ContextErrorView>(e@)
            == notification_key(payload@)),
{
    match parse_i64(payload) {
        Some(id) => Ok(id),
        None => Err(
            ContextError::from(Error::NotificationError(String::from_str(payload))).more_context(
                PARSE_CONTEXT,
            ),
        ),
    }
}

/// How the vector index compares embeddings.
#[derive(Debug, Clone, Copy, PartialEq, Eq, Structural)]
pub enum Distance {
    Cosine,
}

/// Whether the lexical index knows an index by the name asked for.
#[derive(Debug, Clone, Copy, PartialEq, Eq, Structural)]
pub enum IndexLookup {
    Found,
    NotFound,
}

/// Where the indexing task stands: it first sees to it that both indexes
/// have a place for the recipes, then subscribes to the store's
/// notifications, then indexes every recipe that is announced, one at a
/// time, in the order of the announcements.
#[derive(Debug, Clone, Copy, PartialEq, Eq, Structural)]
pub enum Indexer {
    CheckingCollection,
    CreatingCollection,
    CheckingIndex,
    CreatingIndex,
    Connecting,
    Subscribing,
    /// Waiting for the next notification.
    Listening,
    /// Waiting for the end of the attempt to index an announced recipe.
    Indexing,
    /// The task is over.
    Stopped,
}

/// What came of the last thing that the indexing task asked for.
#[derive(Debug, PartialEq, Eq)]
pub enum IndexerEvent {
    /// Whether the vector index has the recipes' collection.
    CollectionChecked(Result<bool, String>),
    CollectionCreated(Result<(), String>),
    /// Whether the lexical index has the recipes' index.
    IndexChecked(Result<IndexLookup, String>),
    IndexCreated(Result<(), String>),
    Connected(Result<(), String>),
    Subscribed(Result<(), String>),
    /// The payload of the next notification, or why none can come any more.
    Notified(Result<String, String>),
    /// How the attempt to index the announced recipe ended.
    Indexed(Result<IndexOutcome, ContextError>),
}

/// What an outcome reported to the indexing task holds.
pub enum IndexerEventView {
    CollectionChecked(Result<bool, Seq<char>>),
    CollectionCreated(Result<(), Seq<char>>),
    IndexChecked(Result<IndexLookup, Seq<char>>),
    IndexCreated(Result<(), Seq<char>>),
    Connected(Result<(), Seq<char>>),
    Subscribed(Result<(), Seq<char>>),
    Notified(Result<Seq<char>, Seq<char>>),
    Indexed(Result<IndexOutcome, ContextErrorView>),
}

impl View for IndexerEvent {
    type V = IndexerEventView;

    open spec fn view(&self) -> IndexerEventView {
        match *self {
            IndexerEvent::CollectionChecked(Ok(b)) => IndexerEventView::CollectionChecked(Ok(b)),
            IndexerEvent::CollectionChecked(Err(m)) => IndexerEventView::CollectionChecked(
                Err(m@),
            ),
            IndexerEvent::CollectionCreated(Ok(())) => IndexerEventView::CollectionCreated(Ok(())),
            IndexerEvent::CollectionCreated(Err(m)) => IndexerEventView::CollectionCreated(
                Err(m@),
            ),
            IndexerEvent::IndexChecked(Ok(l)) => IndexerEventView::IndexChecked(Ok(l)),
            IndexerEvent::IndexChecked(Err(m)) => IndexerEventView::IndexChecked(Err(m@)),
            IndexerEvent::IndexCreated(Ok(())) => IndexerEventView::IndexCreated(Ok(())),
            IndexerEvent::IndexCreated(Err(m)) => IndexerEventView::IndexCreated(Err(m@)),
            IndexerEvent::Connected(Ok(())) => IndexerEventView::Connected(Ok(())),
            IndexerEvent::Connected(Err(m)) => IndexerEventView::Connected(Err(m@)),
            IndexerEvent::Subscribed(Ok(())) => IndexerEventView::Subscribed(Ok(())),
            IndexerEvent::Subscribed(Err(m)) => IndexerEventView::Subscribed(Err(m@)),
            IndexerEvent::Notified(Ok(p)) => IndexerEventView::Notified(Ok(p@)),
            IndexerEvent::Notified(Err(m)) => IndexerEventView::Notified(Err(m@)),
            IndexerEvent::Indexed(Ok(o)) => IndexerEventView::Indexed(Ok(o)),
            IndexerEvent::Indexed(Err(e)) => IndexerEventView::Indexed(Err(e@)),
        }
    }
}

/// What the indexing task asks for next.
#[derive(Debug, Clone, PartialEq, Eq)]
pub enum IndexerAction {
    /// Ask the vector index whether it has the recipes' collection.
    HasCollection,
    /// Have the vector index make the recipes' collection.
    CreateCollection { size: u64, distance: Distance },
    /// Ask the lexical index for the recipes' index.
    GetIndex,
    /// Have the lexical index make the recipes' index.
    CreateIndex,
    /// Connect to the store's notifications.
    Connect,
    /// Subscribe to the channel.
    Listen { channel: &'static str },
    /// Report the failure, if there is one, then wait for the next
    /// notification.
    Receive { report: Option<ContextError> },
    /// Index the recipe under `id` and tell how it ended.
    Index { id: i64 },
    /// Nothing more: the task is over, and whoever watches over it is told
    /// why.
    Stop { cause: ContextError },
}

/// What a request of the indexing task holds.
pub enum IndexerActionView {
    HasCollection,
    CreateCollection { size: u64, distance: Distance },
    GetIndex,
    CreateIndex,
    Connect,
    Listen { channel: Seq<char> },
    Receive { report: Option<ContextErrorView> },
    Index { id: i64 },
    Stop { cause: ContextErrorView },
}

impl View for IndexerAction {
    type V = IndexerActionView;

    open spec fn view(&self) -> IndexerActionView {
        match *self {
            IndexerAction::HasCollection => IndexerActionView::HasCollection,
            IndexerAction::CreateCollection { size, distance } =>
                IndexerActionView::CreateCollection { size, distance },
            IndexerAction::GetIndex => IndexerActionView::GetIndex,
            IndexerAction::CreateIndex => IndexerActionView::CreateIndex,
            IndexerAction::Connect => IndexerActionView::Connect,
            IndexerAction::Listen { channel } => IndexerActionView::Listen { channel: channel@ },
            IndexerAction::Receive { report: Some(e) } => IndexerActionView::Receive {
                report: Some(e@),
            },
            IndexerAction::Receive { report: None } => IndexerActionView::Receive { report: None },
            IndexerAction::Index { id } => IndexerActionView::Index { id },
            IndexerAction::Stop { cause } => IndexerActionView::Stop { cause: cause@ },
        }
    }
}

/// The end of the task for the reason `cause`.
pub open spec fn indexer_stopped(cause: ContextErrorView) -> (Indexer, IndexerActionView) {
    (Indexer::Stopped, IndexerActionView::Stop { cause })
}

/// The task goes on to wait for the next notification, with nothing to
/// report.
pub open spec fn indexer_waits() -> (Indexer, IndexerActionView) {
    (Indexer::Listening, IndexerActionView::Receive { report: None })
}

/// The task goes on to wait for the next notification and reports the
/// failure that cost the last one.
pub open spec fn indexer_skips(failure: ContextErrorView) -> (Indexer, IndexerActionView) {
    (
        Indexer::Listening,
        IndexerActionView::Receive { report: Some(failure.more_context(NOTIFICATION_CONTEXT@)) },
    )
}

/// How the indexing task goes on: where it stands after `event`, and what it
/// asks for next.
///
/// A notification whose payload is not a key, and a recipe that could not be
/// indexed, each cost that one notification only: the failure is reported
/// and the task waits for the next one. The task ends when a place for the
/// recipes cannot be had, and when notifications cannot be had any more.
pub open spec fn indexer_step(state: Indexer, event: IndexerEventView) -> (
    Indexer,
    IndexerActionView,
) {
    match (state, event) {
        (Indexer::CheckingCollection, IndexerEventView::CollectionChecked(Ok(has))) => if has {
            (Indexer::CheckingIndex, IndexerActionView::GetIndex)
        } else {
            (
                Indexer::CreatingCollection,
                IndexerActionView::CreateCollection {
                    size: EMBEDDING_DIMENSIONS,
                    distance: Distance::Cosine,
                },
            )
        },
        (Indexer::CheckingCollection, IndexerEventView::CollectionChecked(Err(m))) =>
            indexer_stopped(ContextErrorView::bare(ErrorView::Qdrant(m))),
        (Indexer::CreatingCollection, IndexerEventView::CollectionCreated(Ok(_))) => (
            Indexer::CheckingIndex,
            IndexerActionView::GetIndex,
        ),
        (Indexer::CreatingCollection, IndexerEventView::CollectionCreated(Err(m))) =>
            indexer_stopped(ContextErrorView::bare(ErrorView::Qdrant(m))),
        (Indexer::CheckingIndex, IndexerEventView::IndexChecked(Ok(lookup))) => match lookup {
            IndexLookup::Found => (Indexer::Connecting, IndexerActionView::Connect),
            IndexLookup::NotFound => (Indexer::CreatingIndex, IndexerActionView::CreateIndex),
        },
        (Indexer::CheckingIndex, IndexerEventView::IndexChecked(Err(m))) => indexer_stopped(
            ContextErrorView::bare(ErrorView::SearchError(m)),
        ),
        (Indexer::CreatingIndex, IndexerEventView::IndexCreated(Ok(_))) => (
            Indexer::Connecting,
            IndexerActionView::Connect,
        ),
        (Indexer::CreatingIndex, IndexerEventView::IndexCreated(Err(m))) => indexer_stopped(
            ContextErrorView::bare(ErrorView::SearchError(m)),
        ),
        (Indexer::Connecting, IndexerEventView::Connected(Ok(_))) => (
            Indexer::Subscribing,
            IndexerActionView::Listen { channel: NOTIFICATION_CHANNEL@ },
        ),
        (Indexer::Connecting, IndexerEventView::Connected(Err(m))) => indexer_stopped(
            ContextErrorView::bare(ErrorView::TransactionError(m)).more_context(CONNECT_CONTEXT@),
        ),
        (Indexer::Subscribing, IndexerEventView::Subscribed(Ok(_))) => indexer_waits(),
        (Indexer::Subscribing, IndexerEventView::Subscribed(Err(m))) => indexer_stopped(
            ContextErrorView::bare(ErrorView::TransactionError(m)).more_context(LISTEN_CONTEXT@),
        ),
        (Indexer::Listening, IndexerEventView::Notified(Ok(payload))) => match notification_key(
            payload,
        ) {
            Ok(id) => (Indexer::Indexing, IndexerActionView::Index { id }),
            Err(failure) => indexer_skips(failure),
        },
        (Indexer::Listening, IndexerEventView::Notified(Err(m))) => indexer_stopped(
            ContextErrorView::bare(ErrorView::TransactionError(m)),
        ),
        (Indexer::Indexing, IndexerEventView::Indexed(Ok(_))) => indexer_waits(),
        (Indexer::Indexing, IndexerEventView::Indexed(Err(failure))) => indexer_skips(failure),
        _ => indexer_stopped(ContextErrorView::bare(ErrorView::Consistency)),
    }
}

fn stopped(cause: ContextError) -> (r: (Indexer, IndexerAction))
    ensures
        (r.0, r.1@) == indexer_stopped(cause@),
{
    (Indexer::Stopped, IndexerAction::Stop { cause })
}

fn skips(failure: ContextError) -> (r: (Indexer, IndexerAction))
    ensures
        (r.0, r.1@) == indexer_skips(failure@),
{
    (
        Indexer::Listening,
        IndexerAction::Receive { report: Some(failure.more_context(NOTIFICATION_CONTEXT)) },
    )
}

/// Begins the indexing task.
pub fn index_loop_start() -> (r: (Indexer, IndexerAction))
    ensures
        r.0 == Indexer::CheckingCollection,
        r.1@ == IndexerActionView::HasCollection,
{
    (Indexer::CheckingCollection, IndexerAction::HasCollection)
}

/// Goes on with the indexing task after `event`.
pub fn index_loop(state: Indexer, event: IndexerEvent) -> (r: (Indexer, IndexerAction))
    ensures
        (r.0, r.1@) == indexer_step(state, event@),
        state == Indexer::Listening && (event@ matches IndexerEventView::Notified(Ok(_))) ==> r.0
            != Indexer::Stopped,
        state == Indexer::Indexing && event@ is Indexed ==> r.0 == Indexer::Listening,
{
    match state {
        Indexer::CheckingCollection => match event {
            IndexerEvent::CollectionChecked(Ok(has)) => {
                if has {
                    (Indexer::CheckingIndex, IndexerAction::GetIndex)
                } else {
                    (
                        Indexer::CreatingCollection,
                        IndexerAction::CreateCollection { size: 384, distance: Distance::Cosine },
                    )
                }
            },
            IndexerEvent::CollectionChecked(Err(m)) => stopped(
                ContextError::from(Error::Qdrant(m)),
            ),
            _ => stopped(ContextError::from(Error::Consistency)),
        },
        Indexer::CreatingCollection => match event {
            IndexerEvent::CollectionCreated(Ok(_)) => (
                Indexer::CheckingIndex,
                IndexerAction::GetIndex,
            ),
            IndexerEvent::CollectionCreated(Err(m)) => stopped(
                ContextError::from(Error::Qdrant(m)),
            ),
            _ => stopped(ContextError::from(Error::Consistency)),
        },
        Indexer::CheckingIndex => match event {
            IndexerEvent::IndexChecked(Ok(lookup)) => match lookup {
                IndexLookup::Found => (Indexer::Connecting, IndexerAction::Connect),
                IndexLookup::NotFound => (Indexer::CreatingIndex, IndexerAction::CreateIndex),
            },
            IndexerEvent::IndexChecked(Err(m)) => stopped(
                ContextError::from(Error::SearchError(m)),
            ),
            _ => stopped(ContextError::from(Error::Consistency)),
        },
        Indexer::CreatingIndex => match event {
            IndexerEvent::IndexCreated(Ok(_)) => (Indexer::Connecting, IndexerAction::Connect),
            IndexerEvent::IndexCreated(Err(m)) => stopped(
                ContextError::from(Error::SearchError(m)),
            ),
            _ => stopped(ContextError::from(Error::Consistency)),
        },
        Indexer::Connecting => match event {
            IndexerEvent::Connected(Ok(_)) => (
                Indexer::Subscribing,
                IndexerAction::Listen { channel: NOTIFICATION_CHANNEL },
            ),
            IndexerEvent::Connected(Err(m)) => stopped(
                ContextError::from(Error::TransactionError(m)).more_context(CONNECT_CONTEXT),
            ),
            _ => stopped(ContextError::from(Error::Consistency)),
        },
        Indexer::Subscribing => match event {
            IndexerEvent::Subscribed(Ok(_)) => (
                Indexer::Listening,
                IndexerAction::Receive { report: None },
            ),
            IndexerEvent::Subscribed(Err(m)) => stopped(
                ContextError::from(Error::TransactionError(m)).more_context(LISTEN_CONTEXT),
            ),
            _ => stopped(ContextError::from(Error::Consistency)),
        },
        Indexer::Listening => match event {
            IndexerEvent::Notified(Ok(payload)) => match process_notification(payload.as_str()) {
                Ok(id) => (Indexer::Indexing, IndexerAction::Index { id }),
                Err(failure) => skips(failure),
            },
            IndexerEvent::Notified(Err(m)) => stopped(
                ContextError::from(Error::TransactionError(m)),
            ),
            _ => stopped(ContextError::from(Error::Consistency)),
        },
        Indexer::Indexing => match event {
            IndexerEvent::Indexed(Ok(_)) => (
                Indexer::Listening,
                IndexerAction::Receive { report: None },
            ),
            IndexerEvent::Indexed(Err(failure)) => skips(failure),
            _ => stopped(ContextError::from(Error::Consistency)),
        },
        Indexer::Stopped => stopped(ContextError::from(Error::Consistency)),
    }
}

/// A notification whose payload is not a key does not end the task, and the
/// recipe that the next notification announces is indexed.
pub proof fn lemma_bad_payload_costs_one_notification(bad: Seq<char>, good: Seq<char>)
    requires
        decode_i64(bad) is None,
        decode_i64(good) is Some,
    ensures
        indexer_step(Indexer::Listening, IndexerEventView::Notified(Ok(bad))).0
            == Indexer::Listening,
        indexer_step(Indexer::Listening, IndexerEventView::Notified(Ok(bad))).1 is Receive,
        indexer_step(
            indexer_step(Indexer::Listening, IndexerEventView::Notified(Ok(bad))).0,
            IndexerEventView::Notified(Ok(good)),
        ) == (Indexer::Indexing, IndexerActionView::Index { id: decode_i64(good)->0 }),
{
}

/// A recipe that could not be indexed does not end the task either, and the
/// recipe that the next notification announces is indexed.
pub proof fn lemma_failed_recipe_costs_one_notification(
    failure: ContextErrorView,
    good: Seq<char>,
)
    requires
        decode_i64(good) is Some,
    ensures
        indexer_step(Indexer::Indexing, IndexerEventView::Indexed(Err(failure))).0
            == Indexer::Listening,
        indexer_step(
            indexer_step(Indexer::Indexing, IndexerEventView::Indexed(Err(failure))).0,
            IndexerEventView::Notified(Ok(good)),
        ) == (Indexer::Indexing, IndexerActionView::Index { id: decode_i64(good)->0 }),
{
}

/// The keys that the payloads carry, in the payloads' order; a payload that
/// carries none is left out.
pub open spec fn announced_keys(payloads: Seq<Seq<char>>) -> Seq<i64>
    decreases payloads.len(),
{
    if payloads.len() == 0 {
        Seq::empty()
    } else {
        match decode_i64(payloads.last()) {
            Some(id) => announced_keys(payloads.drop_last()).push(id),
            None => announced_keys(payloads.drop_last()),
        }
    }
}

/// How the `attempt`-th attempt to index a recipe ends: as `outcomes` says,
/// and well where it says nothing.
pub open spec fn attempt_outcome(
    outcomes: Seq<Result<IndexOutcome, ContextErrorView>>,
    attempt: int,
) -> Result<IndexOutcome, ContextErrorView> {
    if 0 <= attempt < outcomes.len() {
        outcomes[attempt]
    } else {
        Ok(IndexOutcome::Indexed)
    }
}

/// The task at work on a run of notifications: each payload is handed to it
/// when it waits for one, and where it then asks for a recipe to be indexed,
/// it is told how that ended before the next payload comes. Gives where the
/// task stands after the last payload, and the recipes it asked to be
/// indexed, in the order in which it asked.
pub open spec fn listening_run(
    payloads: Seq<Seq<char>>,
    outcomes: Seq<Result<IndexOutcome, ContextErrorView>>,
) -> (Indexer, Seq<i64>)
    decreases payloads.len(),
{
    if payloads.len() == 0 {
        (Indexer::Listening, Seq::empty())
    } else {
        let (state, asked) = listening_run(payloads.drop_last(), outcomes);
        let (waiting, action) = indexer_step(state, IndexerEventView::Notified(Ok(payloads.last())));
        match action {
            IndexerActionView::Index { id } => (
                indexer_step(
                    waiting,
                    IndexerEventView::Indexed(attempt_outcome(outcomes, asked.len() as int)),
                ).0,
                asked.push(id),
            ),
            _ => (waiting, asked),
        }
    }
}

/// Whatever the payloads are and however the attempts end, the task goes on
/// listening, and it asks for the recipes to be indexed whose keys the
/// payloads carry: each once for each payload that carries it, in the order
/// of the payloads.
pub proof fn lemma_every_key_is_indexed_in_order(
    payloads: Seq<Seq<char>>,
    outcomes: Seq<Result<IndexOutcome, ContextErrorView>>,
)
    ensures
        listening_run(payloads, outcomes) == (Indexer::Listening, announced_keys(payloads)),
    decreases payloads.len(),
{
    if payloads.len() > 0 {
        lemma_every_key_is_indexed_in_order(payloads.drop_last(), outcomes);
    }
}

} // verus!
