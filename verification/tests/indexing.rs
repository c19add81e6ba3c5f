use std::collections::{BTreeMap, BTreeSet};

use r_ecipe_s::hybrid_search::point_key;
use r_ecipe_s::model::{Ingredient, Quantity, RecipeWithId};
use r_ecipe_s::recipe_service::{Error as StoreError, RecipeRep};
use r_ecipe_s::reconciler::{
    Reconciler, ReconcilerAction, ReconcilerEvent, BACKOFF_MILLIS, BATCH_SIZE,
    POLL_INTERVAL_MILLIS,
};
use r_ecipe_s::search_indexer::{
    index_loop, index_loop_start, ContextError, Distance, Error, IndexLookup, IndexOutcome,
    IndexWriter, Indexer, IndexerAction, IndexerEvent, TaskReport, VectorPoint, WriterAction,
    WriterEvent,
};

/// A store and two indexes in memory, with a record of the calls made and a
/// set of calls that are to fail.
#[derive(Default)]
struct World {
    rows: BTreeMap<i64, RecipeRep>,
    lexical: BTreeMap<i64, RecipeWithId>,
    vector: BTreeMap<u64, VectorPoint>,
    calls: Vec<String>,
    failing: BTreeSet<String>,
    lexical_writes: usize,
    vector_writes: usize,
}

fn row(id: i64, embedding: Option<Vec<f32>>) -> RecipeRep {
    RecipeRep {
        id,
        name: format!("recipe {}", id),
        ingredients: vec![Ingredient { name: "flour".to_string(), quantity: Quantity::Gram(500) }],
        description: format!("how to make recipe {}", id),
        liked: None,
        searchable: false,
        embedding: embedding.map(|v| v.iter().map(|x| x.to_bits()).collect()),
    }
}

impl World {
    fn with_rows(rows: Vec<RecipeRep>) -> World {
        let mut world = World::default();
        for r in rows {
            world.rows.insert(r.id, r);
        }
        world
    }

    fn fails(&self, call: &str) -> bool {
        self.failing.contains(call)
    }

    fn marked(&self, id: i64) -> bool {
        self.rows[&id].searchable
    }

    fn upsert_point(&mut self, point: VectorPoint) -> Result<(), String> {
        self.calls.push(format!("point {}", point.id));
        if self.fails("point") || self.fails(&format!("point {}", point.id)) {
            return Err("vector index is down".to_string());
        }
        self.vector_writes += 1;
        self.vector.insert(point.id, point);
        Ok(())
    }

    fn add_documents(&mut self, documents: Vec<RecipeWithId>) -> Result<TaskReport, String> {
        let keys: Vec<String> = documents.iter().map(|d| d.id.to_string()).collect();
        self.calls.push(format!("documents {}", keys.join(",")));
        if self.fails("document") {
            return Err("lexical index is down".to_string());
        }
        if self.fails("task") {
            return Ok(TaskReport { failed: true });
        }
        for document in documents {
            self.lexical_writes += 1;
            self.lexical.insert(document.id, document);
        }
        Ok(TaskReport { failed: false })
    }

    fn mark(&mut self, ids: &[i64]) -> Result<(), StoreError> {
        self.calls.push(format!("mark {:?}", ids));
        if self.fails("mark") {
            return Err(StoreError::DB("could not commit".to_string()));
        }
        for id in ids {
            self.rows.get_mut(id).unwrap().searchable = true;
        }
        Ok(())
    }

    fn select(&mut self, batch_size: usize) -> Result<Vec<RecipeRep>, StoreError> {
        self.calls.push(format!("select {}", batch_size));
        if self.fails("select") {
            return Err(StoreError::DB("could not select".to_string()));
        }
        Ok(self.rows.values().filter(|r| !r.searchable).take(batch_size).cloned().collect())
    }

    /// Makes the calls that the index writer asks for until it finishes.
    fn index(&mut self, id: i64) -> Result<IndexOutcome, ContextError> {
        let (mut state, mut action) = IndexWriter::index(id);
        loop {
            let event = match action {
                WriterAction::LoadForUpdate { id } => {
                    self.calls.push(format!("load {}", id));
                    if self.fails("load") {
                        WriterEvent::Loaded(Err(StoreError::DB("could not read".to_string())))
                    } else {
                        WriterEvent::Loaded(Ok(self.rows.get(&id).cloned()))
                    }
                },
                WriterAction::UpsertPoint { point } => {
                    WriterEvent::PointUpserted(self.upsert_point(point))
                },
                WriterAction::AddOrUpdate { document } => {
                    WriterEvent::DocumentAdded(self.add_documents(vec![document]))
                },
                WriterAction::SetSearchable { id } => WriterEvent::Marked(self.mark(&[id])),
                WriterAction::Finish { outcome } => {
                    assert!(state.is_closed());
                    return outcome;
                },
            };
            let next = state.step(event);
            state = next.0;
            action = next.1;
        }
    }

    /// Makes the calls that the reconciler asks for, from waking to the next
    /// rest. Gives the length of the rest and what was reported.
    fn cycle(&mut self, reconciler: Reconciler) -> (Reconciler, u64, Vec<ContextError>) {
        let (mut state, mut action) = reconciler.step(ReconcilerEvent::Woke);
        loop {
            let event = match action {
                ReconcilerAction::SelectBatch { batch_size } => {
                    ReconcilerEvent::Selected(self.select(batch_size))
                },
                ReconcilerAction::Commit => {
                    self.calls.push("commit".to_string());
                    if self.fails("commit") {
                        ReconcilerEvent::Committed(Err(StoreError::DB("no commit".to_string())))
                    } else {
                        ReconcilerEvent::Committed(Ok(()))
                    }
                },
                ReconcilerAction::AddOrUpdate { documents } => {
                    ReconcilerEvent::DocumentsAdded(self.add_documents(documents))
                },
                ReconcilerAction::UpsertPoint { point } => {
                    ReconcilerEvent::PointUpserted(self.upsert_point(point))
                },
                ReconcilerAction::SetBatchSearchable { ids } => {
                    ReconcilerEvent::Marked(self.mark(&ids))
                },
                ReconcilerAction::Sleep { millis, reports } => {
                    return (state, millis, reports);
                },
            };
            let next = state.step(event);
            state = next.0;
            action = next.1;
        }
    }
}

fn bits(values: &[f32]) -> Vec<u32> {
    values.iter().map(|x| x.to_bits()).collect()
}

#[test]
fn indexing_gives_the_recipe_to_both_indexes_and_then_marks_it() {
    let mut world = World::with_rows(vec![row(7, Some(vec![0.1, 0.2, 0.3]))]);
    assert_eq!(world.index(7), Ok(IndexOutcome::Indexed));
    assert_eq!(world.calls, vec!["load 7", "point 7", "documents 7", "mark [7]"]);
    assert!(world.marked(7));

    let document = &world.lexical[&7];
    assert_eq!(document.id, 7);
    assert_eq!(document.data.name, "recipe 7");
    assert_eq!(document.data.description, "how to make recipe 7");
    assert_eq!(document.data.ingredients.len(), 1);
    assert_eq!(document.data.embedding, Some(bits(&[0.1, 0.2, 0.3])));

    let point = &world.vector[&7];
    assert_eq!(
        *point,
        VectorPoint {
            id: 7,
            name: "recipe 7".to_string(),
            description: "how to make recipe 7".to_string(),
            vector: bits(&[0.1, 0.2, 0.3]),
        }
    );
}

#[test]
fn a_recipe_without_an_embedding_goes_to_the_lexical_index_alone() {
    let mut world = World::with_rows(vec![row(3, None)]);
    assert_eq!(world.index(3), Ok(IndexOutcome::Indexed));
    assert_eq!(world.calls, vec!["load 3", "documents 3", "mark [3]"]);
    assert!(world.vector.is_empty());
    assert!(world.lexical.contains_key(&3));
    assert!(world.marked(3));
}

#[test]
fn a_recipe_that_is_gone_is_no_failure() {
    let mut world = World::with_rows(vec![row(1, None)]);
    assert_eq!(world.index(2), Ok(IndexOutcome::Missing));
    assert_eq!(world.calls, vec!["load 2"]);
    assert!(world.lexical.is_empty());
    assert!(!world.marked(1));
}

#[test]
fn a_negative_key_has_the_point_key_with_the_same_bits() {
    let mut world = World::with_rows(vec![row(-4, Some(vec![1.0]))]);
    assert_eq!(world.index(-4), Ok(IndexOutcome::Indexed));
    assert!(world.vector.contains_key(&point_key(-4)));
    assert_eq!(point_key(-4), (-4i64) as u64);
}

#[test]
fn indexing_twice_leaves_what_indexing_once_left() {
    let mut world = World::with_rows(vec![row(5, Some(vec![0.5, 0.5])), row(6, None)]);
    assert_eq!(world.index(5), Ok(IndexOutcome::Indexed));
    let lexical = world.lexical.clone();
    let vector = world.vector.clone();
    let rows = world.rows.clone();

    assert_eq!(world.index(5), Ok(IndexOutcome::AlreadyIndexed));
    assert_eq!(world.lexical, lexical);
    assert_eq!(world.vector, vector);
    assert_eq!(world.rows, rows);
    assert!(world.marked(5));
    assert_eq!(world.lexical.len(), 1);
    assert_eq!(world.vector.len(), 1);
}

#[test]
fn a_failed_vector_write_leaves_the_recipe_unmarked_until_a_retry_succeeds() {
    let mut world = World::with_rows(vec![row(8, Some(vec![0.9]))]);
    world.failing.insert("point".to_string());
    let outcome = world.index(8);
    assert_eq!(
        outcome,
        Err(ContextError { err: Error::Qdrant("vector index is down".to_string()), context: vec![] })
    );
    assert!(!world.marked(8));
    assert!(world.lexical.is_empty());
    assert_eq!(world.calls, vec!["load 8", "point 8"]);

    world.failing.clear();
    assert_eq!(world.index(8), Ok(IndexOutcome::Indexed));
    assert!(world.marked(8));
    assert!(world.lexical.contains_key(&8));
    assert!(world.vector.contains_key(&8));
}

#[test]
fn a_failed_lexical_write_after_a_vector_write_leaves_the_recipe_unmarked() {
    let mut world = World::with_rows(vec![row(8, Some(vec![0.9]))]);
    world.failing.insert("document".to_string());
    assert_eq!(
        world.index(8),
        Err(ContextError {
            err: Error::SearchError("lexical index is down".to_string()),
            context: vec![]
        })
    );
    assert!(!world.marked(8));
    assert!(world.vector.contains_key(&8));

    world.failing.clear();
    assert_eq!(world.index(8), Ok(IndexOutcome::Indexed));
    assert_eq!(world.vector.len(), 1);
    assert!(world.marked(8));
}

#[test]
fn a_write_that_the_lexical_index_reports_as_failed_leaves_the_recipe_unmarked() {
    let mut world = World::with_rows(vec![row(2, None)]);
    world.failing.insert("task".to_string());
    assert_eq!(
        world.index(2),
        Err(ContextError { err: Error::MeiliSearchInserteFailure, context: vec![] })
    );
    assert!(!world.marked(2));
    assert_eq!(world.calls, vec!["load 2", "documents 2"]);
}

#[test]
fn a_store_that_cannot_be_read_or_does_not_commit_fails_the_attempt() {
    let mut world = World::with_rows(vec![row(2, None)]);
    world.failing.insert("load".to_string());
    assert_eq!(
        world.index(2),
        Err(ContextError {
            err: Error::RecipeAccess(StoreError::DB("could not read".to_string())),
            context: vec![]
        })
    );
    world.failing.clear();
    world.failing.insert("mark".to_string());
    assert_eq!(
        world.index(2),
        Err(ContextError {
            err: Error::RecipeAccess(StoreError::DB("could not commit".to_string())),
            context: vec![]
        })
    );
    assert!(!world.marked(2));
    assert!(world.lexical.contains_key(&2));
}

#[test]
fn an_outcome_that_answers_nothing_asked_for_ends_the_attempt() {
    let (state, _) = IndexWriter::index(1);
    let (state, action) = state.step(WriterEvent::Marked(Ok(())));
    assert_eq!(state, IndexWriter::Closed);
    assert_eq!(
        action,
        WriterAction::Finish {
            outcome: Err(ContextError { err: Error::Consistency, context: vec![] })
        }
    );
    let (state, action) = state.step(WriterEvent::Loaded(Ok(None)));
    assert!(state.is_closed());
    assert_eq!(
        action,
        WriterAction::Finish {
            outcome: Err(ContextError { err: Error::Consistency, context: vec![] })
        }
    );
}

#[test]
fn a_row_under_another_key_is_refused() {
    let (state, _) = IndexWriter::index(1);
    let (state, action) = state.step(WriterEvent::Loaded(Ok(Some(row(2, None)))));
    assert!(state.is_closed());
    assert_eq!(
        action,
        WriterAction::Finish {
            outcome: Err(ContextError { err: Error::Consistency, context: vec![] })
        }
    );
}

#[test]
fn the_writer_asks_for_one_call_after_the_other() {
    let (state, action) = IndexWriter::index(11);
    assert_eq!(state, IndexWriter::Loading { id: 11 });
    assert_eq!(action, WriterAction::LoadForUpdate { id: 11 });

    let (state, action) = state.step(WriterEvent::Loaded(Ok(Some(row(11, Some(vec![2.0]))))));
    let document = row(11, Some(vec![2.0])).model_with_id();
    assert_eq!(state, IndexWriter::WritingPoint { document: document.clone() });
    match &action {
        WriterAction::UpsertPoint { point } => {
            assert_eq!(point.id, 11);
            assert_eq!(point.vector, bits(&[2.0]));
        },
        other => panic!("{:?}", other),
    }

    let (state, action) = state.step(WriterEvent::PointUpserted(Ok(())));
    assert_eq!(state, IndexWriter::WritingDocument { id: 11 });
    assert_eq!(action, WriterAction::AddOrUpdate { document });

    let (state, action) = state.step(WriterEvent::DocumentAdded(Ok(TaskReport { failed: false })));
    assert_eq!(state, IndexWriter::Marking { id: 11 });
    assert_eq!(action, WriterAction::SetSearchable { id: 11 });

    let (state, action) = state.step(WriterEvent::Marked(Ok(())));
    assert_eq!(state, IndexWriter::Closed);
    assert_eq!(action, WriterAction::Finish { outcome: Ok(IndexOutcome::Indexed) });
}

#[test]
fn the_reconciler_marks_a_recipe_that_no_notification_announced() {
    let mut world = World::with_rows(vec![row(1, Some(vec![0.3])), row(2, None)]);
    let (reconciler, millis, reports) = world.cycle(Reconciler::new());
    assert_eq!(reconciler, Reconciler::Idle);
    assert_eq!(millis, POLL_INTERVAL_MILLIS);
    assert!(reports.is_empty());
    assert!(world.marked(1));
    assert!(world.marked(2));
    assert_eq!(world.calls, vec!["select 50", "documents 1,2", "point 1", "mark [2, 1]"]);
    assert_eq!(world.lexical.len(), 2);
    assert_eq!(world.vector.len(), 1);
}

#[test]
fn the_reconciler_takes_fifty_recipes_at_a_time_in_ascending_order() {
    let rows: Vec<RecipeRep> = (1..=120).map(|id| row(id, None)).collect();
    let mut world = World::with_rows(rows);
    assert_eq!(BATCH_SIZE, 50);

    let (reconciler, _, _) = world.cycle(Reconciler::new());
    assert!((1..=50).all(|id| world.marked(id)));
    assert!((51..=120).all(|id| !world.marked(id)));

    let (reconciler, _, _) = world.cycle(reconciler);
    assert!((1..=100).all(|id| world.marked(id)));
    assert!(!world.marked(101));
    assert!(!world.marked(120));

    let (reconciler, millis, _) = world.cycle(reconciler);
    assert!((1..=120).all(|id| world.marked(id)));
    assert_eq!(millis, POLL_INTERVAL_MILLIS);

    world.calls.clear();
    let (_, millis, reports) = world.cycle(reconciler);
    assert_eq!(world.calls, vec!["select 50", "commit"]);
    assert_eq!(millis, POLL_INTERVAL_MILLIS);
    assert!(reports.is_empty());
}

#[test]
fn a_point_that_is_not_taken_leaves_its_recipe_out_and_the_others_in() {
    let mut world = World::with_rows(vec![
        row(1, Some(vec![0.1])),
        row(2, Some(vec![0.2])),
        row(3, None),
        row(4, Some(vec![0.4])),
    ]);
    world.failing.insert("point 2".to_string());
    let (_, millis, reports) = world.cycle(Reconciler::new());
    assert_eq!(millis, BACKOFF_MILLIS);
    assert_eq!(
        reports,
        vec![ContextError {
            err: Error::Qdrant("vector index is down".to_string()),
            context: vec!["Failed to index a batch of recipes".to_string()]
        }]
    );
    assert!(world.marked(1));
    assert!(!world.marked(2));
    assert!(world.marked(3));
    assert!(world.marked(4));
    assert_eq!(world.calls.last().unwrap(), "mark [3, 1, 4]");

    world.failing.clear();
    let (_, millis, reports) = world.cycle(Reconciler::new());
    assert_eq!(millis, POLL_INTERVAL_MILLIS);
    assert!(reports.is_empty());
    assert!(world.marked(2));
}

#[test]
fn a_batch_that_the_lexical_index_does_not_take_is_given_up() {
    for call in ["document", "task"] {
        let mut world = World::with_rows(vec![row(1, Some(vec![0.1])), row(2, None)]);
        world.failing.insert(call.to_string());
        let (reconciler, millis, reports) = world.cycle(Reconciler::new());
        assert_eq!(reconciler, Reconciler::Idle);
        assert_eq!(millis, BACKOFF_MILLIS);
        assert_eq!(reports.len(), 1);
        assert!(!world.marked(1));
        assert!(!world.marked(2));
        assert!(world.vector.is_empty());
        assert_eq!(world.calls, vec!["select 50", "documents 1,2"]);
    }
}

#[test]
fn a_store_that_fails_costs_the_cycle_and_a_long_rest() {
    let mut world = World::with_rows(vec![row(1, None)]);
    world.failing.insert("select".to_string());
    let (_, millis, reports) = world.cycle(Reconciler::new());
    assert_eq!(millis, BACKOFF_MILLIS);
    assert_eq!(
        reports,
        vec![ContextError {
            err: Error::RecipeAccess(StoreError::DB("could not select".to_string())),
            context: vec!["Failed to index a batch of recipes".to_string()]
        }]
    );

    world.failing.clear();
    world.failing.insert("mark".to_string());
    let (_, millis, reports) = world.cycle(Reconciler::new());
    assert_eq!(millis, BACKOFF_MILLIS);
    assert_eq!(reports.len(), 1);
    assert!(!world.marked(1));

    let mut empty = World::default();
    empty.failing.insert("commit".to_string());
    let (_, millis, reports) = empty.cycle(Reconciler::new());
    assert_eq!(millis, BACKOFF_MILLIS);
    assert_eq!(reports.len(), 1);
}

#[test]
fn the_reconciler_is_not_put_off_by_an_outcome_it_did_not_ask_for() {
    let (state, action) = Reconciler::new().step(ReconcilerEvent::PointUpserted(Ok(())));
    assert_eq!(state, Reconciler::Idle);
    match action {
        ReconcilerAction::Sleep { millis, reports } => {
            assert_eq!(millis, BACKOFF_MILLIS);
            assert_eq!(reports.len(), 1);
            assert_eq!(reports[0].err, Error::Consistency);
        },
        other => panic!("{:?}", other),
    }
    let (state, action) = state.step(ReconcilerEvent::Woke);
    assert_eq!(state, Reconciler::Selecting);
    assert_eq!(action, ReconcilerAction::SelectBatch { batch_size: 50 });
}

#[test]
fn of_the_writer_and_the_reconciler_the_second_writes_nothing() {
    // the reconciler first, the writer second
    let mut world = World::with_rows(vec![row(1, Some(vec![0.7]))]);
    world.cycle(Reconciler::new());
    assert!(world.marked(1));
    let (lexical_writes, vector_writes) = (world.lexical_writes, world.vector_writes);
    world.calls.clear();
    assert_eq!(world.index(1), Ok(IndexOutcome::AlreadyIndexed));
    assert_eq!(world.calls, vec!["load 1"]);
    assert_eq!((world.lexical_writes, world.vector_writes), (lexical_writes, vector_writes));

    // the writer first, the reconciler second
    let mut world = World::with_rows(vec![row(1, Some(vec![0.7]))]);
    assert_eq!(world.index(1), Ok(IndexOutcome::Indexed));
    let (lexical_writes, vector_writes) = (world.lexical_writes, world.vector_writes);
    world.calls.clear();
    world.cycle(Reconciler::new());
    assert_eq!(world.calls, vec!["select 50", "commit"]);
    assert_eq!((world.lexical_writes, world.vector_writes), (lexical_writes, vector_writes));
    assert_eq!((lexical_writes, vector_writes), (1, 1));
}

/// Runs the indexing task over the notifications given, in memory. Gives what
/// the task reported and why it stopped.
fn listen(world: &mut World, notifications: Vec<Result<&str, &str>>) -> (Vec<String>, String) {
    let mut reported = Vec::new();
    let mut coming = notifications.into_iter();
    let (mut state, mut action) = index_loop_start();
    loop {
        let event = match action {
            IndexerAction::HasCollection => IndexerEvent::CollectionChecked(Ok(true)),
            IndexerAction::CreateCollection { .. } => IndexerEvent::CollectionCreated(Ok(())),
            IndexerAction::GetIndex => IndexerEvent::IndexChecked(Ok(IndexLookup::Found)),
            IndexerAction::CreateIndex => IndexerEvent::IndexCreated(Ok(())),
            IndexerAction::Connect => IndexerEvent::Connected(Ok(())),
            IndexerAction::Listen { channel } => {
                assert_eq!(channel, "search_index");
                IndexerEvent::Subscribed(Ok(()))
            },
            IndexerAction::Receive { report } => {
                if let Some(failure) = report {
                    reported.push(failure.render());
                }
                match coming.next() {
                    Some(Ok(payload)) => IndexerEvent::Notified(Ok(payload.to_string())),
                    Some(Err(why)) => IndexerEvent::Notified(Err(why.to_string())),
                    None => IndexerEvent::Notified(Err("end of the run".to_string())),
                }
            },
            IndexerAction::Index { id } => IndexerEvent::Indexed(world.index(id)),
            IndexerAction::Stop { cause } => {
                assert_eq!(state, Indexer::Stopped);
                return (reported, cause.render());
            },
        };
        let next = index_loop(state, event);
        state = next.0;
        action = next.1;
    }
}

#[test]
fn a_payload_that_is_no_key_costs_one_notification_only() {
    let mut world = World::with_rows(vec![row(17, None), row(18, None)]);
    let (reported, cause) =
        listen(&mut world, vec![Ok("seventeen"), Ok("17"), Ok(""), Ok("18")]);
    assert!(world.marked(17));
    assert!(world.marked(18));
    assert_eq!(reported.len(), 2);
    assert_eq!(
        reported[0],
        "Failed to parse i64 id. Check notification query in db. seventeen, context:\n\n\
         Failed to parse i64 form notification\nFailed to process a notification\n"
    );
    assert_eq!(cause, "Transaction Error end of the run, context:\n\n");
}

#[test]
fn a_recipe_that_cannot_be_indexed_costs_one_notification_only() {
    let mut world = World::with_rows(vec![row(1, Some(vec![0.5])), row(2, None)]);
    world.failing.insert("point".to_string());
    let (reported, _) = listen(&mut world, vec![Ok("1"), Ok("2"), Ok("3")]);
    assert!(!world.marked(1));
    assert!(world.marked(2));
    assert_eq!(
        reported,
        vec!["Qdrant error: vector index is down, context:\n\nFailed to process a notification\n"]
    );
}

#[test]
fn notifications_are_indexed_one_at_a_time_in_their_order() {
    let mut world = World::with_rows(vec![row(3, None), row(1, None), row(2, None)]);
    listen(&mut world, vec![Ok("3"), Ok("1"), Ok("2"), Ok("1")]);
    assert_eq!(
        world.calls,
        vec![
            "load 3",
            "documents 3",
            "mark [3]",
            "load 1",
            "documents 1",
            "mark [1]",
            "load 2",
            "documents 2",
            "mark [2]",
            "load 1"
        ]
    );
}

#[test]
fn losing_the_subscription_ends_the_task() {
    let mut world = World::with_rows(vec![row(1, None)]);
    let (reported, cause) = listen(&mut world, vec![Err("connection reset"), Ok("1")]);
    assert!(reported.is_empty());
    assert_eq!(cause, "Transaction Error connection reset, context:\n\n");
    assert!(!world.marked(1));
    let (state, action) = index_loop(Indexer::Stopped, IndexerEvent::Notified(Ok("1".to_string())));
    assert_eq!(state, Indexer::Stopped);
    assert!(matches!(action, IndexerAction::Stop { .. }));
}

#[test]
fn the_task_first_sees_to_a_place_for_the_recipes_in_both_indexes() {
    let (state, action) = index_loop_start();
    assert_eq!(state, Indexer::CheckingCollection);
    assert_eq!(action, IndexerAction::HasCollection);

    let (state, action) = index_loop(state, IndexerEvent::CollectionChecked(Ok(false)));
    assert_eq!(state, Indexer::CreatingCollection);
    assert_eq!(action, IndexerAction::CreateCollection { size: 384, distance: Distance::Cosine });

    let (state, action) = index_loop(state, IndexerEvent::CollectionCreated(Ok(())));
    assert_eq!(state, Indexer::CheckingIndex);
    assert_eq!(action, IndexerAction::GetIndex);

    let (state, action) = index_loop(state, IndexerEvent::IndexChecked(Ok(IndexLookup::NotFound)));
    assert_eq!(state, Indexer::CreatingIndex);
    assert_eq!(action, IndexerAction::CreateIndex);

    let (state, action) = index_loop(state, IndexerEvent::IndexCreated(Ok(())));
    assert_eq!(state, Indexer::Connecting);
    assert_eq!(action, IndexerAction::Connect);

    let (state, action) = index_loop(state, IndexerEvent::Connected(Ok(())));
    assert_eq!(state, Indexer::Subscribing);
    assert_eq!(action, IndexerAction::Listen { channel: "search_index" });

    let (state, action) = index_loop(state, IndexerEvent::Subscribed(Ok(())));
    assert_eq!(state, Indexer::Listening);
    assert_eq!(action, IndexerAction::Receive { report: None });

    let (state, action) = index_loop(state, IndexerEvent::Notified(Ok("-12".to_string())));
    assert_eq!(state, Indexer::Indexing);
    assert_eq!(action, IndexerAction::Index { id: -12 });

    let (state, action) = index_loop(state, IndexerEvent::Indexed(Ok(IndexOutcome::Missing)));
    assert_eq!(state, Indexer::Listening);
    assert_eq!(action, IndexerAction::Receive { report: None });
}

fn stop(err: Error, context: Vec<&str>) -> IndexerAction {
    IndexerAction::Stop {
        cause: ContextError { err, context: context.iter().map(|c| c.to_string()).collect() },
    }
}

fn down<T>() -> Result<T, String> {
    Err("down".to_string())
}

#[test]
fn the_task_ends_where_a_place_for_the_recipes_cannot_be_had() {
    let cases = vec![
        (
            Indexer::CheckingCollection,
            IndexerEvent::CollectionChecked(down()),
            stop(Error::Qdrant("down".to_string()), vec![]),
        ),
        (
            Indexer::CreatingCollection,
            IndexerEvent::CollectionCreated(down()),
            stop(Error::Qdrant("down".to_string()), vec![]),
        ),
        (
            Indexer::CheckingIndex,
            IndexerEvent::IndexChecked(down()),
            stop(Error::SearchError("down".to_string()), vec![]),
        ),
        (
            Indexer::CreatingIndex,
            IndexerEvent::IndexCreated(down()),
            stop(Error::SearchError("down".to_string()), vec![]),
        ),
        (
            Indexer::Connecting,
            IndexerEvent::Connected(down()),
            stop(Error::TransactionError("down".to_string()), vec!["Failed to create listener"]),
        ),
        (
            Indexer::Subscribing,
            IndexerEvent::Subscribed(down()),
            stop(
                Error::TransactionError("down".to_string()),
                vec!["Failed to start listening to 'search_index' topic"],
            ),
        ),
        (
            Indexer::Listening,
            IndexerEvent::Connected(Ok(())),
            stop(Error::Consistency, vec![]),
        ),
    ];
    for (state, event, expected) in cases {
        let (next, action) = index_loop(state, event);
        assert_eq!(next, Indexer::Stopped);
        assert_eq!(action, expected);
    }
}
