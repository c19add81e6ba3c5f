use std::collections::BTreeMap;

use r_ecipe_s::recipe_service::RecipeRep;
use r_ecipe_s::reconciler::{Reconciler, ReconcilerAction, ReconcilerEvent};
use r_ecipe_s::search_indexer::{
    IndexOutcome, IndexWriter, TaskReport, WriterAction, WriterEvent,
};

#[derive(Debug, Clone, Copy, PartialEq, Eq)]
enum Who {
    Writer,
    Reconciler,
}

/// A store with row locks and two indexes that count what is written to
/// them. A read under lock that meets a row locked by the other machine has
/// to wait.
#[derive(Default)]
struct Shared {
    rows: BTreeMap<i64, RecipeRep>,
    locks: BTreeMap<i64, Who>,
    lexical_writes: BTreeMap<i64, usize>,
    vector_writes: BTreeMap<i64, usize>,
    marks: BTreeMap<i64, usize>,
}

fn row(id: i64, with_embedding: bool) -> RecipeRep {
    RecipeRep {
        id,
        name: format!("recipe {}", id),
        ingredients: vec![],
        description: String::new(),
        liked: None,
        searchable: false,
        embedding: if with_embedding { Some(vec![0.5f32.to_bits()]) } else { None },
    }
}

impl Shared {
    fn with_rows(rows: Vec<RecipeRep>) -> Shared {
        let mut shared = Shared::default();
        for r in rows {
            shared.rows.insert(r.id, r);
        }
        shared
    }

    fn release(&mut self, who: Who) {
        self.locks.retain(|_, holder| *holder != who);
    }

    fn mark(&mut self, id: i64, who: Who) {
        assert_eq!(self.locks.get(&id), Some(&who), "only who has locked a row marks it");
        let row = self.rows.get_mut(&id).unwrap();
        assert!(!row.searchable, "a row is marked once");
        row.searchable = true;
        *self.marks.entry(id).or_insert(0) += 1;
    }

    /// One turn of the index writer. `None` where it has to wait.
    fn writer_turn(
        &mut self,
        state: IndexWriter,
        action: WriterAction,
    ) -> Option<(IndexWriter, WriterAction)> {
        let event = match action {
            WriterAction::LoadForUpdate { id } => {
                if self.locks.get(&id) == Some(&Who::Reconciler) {
                    return None;
                }
                if self.rows.contains_key(&id) {
                    self.locks.insert(id, Who::Writer);
                }
                WriterEvent::Loaded(Ok(self.rows.get(&id).cloned()))
            },
            WriterAction::UpsertPoint { point } => {
                *self.vector_writes.entry(point.id as i64).or_insert(0) += 1;
                WriterEvent::PointUpserted(Ok(()))
            },
            WriterAction::AddOrUpdate { document } => {
                *self.lexical_writes.entry(document.id).or_insert(0) += 1;
                WriterEvent::DocumentAdded(Ok(TaskReport { failed: false }))
            },
            WriterAction::SetSearchable { id } => {
                self.mark(id, Who::Writer);
                WriterEvent::Marked(Ok(()))
            },
            WriterAction::Finish { .. } => panic!("the attempt is over"),
        };
        let next = state.step(event);
        if matches!(next.1, WriterAction::Finish { .. }) {
            self.release(Who::Writer);
        }
        Some(next)
    }

    /// One turn of the reconciler. `None` where it has to wait.
    fn reconciler_turn(
        &mut self,
        state: Reconciler,
        action: ReconcilerAction,
    ) -> Option<(Reconciler, ReconcilerAction)> {
        let event = match action {
            ReconcilerAction::SelectBatch { batch_size } => {
                let batch: Vec<RecipeRep> =
                    self.rows.values().filter(|r| !r.searchable).take(batch_size).cloned().collect();
                if batch.iter().any(|r| self.locks.get(&r.id) == Some(&Who::Writer)) {
                    return None;
                }
                for r in &batch {
                    self.locks.insert(r.id, Who::Reconciler);
                }
                ReconcilerEvent::Selected(Ok(batch))
            },
            ReconcilerAction::Commit => ReconcilerEvent::Committed(Ok(())),
            ReconcilerAction::AddOrUpdate { documents } => {
                for document in documents {
                    *self.lexical_writes.entry(document.id).or_insert(0) += 1;
                }
                ReconcilerEvent::DocumentsAdded(Ok(TaskReport { failed: false }))
            },
            ReconcilerAction::UpsertPoint { point } => {
                *self.vector_writes.entry(point.id as i64).or_insert(0) += 1;
                ReconcilerEvent::PointUpserted(Ok(()))
            },
            ReconcilerAction::SetBatchSearchable { ids } => {
                for id in ids {
                    self.mark(id, Who::Reconciler);
                }
                ReconcilerEvent::Marked(Ok(()))
            },
            ReconcilerAction::Sleep { .. } => ReconcilerEvent::Woke,
        };
        let next = state.step(event);
        if matches!(next.1, ReconcilerAction::Sleep { .. }) {
            self.release(Who::Reconciler);
        }
        Some(next)
    }

    fn finish_writer(&mut self, mut at: (IndexWriter, WriterAction)) -> IndexOutcome {
        loop {
            if let WriterAction::Finish { outcome } = at.1 {
                return outcome.unwrap();
            }
            at = self.writer_turn(at.0, at.1).expect("the writer does not have to wait");
        }
    }

    fn finish_cycle(&mut self, mut at: (Reconciler, ReconcilerAction)) {
        loop {
            if let ReconcilerAction::Sleep { .. } = at.1 {
                return;
            }
            at = self.reconciler_turn(at.0, at.1).expect("the reconciler does not have to wait");
        }
    }

    fn each_written_and_marked_once(&self) {
        for (id, row) in &self.rows {
            assert!(row.searchable, "{}", id);
            assert_eq!(self.marks.get(id), Some(&1), "{}", id);
            assert_eq!(self.lexical_writes.get(id), Some(&1), "{}", id);
            let expected = if row.embedding.is_some() { Some(&1) } else { None };
            assert_eq!(self.vector_writes.get(id), expected, "{}", id);
        }
    }
}

#[test]
fn the_reconciler_waits_for_a_recipe_that_the_writer_works_on() {
    let mut shared = Shared::with_rows(vec![row(1, false), row(2, true), row(3, true)]);
    let writer = shared.writer_turn_from_start(2);
    assert_eq!(shared.locks.get(&2), Some(&Who::Writer));

    let (state, action) = Reconciler::new().step(ReconcilerEvent::Woke);
    assert!(shared.reconciler_turn(state.clone(), clone_select(&action)).is_none());

    assert_eq!(shared.finish_writer(writer), IndexOutcome::Indexed);
    assert!(shared.locks.is_empty());

    let selected = shared.reconciler_turn(state, action).unwrap();
    assert_eq!(shared.locks.get(&1), Some(&Who::Reconciler));
    assert_eq!(shared.locks.get(&2), None);
    assert_eq!(shared.locks.get(&3), Some(&Who::Reconciler));
    shared.finish_cycle(selected);
    assert!(shared.locks.is_empty());
    shared.each_written_and_marked_once();
}

#[test]
fn the_writer_waits_for_a_recipe_that_the_reconciler_works_on() {
    let mut shared = Shared::with_rows(vec![row(1, true), row(2, false)]);
    let (state, action) = Reconciler::new().step(ReconcilerEvent::Woke);
    let selected = shared.reconciler_turn(state, action).unwrap();
    assert_eq!(shared.locks.get(&1), Some(&Who::Reconciler));

    let (writer, load) = IndexWriter::index(1);
    assert!(shared.writer_turn(writer.clone(), WriterAction::LoadForUpdate { id: 1 }).is_none());

    shared.finish_cycle(selected);
    let loaded = shared.writer_turn(writer, load).unwrap();
    assert_eq!(loaded.0, IndexWriter::Closed);
    assert_eq!(shared.finish_writer(loaded), IndexOutcome::AlreadyIndexed);
    assert!(shared.locks.is_empty());
    shared.each_written_and_marked_once();
}

#[test]
fn the_two_take_turns_on_different_recipes() {
    let rows: Vec<RecipeRep> = (1..=60).map(|id| row(id, id % 3 == 0)).collect();
    let mut shared = Shared::with_rows(rows);
    let (state, action) = Reconciler::new().step(ReconcilerEvent::Woke);
    let mut cycle = shared.reconciler_turn(state, action).unwrap();
    let mut writer = shared.writer_turn_from_start(57);
    assert_eq!(shared.locks.len(), 51);

    let mut writer_done = false;
    let mut cycle_done = false;
    while !(writer_done && cycle_done) {
        if !writer_done {
            if matches!(writer.1, WriterAction::Finish { .. }) {
                writer_done = true;
            } else {
                writer = shared.writer_turn(writer.0, writer.1).unwrap();
            }
        }
        if !cycle_done {
            if matches!(cycle.1, ReconcilerAction::Sleep { .. }) {
                cycle_done = true;
            } else {
                cycle = shared.reconciler_turn(cycle.0, cycle.1).unwrap();
            }
        }
    }
    assert!(shared.locks.is_empty());
    assert!((1..=50).all(|id| shared.rows[&id].searchable));
    assert!(shared.rows[&57].searchable);
    assert!(!shared.rows[&51].searchable);

    let next = shared.reconciler_turn(cycle.0, cycle.1).unwrap();
    let selected = shared.reconciler_turn(next.0, next.1).unwrap();
    shared.finish_cycle(selected);
    shared.each_written_and_marked_once();
}

impl Shared {
    fn writer_turn_from_start(&mut self, id: i64) -> (IndexWriter, WriterAction) {
        let (state, action) = IndexWriter::index(id);
        self.writer_turn(state, action).expect("the row is free")
    }
}

fn clone_select(action: &ReconcilerAction) -> ReconcilerAction {
    match action {
        ReconcilerAction::SelectBatch { batch_size } => {
            ReconcilerAction::SelectBatch { batch_size: *batch_size }
        },
        other => panic!("{:?}", other),
    }
}
