use r_ecipe_s::hybrid_search::{
    document_id, fuse, point_key, rank, search_plan, search_response, vector_hits, vector_query,
    Candidate, FusedResult, LexicalHit, PointKey, ScoredPoint, VectorHit,
};
use r_ecipe_s::model::{Ingredient, Quantity, Recipe, RecipeWithId, SearchQuery};
use r_ecipe_s::score::Score;

fn score(value: f32) -> Score {
    Score::from_bits(value.to_bits())
}

fn number(score: Score) -> f32 {
    f32::from_bits(score.bits)
}

fn recipe(id: i64, name: &str) -> RecipeWithId {
    RecipeWithId {
        id,
        data: Recipe {
            name: name.to_string(),
            ingredients: vec![Ingredient { name: "salt".to_string(), quantity: Quantity::Tsp(1) }],
            description: format!("how to make {}", name),
            liked: Some(true),
            embedding: None,
        },
    }
}

fn lexical(id: i64, name: &str, relevance: f32) -> LexicalHit {
    LexicalHit { document: recipe(id, name), relevance: Some(score(relevance)) }
}

fn vector(id: i64, name: &str, similarity: f32) -> VectorHit {
    VectorHit {
        document_id: id,
        similarity: score(similarity),
        name: name.to_string(),
        description: format!("about {}", name),
    }
}

fn point(key: u64, similarity: f32) -> ScoredPoint {
    ScoredPoint {
        key: Some(PointKey::Num(key)),
        score: score(similarity),
        name: Some(format!("point {}", key)),
        description: Some("from the vector index".to_string()),
    }
}

/// What the caller does between fusing and ranking: the vector part plus the
/// hyperbolic tangent of the lexical part.
fn combine(candidates: Vec<Candidate>) -> Vec<FusedResult> {
    candidates
        .into_iter()
        .map(|candidate| {
            let combined =
                number(candidate.vector_part()) + number(candidate.lexical_part()).tanh();
            candidate.scored(score(combined))
        })
        .collect()
}

fn ids(ranking: &[FusedResult]) -> Vec<i64> {
    ranking.iter().map(|r| r.document_id).collect()
}

#[test]
fn fusion_of_one_lexical_and_two_vector_hits() {
    let candidates =
        fuse(vec![lexical(1, "soup", 0.8)], vec![vector(1, "soup", 0.5), vector(2, "stew", 0.6)]);
    assert_eq!(candidates.len(), 2);
    assert_eq!(candidates[0].document_id, 1);
    assert_eq!(candidates[0].lexical_score, Some(score(0.8)));
    assert_eq!(candidates[0].vector_score, Some(score(0.5)));
    assert_eq!(candidates[1].document_id, 2);
    assert_eq!(candidates[1].lexical_score, None);
    assert_eq!(candidates[1].vector_score, Some(score(0.6)));

    let fused = combine(candidates);
    let first = number(fused[0].combined_score);
    let second = number(fused[1].combined_score);
    assert!((first - 1.164).abs() < 0.0005, "{}", first);
    assert_eq!(first, 0.5f32 + 0.8f32.tanh());
    assert_eq!(second, 0.6f32);

    let ranking = rank(fused);
    assert_eq!(ids(&ranking), vec![1, 2]);
    let response = search_response(ranking);
    assert_eq!(response.results.len(), 2);
    assert_eq!(response.results[0].recipe, recipe(1, "soup"));
    assert_eq!(response.results[1].recipe.id, 2);
}

#[test]
fn a_document_found_by_the_lexical_index_is_shown_as_that_index_holds_it() {
    let candidates = fuse(vec![lexical(7, "bread", 0.3)], vec![vector(7, "stale name", 0.9)]);
    assert_eq!(candidates.len(), 1);
    assert_eq!(candidates[0].document, recipe(7, "bread"));
}

#[test]
fn a_document_found_by_the_vector_index_alone_is_shown_in_part() {
    let candidates = fuse(vec![], vec![vector(9, "cake", 0.4)]);
    assert_eq!(candidates.len(), 1);
    let document = &candidates[0].document;
    assert_eq!(document.id, 9);
    assert_eq!(document.data.name, "cake");
    assert_eq!(document.data.description, "about cake");
    assert!(document.data.ingredients.is_empty());
    assert_eq!(document.data.liked, None);
    assert_eq!(document.data.embedding, None);
    assert_eq!(candidates[0].lexical_score, None);
    assert_eq!(number(candidates[0].lexical_part()), 0.0);
    assert_eq!(number(candidates[0].vector_part()), 0.4);
}

#[test]
fn fusing_nothing_gives_nothing() {
    assert!(fuse(vec![], vec![]).is_empty());
    assert!(rank(vec![]).is_empty());
    assert!(search_response(vec![]).results.is_empty());
}

#[test]
fn candidates_come_in_ascending_order_of_their_keys() {
    let candidates = fuse(
        vec![lexical(30, "c", 0.1), lexical(-5, "a", 0.2), lexical(12, "b", 0.3)],
        vec![vector(40, "d", 0.5), vector(-9, "e", 0.5), vector(12, "b", 0.7)],
    );
    let keys: Vec<i64> = candidates.iter().map(|c| c.document_id).collect();
    assert_eq!(keys, vec![-9, -5, 12, 30, 40]);
    assert_eq!(candidates[2].lexical_score, Some(score(0.3)));
    assert_eq!(candidates[2].vector_score, Some(score(0.7)));
}

#[test]
fn of_two_hits_for_one_document_the_later_counts() {
    let candidates = fuse(
        vec![lexical(1, "first", 0.1), lexical(1, "second", 0.2)],
        vec![vector(2, "old", 0.3), vector(2, "new", 0.4)],
    );
    assert_eq!(candidates.len(), 2);
    assert_eq!(candidates[0].document.data.name, "second");
    assert_eq!(candidates[0].lexical_score, Some(score(0.2)));
    assert_eq!(candidates[1].document.data.name, "new");
    assert_eq!(candidates[1].vector_score, Some(score(0.4)));
}

#[test]
fn a_relevance_that_is_missing_counts_as_zero() {
    let hit = LexicalHit { document: recipe(3, "rice"), relevance: None };
    let candidates = fuse(vec![hit], vec![]);
    assert_eq!(candidates[0].lexical_score, Some(score(0.0)));
    assert_eq!(number(candidates[0].lexical_part()), 0.0);
    assert_eq!(number(candidates[0].vector_part()), 0.0);
}

fn fused(id: i64, combined: f32) -> FusedResult {
    FusedResult { document_id: id, combined_score: score(combined), document: recipe(id, "r") }
}

#[test]
fn ranking_puts_the_best_score_first() {
    let ranking = rank(vec![fused(1, 0.2), fused(2, 1.5), fused(3, 0.9), fused(4, -0.5)]);
    assert_eq!(ids(&ranking), vec![2, 3, 1, 4]);
}

#[test]
fn equal_scores_are_ranked_by_ascending_key() {
    let ranking = rank(vec![fused(9, 0.5), fused(2, 0.5), fused(5, 0.5), fused(1, 0.7)]);
    assert_eq!(ids(&ranking), vec![1, 2, 5, 9]);
}

#[test]
fn both_zeros_are_one_score() {
    let ranking = rank(vec![fused(3, 0.0), fused(1, -0.0), fused(2, 0.0)]);
    assert_eq!(ids(&ranking), vec![1, 2, 3]);
}

#[test]
fn ranking_keeps_every_result() {
    let ranking = rank(vec![fused(1, 0.1), fused(1, 0.1), fused(2, 0.3)]);
    assert_eq!(ids(&ranking), vec![2, 1, 1]);
}

#[test]
fn no_query_embedding_no_vector_query() {
    assert!(vector_query(None).is_none());
}

#[test]
fn the_vector_query_asks_for_ten_neighbours_over_one_quarter() {
    let embedding: Vec<u32> = vec![0.1f32.to_bits(), 0.2f32.to_bits()];
    let query = vector_query(Some(embedding.clone())).unwrap();
    assert_eq!(query.collection_name, "recipes");
    assert_eq!(query.vector, embedding);
    assert_eq!(query.limit, 10);
    assert_eq!(number(query.score_threshold), 0.25);
    assert!(query.with_payload);
}

#[test]
fn no_more_than_ten_vector_hits_are_used() {
    let points: Vec<ScoredPoint> = (0..25).map(|i| point(i, 0.9)).collect();
    let hits = vector_hits(points);
    assert_eq!(hits.len(), 10);
    let keys: Vec<i64> = hits.iter().map(|h| h.document_id).collect();
    assert_eq!(keys, (0..10).collect::<Vec<i64>>());
}

#[test]
fn no_vector_hit_under_the_threshold_is_used() {
    let hits = vector_hits(vec![
        point(1, 0.25),
        point(2, 0.24999),
        point(3, 0.0),
        point(4, -1.0),
        point(5, 1.0),
        point(6, 0.2500001),
    ]);
    let keys: Vec<i64> = hits.iter().map(|h| h.document_id).collect();
    assert_eq!(keys, vec![1, 5, 6]);
    assert!(hits.iter().all(|h| number(h.similarity) >= 0.25));
}

#[test]
fn what_the_index_reports_within_the_request_is_used_as_it_is() {
    let hits = vector_hits(vec![point(8, 0.5), point(3, 0.75)]);
    assert_eq!(hits.len(), 2);
    assert_eq!(hits[0].document_id, 8);
    assert_eq!(hits[0].name, "point 8");
    assert_eq!(hits[0].description, "from the vector index");
    assert_eq!(number(hits[0].similarity), 0.5);
    assert_eq!(hits[1].document_id, 3);
}

#[test]
fn points_without_a_numeric_key_are_no_hits() {
    let hits = vector_hits(vec![
        ScoredPoint { key: None, score: score(0.9), name: None, description: None },
        ScoredPoint {
            key: Some(PointKey::Uuid("6f9619ff-8b86-d011-b42d-00cf4fc964ff".to_string())),
            score: score(0.9),
            name: None,
            description: None,
        },
        ScoredPoint { key: Some(PointKey::Num(4)), score: score(0.9), name: None, description: None },
    ]);
    assert_eq!(hits.len(), 1);
    assert_eq!(hits[0].document_id, 4);
    assert_eq!(hits[0].name, "");
    assert_eq!(hits[0].description, "");
}

#[test]
fn point_keys_and_document_keys_are_the_same_bits() {
    for id in [0i64, 1, -1, 42, i64::MAX, i64::MIN, -1234567] {
        assert_eq!(point_key(id), id as u64);
        assert_eq!(document_id(point_key(id)), id);
    }
    for key in [0u64, 1, u64::MAX, 1 << 63, (1 << 63) - 1] {
        assert_eq!(document_id(key), key as i64);
        assert_eq!(point_key(document_id(key)), key);
    }
}

#[test]
fn a_whole_search_from_points_to_answer() {
    let hits = vector_hits(vec![point(2, 0.6), point(1, 0.5), point(3, 0.1)]);
    let candidates = fuse(vec![lexical(1, "soup", 0.8), lexical(4, "tart", 0.2)], hits);
    let response = search_response(rank(combine(candidates)));
    let order: Vec<i64> = response.results.iter().map(|r| r.recipe.id).collect();
    assert_eq!(order, vec![1, 2, 4]);
}

#[test]
fn the_lexical_index_is_always_asked_and_the_vector_index_with_an_embedding() {
    let plan = search_plan(SearchQuery { query: "leek soup".to_string() }, None);
    assert_eq!(plan.lexical_query, "leek soup");
    assert_eq!(plan.vector_query, None);

    let embedding = vec![1.0f32.to_bits(), 0.0f32.to_bits()];
    let plan = search_plan(SearchQuery { query: String::new() }, Some(embedding.clone()));
    assert_eq!(plan.lexical_query, "");
    assert_eq!(plan.vector_query, vector_query(Some(embedding)));
    assert_eq!(plan.vector_query.unwrap().limit, 10);
}
