//! Answers a search by joining what the lexical index and the vector index
//! found. The vector index is asked for at most ten neighbours with a
//! similarity of one quarter or more; every document that either index found
//! becomes one candidate; the caller adds, for each candidate, the vector
//! part of its score to the hyperbolic tangent of the lexical part; the
//! scored candidates are then ranked, best first.

use crate::model::{
    Recipe, RecipeView, RecipeWithId, RecipeWithIdView, SearchQuery, SearchResponse, SearchResult,
};
use crate::score::{reaches_threshold, rank_key, Score, SIMILARITY_THRESHOLD_BITS, ZERO_BITS};
use vstd::prelude::*;
use vstd::string::*;

verus! {

/// The collection of the vector index that holds the recipes.
pub const RECIPES_VEC_COLLECTION_NAME: &'static str = "recipes";

/// The most neighbours that a vector query asks for, and that are used.
pub const VECTOR_HIT_LIMIT: usize = 10;

/// The key of a point of the vector index that stands for the document `id`:
/// the same 64 bits, read as unsigned.
pub open spec fn spec_point_key(id: i64) -> u64 {
    if id >= 0 {
        id as u64
    } else {
        (id + 0x1_0000_0000_0000_0000) as u64
    }
}

/// The document that a point key stands for: the same 64 bits, read as
/// signed.
pub open spec fn spec_document_id(key: u64) -> i64 {
    if key < 0x8000_0000_0000_0000 {
        key as i64
    } else {
        (key - 0x1_0000_0000_0000_0000) as i64
    }
}

/// The key of the point that stands for the document `id`.
pub fn point_key(id: i64) -> (key: u64)
    ensures
        key == spec_point_key(id),
        spec_document_id(key) == id,
{
    if id >= 0 {
        id as u64
    } else {
        (id - i64::MIN) as u64 + 0x8000_0000_0000_0000
    }
}

/// The document that the point key `key` stands for.
pub fn document_id(key: u64) -> (id: i64)
    ensures
        id == spec_document_id(key),
        spec_point_key(id) == key,
{
    if key < 0x8000_0000_0000_0000 {
        key as i64
    } else {
        (key - 0x8000_0000_0000_0000) as i64 + i64::MIN
    }
}

/// A nearest-neighbour request to the vector index.
#[derive(Debug, Clone, PartialEq, Eq)]
pub struct VectorQuery {
    pub collection_name: &'static str,
    pub vector: Vec<u32>,
    pub limit: u64,
    pub score_threshold: Score,
    pub with_payload: bool,
}

/// The request that a search makes of the vector index: none without a query
/// embedding; with one, the ten nearest recipes that reach the similarity
/// threshold, with their payload.
pub fn vector_query(embedding: Option<Vec<u32>>) -> (r: Option<VectorQuery>)
    ensures
        embedding is None ==> r is None,
        embedding matches Some(v) ==> r matches Some(q) && q.vector@ == v@ && q.limit
            == VECTOR_HIT_LIMIT && q.score_threshold.bits == SIMILARITY_THRESHOLD_BITS
            && q.with_payload && q.collection_name@ == RECIPES_VEC_COLLECTION_NAME@,
{
    match embedding {
        Some(vector) => Some(
            VectorQuery {
                collection_name: RECIPES_VEC_COLLECTION_NAME,
                vector,
                limit: 10,
                score_threshold: Score { bits: SIMILARITY_THRESHOLD_BITS },
                with_payload: true,
            },
        ),
        None => None,
    }
}

/// What a search asks of the two indexes: of the lexical index always the
/// text of the query, of the vector index its neighbours where the query
/// came with an embedding.
#[derive(Debug, Clone, PartialEq, Eq)]
pub struct SearchPlan {
    pub lexical_query: String,
    pub vector_query: Option<VectorQuery>,
}

/// Plans the search for `query`.
pub fn search_plan(query: SearchQuery, embedding: Option<Vec<u32>>) -> (plan: SearchPlan)
    ensures
        plan.lexical_query@ == query.query@,
        embedding is None ==> plan.vector_query is None,
        embedding matches Some(v) ==> plan.vector_query matches Some(q) && q.vector@ == v@
            && q.limit == VECTOR_HIT_LIMIT && q.score_threshold.bits == SIMILARITY_THRESHOLD_BITS
            && q.with_payload && q.collection_name@ == RECIPES_VEC_COLLECTION_NAME@,
{
    SearchPlan { lexical_query: query.query, vector_query: vector_query(embedding) }
}

/// The key of a point as the vector index reports it.
#[derive(Debug, Clone, PartialEq, Eq)]
pub enum PointKey {
    Num(u64),
    Uuid(String),
}

/// A neighbour as the vector index reports it: its key if it has one, its
/// similarity, and the two text fields of its payload where they are there.
#[derive(Debug, Clone, PartialEq, Eq)]
pub struct ScoredPoint {
    pub key: Option<PointKey>,
    pub score: Score,
    pub name: Option<String>,
    pub description: Option<String>,
}

/// A recipe that the vector index found.
#[derive(Debug, Clone, PartialEq, Eq)]
pub struct VectorHit {
    pub document_id: i64,
    pub similarity: Score,
    pub name: String,
    pub description: String,
}

/// What a vector hit holds.
pub struct VectorHitView {
    pub document_id: i64,
    pub similarity: Score,
    pub name: Seq<char>,
    pub description: Seq<char>,
}

impl View for VectorHit {
    type V = VectorHitView;

    open spec fn view(&self) -> VectorHitView {
        VectorHitView {
            document_id: self.document_id,
            similarity: self.similarity,
            name: self.name@,
            description: self.description@,
        }
    }
}

/// The text of an optional payload field; the empty text without one.
pub open spec fn text_or_empty(field: Option<String>) -> Seq<char> {
    match field {
        Some(s) => s@,
        None => Seq::empty(),
    }
}

impl ScoredPoint {
    /// Whether the point counts as a hit: it has a numeric key and its
    /// similarity reaches the threshold.
    pub open spec fn counts(self) -> bool {
        self.key matches Some(PointKey::Num(_)) && reaches_threshold(self.score.bits)
    }

    /// The hit that a point which counts stands for.
    pub open spec fn hit(self) -> VectorHitView {
        VectorHitView {
            document_id: match self.key {
                Some(PointKey::Num(key)) => spec_document_id(key),
                _ => 0,
            },
            similarity: self.score,
            name: text_or_empty(self.name),
            description: text_or_empty(self.description),
        }
    }
}

/// The hits among `points`, in their order.
pub open spec fn counted_hits(points: Seq<ScoredPoint>) -> Seq<VectorHitView>
    decreases points.len(),
{
    if points.len() == 0 {
        Seq::empty()
    } else if points.last().counts() {
        counted_hits(points.drop_last()).push(points.last().hit())
    } else {
        counted_hits(points.drop_last())
    }
}

/// The first `limit` items of `s`, or all of it when it has no more.
pub open spec fn first_at_most<T>(s: Seq<T>, limit: int) -> Seq<T> {
    if s.len() <= limit {
        s
    } else {
        s.subrange(0, limit)
    }
}

/// The views of a list of vector hits, in the list's order.
pub open spec fn vector_hit_views(hits: Seq<VectorHit>) -> Seq<VectorHitView> {
    hits.map_values(|h: VectorHit| h@)
}

fn text_or_default(field: Option<String>) -> (r: String)
    ensures
        r@ == text_or_empty(field),
{
    match field {
        Some(s) => s,
        None => String::new(),
    }
}

/// The vector hits of a search: the first ten of the reported points that
/// have a numeric key and reach the similarity threshold. So no search uses
/// more than ten vector hits, nor one under the threshold, whatever the index
/// reported; where the index kept to the request and gave numeric keys, every
/// point it reported is a hit.
pub fn vector_hits(points: Vec<ScoredPoint>) -> (hits: Vec<VectorHit>)
    ensures
        vector_hit_views(hits@) == first_at_most(counted_hits(points@), VECTOR_HIT_LIMIT as int),
        hits@.len() <= VECTOR_HIT_LIMIT,
        forall|k: int| 0 <= k < hits@.len() ==> reaches_threshold(#[trigger] hits@[k].similarity.bits),
{
    let ghost all = points@;
    let mut hits: Vec<VectorHit> = Vec::new();
    assert(all.subrange(0, 0) =~= Seq::<ScoredPoint>::empty());
    for point in iter: points
        invariant
            iter.seq() == all,
            vector_hit_views(hits@) == first_at_most(
                counted_hits(all.subrange(0, iter.index() as int)),
                VECTOR_HIT_LIMIT as int,
            ),
            forall|k: int|
                0 <= k < hits@.len() ==> reaches_threshold(#[trigger] hits@[k].similarity.bits),
    {
        let ghost done = iter.index() as int;
        proof {
            assert(point == all[done]);
            assert(all.subrange(0, done + 1).drop_last() =~= all.subrange(0, done));
            assert(all.subrange(0, done + 1).last() == point);
        }
        let ghost before = counted_hits(all.subrange(0, done));
        let ghost hit_view = point.hit();
        let ghost counts = point.counts();
        let ScoredPoint { key, score, name, description } = point;
        match key {
            Some(PointKey::Num(num)) => {
                if score.reaches_threshold() && hits.len() < 10 {
                    let hit = VectorHit {
                        document_id: document_id(num),
                        similarity: score,
                        name: text_or_default(name),
                        description: text_or_default(description),
                    };
                    assert(hit@ == hit_view);
                    let ghost old_hits = hits@;
                    hits.push(hit);
                    assert(vector_hit_views(hits@) =~= vector_hit_views(old_hits).push(hit_view));
                    assert(before.len() < 10);
                    assert(first_at_most(before.push(hit_view), 10) =~= before.push(hit_view));
                } else {
                    proof {
                        if counts {
                            assert(before.len() >= 10);
                            assert(first_at_most(before.push(hit_view), 10) =~= first_at_most(
                                before,
                                10,
                            ));
                        }
                    }
                }
            },
            _ => {},
        }
    }
    assert(all.subrange(0, all.len() as int) =~= all);
    hits
}

/// Where the index kept to the request, what it reported is used as it is:
/// of no more than ten points that all have a numeric key and reach the
/// threshold, each is a hit, in the order in which they were reported.
pub proof fn lemma_points_within_the_request_are_the_hits(points: Seq<ScoredPoint>)
    requires
        points.len() <= VECTOR_HIT_LIMIT,
        forall|i: int| 0 <= i < points.len() ==> (#[trigger] points[i]).counts(),
    ensures
        counted_hits(points) == points.map_values(|p: ScoredPoint| p.hit()),
        first_at_most(counted_hits(points), VECTOR_HIT_LIMIT as int) == points.map_values(
            |p: ScoredPoint| p.hit(),
        ),
    decreases points.len(),
{
    if points.len() == 0 {
        assert(counted_hits(points) =~= points.map_values(|p: ScoredPoint| p.hit()));
    } else {
        let head = points.drop_last();
        assert forall|i: int| 0 <= i < head.len() implies (#[trigger] head[i]).counts() by {
            assert(head[i] == points[i]);
        }
        lemma_points_within_the_request_are_the_hits(head);
        assert(points[points.len() - 1].counts());
        assert(counted_hits(points) =~= points.map_values(|p: ScoredPoint| p.hit()));
    }
}

/// A recipe that the lexical index found, as the index holds it, with the
/// relevance that the index gave it, if it gave one.
#[derive(Debug, Clone, PartialEq, Eq)]
pub struct LexicalHit {
    pub document: RecipeWithId,
    pub relevance: Option<Score>,
}

/// What a lexical hit holds, with a relevance that is missing counted as zero.
pub struct LexicalHitView {
    pub document: RecipeWithIdView,
    pub relevance: Score,
}

/// A relevance that the index did not give counts as zero.
pub open spec fn relevance_or_zero(relevance: Option<Score>) -> Score {
    match relevance {
        Some(score) => score,
        None => Score { bits: ZERO_BITS },
    }
}

impl View for LexicalHit {
    type V = LexicalHitView;

    open spec fn view(&self) -> LexicalHitView {
        LexicalHitView { document: self.document@, relevance: relevance_or_zero(self.relevance) }
    }
}

/// What the lexical index found, by document. Where one document was found
/// twice, the later hit counts.
pub open spec fn lexical_found(hits: Seq<LexicalHit>) -> Map<i64, LexicalHitView>
    decreases hits.len(),
{
    if hits.len() == 0 {
        Map::empty()
    } else {
        lexical_found(hits.drop_last()).insert(hits.last().document.id, hits.last()@)
    }
}

/// What the vector index found, by document. Where one document was found
/// twice, the later hit counts.
pub open spec fn vector_found(hits: Seq<VectorHit>) -> Map<i64, VectorHitView>
    decreases hits.len(),
{
    if hits.len() == 0 {
        Map::empty()
    } else {
        vector_found(hits.drop_last()).insert(hits.last().document_id, hits.last()@)
    }
}

/// The document that stands for a vector hit: the two payload texts under
/// the hit's key, no ingredients, no embedding.
pub open spec fn partial_document(hit: VectorHitView) -> RecipeWithIdView {
    RecipeWithIdView {
        id: hit.document_id,
        data: RecipeView {
            name: hit.name,
            ingredients: Seq::empty(),
            description: hit.description,
            liked: None,
            embedding: None,
        },
    }
}

/// A document that at least one index found, with the score that each index
/// gave it. `None` says that the index did not find it.
#[derive(Debug, Clone, PartialEq, Eq)]
pub struct Candidate {
    pub document_id: i64,
    pub lexical_score: Option<Score>,
    pub vector_score: Option<Score>,
    pub document: RecipeWithId,
}

/// What a candidate holds.
pub struct CandidateView {
    pub document_id: i64,
    pub lexical_score: Option<Score>,
    pub vector_score: Option<Score>,
    pub document: RecipeWithIdView,
}

impl View for Candidate {
    type V = CandidateView;

    open spec fn view(&self) -> CandidateView {
        CandidateView {
            document_id: self.document_id,
            lexical_score: self.lexical_score,
            vector_score: self.vector_score,
            document: self.document@,
        }
    }
}

/// The candidate for the document `id`: the scores of the hits that found
/// it, and the lexical hit's document where there is one, since it is
/// complete; else the partial document of the vector hit.
pub open spec fn candidate_of(
    id: i64,
    lexical: Map<i64, LexicalHitView>,
    vector: Map<i64, VectorHitView>,
) -> CandidateView {
    CandidateView {
        document_id: id,
        lexical_score: if lexical.contains_key(id) {
            Some(lexical[id].relevance)
        } else {
            None
        },
        vector_score: if vector.contains_key(id) {
            Some(vector[id].similarity)
        } else {
            None
        },
        document: if lexical.contains_key(id) {
            lexical[id].document
        } else {
            partial_document(vector[id])
        },
    }
}

/// Whether `candidates` has a candidate for the document `id`.
pub open spec fn covers(candidates: Seq<Candidate>, id: i64) -> bool {
    exists|k: int| 0 <= k < candidates.len() && #[trigger] candidates[k].document_id == id
}

/// Whether the candidates are in ascending order of their documents' keys,
/// with no document twice.
pub open spec fn ascending(candidates: Seq<Candidate>) -> bool {
    forall|i: int, j: int|
        0 <= i < j < candidates.len() ==> #[trigger] candidates[i].document_id
            < #[trigger] candidates[j].document_id
}

/// Whether `candidates` is the fusion of the two sets of hits: one candidate
/// for each document that either index found, none for any other, each as
/// `candidate_of` gives it, in ascending order of the documents' keys.
pub open spec fn is_fusion(
    candidates: Seq<Candidate>,
    lexical: Map<i64, LexicalHitView>,
    vector: Map<i64, VectorHitView>,
) -> bool {
    &&& ascending(candidates)
    &&& forall|id: i64|
        lexical.contains_key(id) || vector.contains_key(id) ==> #[trigger] covers(candidates, id)
    &&& forall|k: int|
        0 <= k < candidates.len() ==> {
            let id = #[trigger] candidates[k].document_id;
            &&& lexical.contains_key(id) || vector.contains_key(id)
            &&& candidates[k]@ == candidate_of(id, lexical, vector)
        }
}

/// Two ascending lists of candidates that cover the same documents have the
/// same documents at the same places.
proof fn lemma_same_documents(a: Seq<Candidate>, b: Seq<Candidate>)
    requires
        ascending(a),
        ascending(b),
        forall|id: i64| covers(a, id) <==> covers(b, id),
    ensures
        a.len() == b.len(),
        forall|k: int| 0 <= k < a.len() ==> (#[trigger] a[k]).document_id == b[k].document_id,
    decreases a.len(),
{
    if a.len() == 0 {
        if b.len() > 0 {
            assert(b[0].document_id == b[0].document_id);
            assert(covers(b, b[0].document_id));
            assert(covers(a, b[0].document_id));
        }
    } else {
        let la = a.last().document_id;
        assert(a[a.len() - 1].document_id == la);
        assert(covers(a, la));
        assert(covers(b, la));
        let kb = choose|k: int| 0 <= k < b.len() && #[trigger] b[k].document_id == la;
        let lb = b.last().document_id;
        assert(b[b.len() - 1].document_id == lb);
        assert(covers(b, lb));
        assert(covers(a, lb));
        let ka = choose|k: int| 0 <= k < a.len() && #[trigger] a[k].document_id == lb;
        if ka < a.len() - 1 {
            assert(a[ka].document_id < a[a.len() - 1].document_id);
        }
        if kb < b.len() - 1 {
            assert(b[kb].document_id < b[b.len() - 1].document_id);
        }
        assert(la == lb);
        let a0 = a.drop_last();
        let b0 = b.drop_last();
        assert forall|id: i64| covers(a0, id) <==> covers(b0, id) by {
            if covers(a0, id) {
                let k = choose|k: int| 0 <= k < a0.len() && #[trigger] a0[k].document_id == id;
                assert(a[k].document_id == id);
                assert(a[k].document_id < a[a.len() - 1].document_id);
                assert(covers(a, id));
                let m = choose|m: int| 0 <= m < b.len() && #[trigger] b[m].document_id == id;
                assert(m < b.len() - 1);
                assert(b0[m].document_id == id);
            }
            if covers(b0, id) {
                let k = choose|k: int| 0 <= k < b0.len() && #[trigger] b0[k].document_id == id;
                assert(b[k].document_id == id);
                assert(b[k].document_id < b[b.len() - 1].document_id);
                assert(covers(b, id));
                let m = choose|m: int| 0 <= m < a.len() && #[trigger] a[m].document_id == id;
                assert(m < a.len() - 1);
                assert(a0[m].document_id == id);
            }
        }
        assert forall|i: int, j: int| 0 <= i < j < a0.len() implies #[trigger] a0[i].document_id
            < #[trigger] a0[j].document_id by {
            assert(a0[i] == a[i] && a0[j] == a[j]);
        }
        assert forall|i: int, j: int| 0 <= i < j < b0.len() implies #[trigger] b0[i].document_id
            < #[trigger] b0[j].document_id by {
            assert(b0[i] == b[i] && b0[j] == b[j]);
        }
        lemma_same_documents(a0, b0);
        assert forall|k: int| 0 <= k < a.len() implies (#[trigger] a[k]).document_id
            == b[k].document_id by {
            if k < a.len() - 1 {
                assert(a0[k] == a[k] && b0[k] == b[k]);
            }
        }
    }
}

/// The fusion of two sets of hits is one list: any two fusions of the same
/// hits hold the same candidates at the same places.
pub proof fn lemma_fusion_is_unique(
    a: Seq<Candidate>,
    b: Seq<Candidate>,
    lexical: Map<i64, LexicalHitView>,
    vector: Map<i64, VectorHitView>,
)
    requires
        is_fusion(a, lexical, vector),
        is_fusion(b, lexical, vector),
    ensures
        a.len() == b.len(),
        forall|k: int| 0 <= k < a.len() ==> (#[trigger] a[k])@ == b[k]@,
{
    assert forall|id: i64| covers(a, id) <==> covers(b, id) by {
        if covers(a, id) {
            let k = choose|k: int| 0 <= k < a.len() && #[trigger] a[k].document_id == id;
            assert(lexical.contains_key(id) || vector.contains_key(id));
        }
        if covers(b, id) {
            let k = choose|k: int| 0 <= k < b.len() && #[trigger] b[k].document_id == id;
            assert(lexical.contains_key(id) || vector.contains_key(id));
        }
    }
    lemma_same_documents(a, b);
    assert forall|k: int| 0 <= k < a.len() implies (#[trigger] a[k])@ == b[k]@ by {
        assert(a[k].document_id == b[k].document_id);
    }
}

impl Candidate {
    /// The vector part of the score: zero where the vector index did not
    /// find the document.
    pub fn vector_part(&self) -> (r: Score)
        ensures
            r == relevance_or_zero(self.vector_score),
    {
        match self.vector_score {
            Some(score) => score,
            None => Score { bits: ZERO_BITS },
        }
    }

    /// The lexical part of the score: zero where the lexical index did not
    /// find the document.
    pub fn lexical_part(&self) -> (r: Score)
        ensures
            r == relevance_or_zero(self.lexical_score),
    {
        match self.lexical_score {
            Some(score) => score,
            None => Score { bits: ZERO_BITS },
        }
    }

    /// The candidate with its combined score.
    pub fn scored(self, combined_score: Score) -> (r: FusedResult)
        ensures
            r.document_id == self.document_id,
            r.combined_score == combined_score,
            r.document == self.document,
    {
        FusedResult { document_id: self.document_id, combined_score, document: self.document }
    }
}

/// A candidate with its combined score.
#[derive(Debug, Clone, PartialEq, Eq)]
pub struct FusedResult {
    pub document_id: i64,
    pub combined_score: Score,
    pub document: RecipeWithId,
}

/// Where the document `id` stands among `candidates`, or where it would be
/// put.
fn position(candidates: &Vec<Candidate>, id: i64) -> (r: (usize, bool))
    requires
        ascending(candidates@),
    ensures
        r.0 <= candidates@.len(),
        forall|k: int| 0 <= k < r.0 ==> (#[trigger] candidates@[k]).document_id < id,
        forall|k: int|
            r.0 <= k < candidates@.len() ==> (#[trigger] candidates@[k]).document_id >= id,
        r.1 <==> r.0 < candidates@.len() && candidates@[r.0 as int].document_id == id,
        r.1 <==> covers(candidates@, id),
{
    let mut at: usize = 0;
    while at < candidates.len() && candidates[at].document_id < id
        invariant
            at <= candidates@.len(),
            forall|k: int| 0 <= k < at ==> (#[trigger] candidates@[k]).document_id < id,
        decreases candidates@.len() - at,
    {
        at = at + 1;
    }
    let found = at < candidates.len() && candidates[at].document_id == id;
    assert forall|k: int| at <= k < candidates@.len() implies (#[trigger] candidates@[k]).document_id
        >= id by {
        if k > at {
            assert(candidates@[at as int].document_id < candidates@[k].document_id);
        }
    }
    (at, found)
}

fn partial_recipe(hit: VectorHit) -> (r: RecipeWithId)
    ensures
        r@ == partial_document(hit@),
{
    let r = RecipeWithId {
        id: hit.document_id,
        data: Recipe {
            name: hit.name,
            ingredients: Vec::new(),
            description: hit.description,
            liked: None,
            embedding: None,
        },
    };
    assert(r.data@.ingredients =~= Seq::empty());
    r
}

/// Putting a candidate for a new document in its place keeps the order and
/// covers that document besides those covered before.
proof fn lemma_insert_candidate(old: Seq<Candidate>, at: int, c: Candidate)
    requires
        ascending(old),
        0 <= at <= old.len(),
        forall|k: int| 0 <= k < at ==> (#[trigger] old[k]).document_id < c.document_id,
        forall|k: int| at <= k < old.len() ==> (#[trigger] old[k]).document_id > c.document_id,
    ensures
        ascending(old.insert(at, c)),
        covers(old.insert(at, c), c.document_id),
        forall|id: i64| covers(old, id) ==> #[trigger] covers(old.insert(at, c), id),
{
    let new = old.insert(at, c);
    assert(new[at].document_id == c.document_id);
    assert forall|id: i64| covers(old, id) implies #[trigger] covers(new, id) by {
        let k = choose|k: int| 0 <= k < old.len() && #[trigger] old[k].document_id == id;
        if k < at {
            assert(new[k].document_id == id);
        } else {
            assert(new[k + 1].document_id == id);
        }
    }
}

/// Putting another candidate for the same document in a candidate's place
/// keeps the order and what is covered.
proof fn lemma_replace_candidate(old: Seq<Candidate>, at: int, c: Candidate)
    requires
        ascending(old),
        0 <= at < old.len(),
        old[at].document_id == c.document_id,
    ensures
        ascending(old.update(at, c)),
        forall|id: i64| covers(old, id) ==> #[trigger] covers(old.update(at, c), id),
{
    let new = old.update(at, c);
    assert forall|id: i64| covers(old, id) implies #[trigger] covers(new, id) by {
        let k = choose|k: int| 0 <= k < old.len() && #[trigger] old[k].document_id == id;
        assert(new[k].document_id == id);
    }
}

/// Joins what the two indexes found: one candidate for each document that
/// either of them found, in ascending order of the documents' keys.
pub fn fuse(lexical: Vec<LexicalHit>, vector: Vec<VectorHit>) -> (candidates: Vec<Candidate>)
    ensures
        is_fusion(candidates@, lexical_found(lexical@), vector_found(vector@)),
{
    let ghost all_lexical = lexical@;
    let ghost all_vector = vector@;
    let ghost no_vector: Map<i64, VectorHitView> = Map::empty();
    let mut out: Vec<Candidate> = Vec::new();
    assert(all_lexical.subrange(0, 0) =~= Seq::<LexicalHit>::empty());
    for hit in iter: lexical
        invariant
            iter.seq() == all_lexical,
            no_vector == Map::<i64, VectorHitView>::empty(),
            is_fusion(out@, lexical_found(all_lexical.subrange(0, iter.index() as int)), no_vector),
    {
        let ghost done = iter.index() as int;
        let ghost before = lexical_found(all_lexical.subrange(0, done));
        let ghost after = lexical_found(all_lexical.subrange(0, done + 1));
        let ghost old_out = out@;
        let id = hit.document.id;
        proof {
            assert(hit == all_lexical[done]);
            assert(all_lexical.subrange(0, done + 1).drop_last() =~= all_lexical.subrange(0, done));
            assert(all_lexical.subrange(0, done + 1).last() == hit);
            assert(after == before.insert(id, hit@));
        }
        let (at, found) = position(&out, id);
        let relevance = match hit.relevance {
            Some(score) => score,
            None => Score { bits: ZERO_BITS },
        };
        let candidate = Candidate {
            document_id: id,
            lexical_score: Some(relevance),
            vector_score: None,
            document: hit.document,
        };
        assert(candidate@ == candidate_of(id, after, no_vector));
        if found {
            out.set(at, candidate);
            proof {
                lemma_replace_candidate(old_out, at as int, candidate);
                assert forall|k: int| 0 <= k < out@.len() implies {
                    let kid = #[trigger] out@[k].document_id;
                    &&& after.contains_key(kid) || no_vector.contains_key(kid)
                    &&& out@[k]@ == candidate_of(kid, after, no_vector)
                } by {
                    if k != at {
                        assert(out@[k] == old_out[k]);
                        assert(old_out[k].document_id != id);
                    }
                }
                assert forall|any: i64|
                    after.contains_key(any) || no_vector.contains_key(any) implies #[trigger] covers(
                    out@,
                    any,
                ) by {
                    if any != id {
                        assert(covers(old_out, any));
                    }
                }
            }
        } else {
            out.insert(at, candidate);
            proof {
                lemma_insert_candidate(old_out, at as int, candidate);
                assert forall|k: int| 0 <= k < out@.len() implies {
                    let kid = #[trigger] out@[k].document_id;
                    &&& after.contains_key(kid) || no_vector.contains_key(kid)
                    &&& out@[k]@ == candidate_of(kid, after, no_vector)
                } by {
                    if k < at {
                        assert(out@[k] == old_out[k]);
                    } else if k > at {
                        assert(out@[k] == old_out[k - 1]);
                    }
                }
                assert forall|any: i64|
                    after.contains_key(any) || no_vector.contains_key(any) implies #[trigger] covers(
                    out@,
                    any,
                ) by {
                    if any != id {
                        assert(covers(old_out, any));
                    }
                }
            }
        }
    }
    assert(all_lexical.subrange(0, all_lexical.len() as int) =~= all_lexical);
    let ghost found_lexical = lexical_found(all_lexical);
    assert(all_vector.subrange(0, 0) =~= Seq::<VectorHit>::empty());
    for hit in iter: vector
        invariant
            iter.seq() == all_vector,
            found_lexical == lexical_found(all_lexical),
            is_fusion(out@, found_lexical, vector_found(all_vector.subrange(0, iter.index() as int))),
    {
        let ghost done = iter.index() as int;
        let ghost before = vector_found(all_vector.subrange(0, done));
        let ghost after = vector_found(all_vector.subrange(0, done + 1));
        let ghost old_out = out@;
        let id = hit.document_id;
        proof {
            assert(hit == all_vector[done]);
            assert(all_vector.subrange(0, done + 1).drop_last() =~= all_vector.subrange(0, done));
            assert(all_vector.subrange(0, done + 1).last() == hit);
            assert(after == before.insert(id, hit@));
        }
        let (at, found) = position(&out, id);
        let similarity = hit.similarity;
        if found {
            let former = out.remove(at);
            assert(former == old_out[at as int]);
            let candidate = match former.lexical_score {
                Some(relevance) => Candidate {
                    document_id: id,
                    lexical_score: Some(relevance),
                    vector_score: Some(similarity),
                    document: former.document,
                },
                None => Candidate {
                    document_id: id,
                    lexical_score: None,
                    vector_score: Some(similarity),
                    document: partial_recipe(hit),
                },
            };
            assert(candidate@ == candidate_of(id, found_lexical, after));
            out.insert(at, candidate);
            proof {
                assert(out@ =~= old_out.update(at as int, candidate));
                lemma_replace_candidate(old_out, at as int, candidate);
                assert forall|k: int| 0 <= k < out@.len() implies {
                    let kid = #[trigger] out@[k].document_id;
                    &&& found_lexical.contains_key(kid) || after.contains_key(kid)
                    &&& out@[k]@ == candidate_of(kid, found_lexical, after)
                } by {
                    if k != at {
                        assert(out@[k] == old_out[k]);
                        assert(old_out[k].document_id != id);
                    }
                }
                assert forall|any: i64|
                    found_lexical.contains_key(any) || after.contains_key(any) implies #[trigger] covers(
                    out@,
                    any,
                ) by {
                    if any != id {
                        assert(covers(old_out, any));
                    }
                }
            }
        } else {
            let candidate = Candidate {
                document_id: id,
                lexical_score: None,
                vector_score: Some(similarity),
                document: partial_recipe(hit),
            };
            proof {
                if found_lexical.contains_key(id) {
                    assert(covers(old_out, id));
                }
            }
            assert(candidate@ == candidate_of(id, found_lexical, after));
            out.insert(at, candidate);
            proof {
                lemma_insert_candidate(old_out, at as int, candidate);
                assert forall|k: int| 0 <= k < out@.len() implies {
                    let kid = #[trigger] out@[k].document_id;
                    &&& found_lexical.contains_key(kid) || after.contains_key(kid)
                    &&& out@[k]@ == candidate_of(kid, found_lexical, after)
                } by {
                    if k < at {
                        assert(out@[k] == old_out[k]);
                    } else if k > at {
                        assert(out@[k] == old_out[k - 1]);
                    }
                }
                assert forall|any: i64|
                    found_lexical.contains_key(any) || after.contains_key(any) implies #[trigger] covers(
                    out@,
                    any,
                ) by {
                    if any != id {
                        assert(covers(old_out, any));
                    }
                }
            }
        }
    }
    assert(all_vector.subrange(0, all_vector.len() as int) =~= all_vector);
    out
}

/// Whether `a` is ranked strictly before `b`: its combined score is better,
/// or the scores are equal and its document's key is smaller.
pub open spec fn ranks_before(a: FusedResult, b: FusedResult) -> bool {
    let ka = rank_key(a.combined_score.bits);
    let kb = rank_key(b.combined_score.bits);
    ka > kb || (ka == kb && a.document_id < b.document_id)
}

/// `ranking` with `x` put before the first result that `x` is ranked
/// strictly before, or at the end where there is none.
pub open spec fn with_ranked(ranking: Seq<FusedResult>, x: FusedResult) -> Seq<FusedResult>
    decreases ranking.len(),
{
    if ranking.len() == 0 {
        seq![x]
    } else if ranks_before(x, ranking[0]) {
        seq![x] + ranking
    } else {
        seq![ranking[0]] + with_ranked(ranking.drop_first(), x)
    }
}

/// The ranking of `results`: each in turn put in its place among those
/// before it. Results that tie in score and key keep the order they came in.
pub open spec fn ranked(results: Seq<FusedResult>) -> Seq<FusedResult>
    decreases results.len(),
{
    if results.len() == 0 {
        Seq::empty()
    } else {
        with_ranked(ranked(results.drop_last()), results.last())
    }
}

/// Whether no result stands behind one that it is ranked strictly before.
pub open spec fn in_rank_order(ranking: Seq<FusedResult>) -> bool {
    forall|i: int, j: int|
        0 <= i < j < ranking.len() ==> !ranks_before(#[trigger] ranking[j], #[trigger] ranking[i])
}

/// The documents of a ranking, in its order.
pub open spec fn documents_of(ranking: Seq<FusedResult>) -> Seq<RecipeWithId> {
    ranking.map_values(|r: FusedResult| r.document)
}

/// Putting `x` at the first place where it is ranked strictly before its
/// successor is what `with_ranked` does.
pub proof fn lemma_with_ranked_is_insert(ranking: Seq<FusedResult>, x: FusedResult, at: int)
    requires
        0 <= at <= ranking.len(),
        forall|k: int| 0 <= k < at ==> !ranks_before(x, #[trigger] ranking[k]),
        at < ranking.len() ==> ranks_before(x, ranking[at]),
    ensures
        with_ranked(ranking, x) == ranking.insert(at, x),
    decreases ranking.len(),
{
    if ranking.len() == 0 {
        assert(ranking.insert(at, x) =~= seq![x]);
    } else if at == 0 {
        assert(ranking.insert(at, x) =~= seq![x] + ranking);
    } else {
        let rest = ranking.drop_first();
        assert forall|k: int| 0 <= k < at - 1 implies !ranks_before(x, #[trigger] rest[k]) by {
            assert(rest[k] == ranking[k + 1]);
        }
        lemma_with_ranked_is_insert(rest, x, at - 1);
        assert(ranking.insert(at, x) =~= seq![ranking[0]] + rest.insert(at - 1, x));
    }
}

/// Where `with_ranked` puts `x`.
pub proof fn lemma_with_ranked_position(ranking: Seq<FusedResult>, x: FusedResult) -> (at: int)
    ensures
        0 <= at <= ranking.len(),
        forall|k: int| 0 <= k < at ==> !ranks_before(x, #[trigger] ranking[k]),
        at < ranking.len() ==> ranks_before(x, ranking[at]),
        with_ranked(ranking, x) == ranking.insert(at, x),
    decreases ranking.len(),
{
    if ranking.len() == 0 {
        lemma_with_ranked_is_insert(ranking, x, 0);
        0
    } else if ranks_before(x, ranking[0]) {
        lemma_with_ranked_is_insert(ranking, x, 0);
        0
    } else {
        let rest = ranking.drop_first();
        let at = lemma_with_ranked_position(rest, x);
        assert forall|k: int| 0 <= k < at + 1 implies !ranks_before(x, #[trigger] ranking[k]) by {
            if k > 0 {
                assert(rest[k - 1] == ranking[k]);
            }
        }
        assert(at < rest.len() ==> rest[at] == ranking[at + 1]);
        lemma_with_ranked_is_insert(ranking, x, at + 1);
        at + 1
    }
}

/// A ranking is in rank order and holds what was ranked, each result as
/// often as it was given.
pub proof fn lemma_ranked_is_ordered_permutation(results: Seq<FusedResult>)
    ensures
        in_rank_order(ranked(results)),
        ranked(results).len() == results.len(),
        ranked(results).to_multiset() == results.to_multiset(),
    decreases results.len(),
{
    broadcast use vstd::seq_lib::group_to_multiset_ensures;

    if results.len() == 0 {
        assert(ranked(results) =~= results);
    } else {
        let head = results.drop_last();
        let x = results.last();
        lemma_ranked_is_ordered_permutation(head);
        let before = ranked(head);
        let at = lemma_with_ranked_position(before, x);
        let after = before.insert(at, x);
        assert forall|i: int, j: int| 0 <= i < j < after.len() implies !ranks_before(
            #[trigger] after[j],
            #[trigger] after[i],
        ) by {
            if j < at {
                assert(after[i] == before[i] && after[j] == before[j]);
            } else if j == at {
                assert(after[i] == before[i]);
            } else if i < at {
                assert(after[i] == before[i] && after[j] == before[j - 1]);
            } else if i == at {
                assert(after[j] == before[j - 1]);
                if j - 1 > at {
                    assert(!ranks_before(before[j - 1], before[at]));
                }
            } else {
                assert(after[i] == before[i - 1] && after[j] == before[j - 1]);
            }
        }
        assert(results =~= head.push(x));
        assert(after.to_multiset() =~= before.to_multiset().insert(x)) by {
            vstd::seq_lib::to_multiset_insert(before, at, x);
        }
        assert(results.to_multiset() =~= head.to_multiset().insert(x));
    }
}

/// In a ranking of results for different documents, each result stands
/// strictly before the next: the ranking leaves nothing open.
pub proof fn lemma_ranking_of_distinct_is_strict(results: Seq<FusedResult>)
    requires
        forall|i: int, j: int|
            0 <= i < j < results.len() ==> (#[trigger] results[i]).document_id != (
            #[trigger] results[j]).document_id,
    ensures
        forall|i: int, j: int|
            0 <= i < j < ranked(results).len() ==> ranks_before(
                #[trigger] ranked(results)[i],
                #[trigger] ranked(results)[j],
            ),
{
    broadcast use vstd::seq_lib::group_to_multiset_ensures;

    lemma_ranked_is_ordered_permutation(results);
    let ranking = ranked(results);
    assert forall|i: int, j: int| 0 <= i < j < ranking.len() implies ranks_before(
        #[trigger] ranking[i],
        #[trigger] ranking[j],
    ) by {
        if ranking[i].document_id == ranking[j].document_id {
            lemma_distinct_ids_carry_over(results, ranking, i, j);
        }
    }
}

/// Two places of a permutation of a list with no key twice hold different
/// keys.
proof fn lemma_distinct_ids_carry_over(
    results: Seq<FusedResult>,
    ranking: Seq<FusedResult>,
    i: int,
    j: int,
)
    requires
        forall|a: int, b: int|
            0 <= a < b < results.len() ==> (#[trigger] results[a]).document_id != (
            #[trigger] results[b]).document_id,
        ranking.to_multiset() == results.to_multiset(),
        0 <= i < j < ranking.len(),
    ensures
        ranking[i].document_id != ranking[j].document_id,
{
    broadcast use vstd::seq_lib::group_to_multiset_ensures;

    let x = ranking[i];
    let y = ranking[j];
    if x.document_id == y.document_id {
        assert(ranking.to_multiset().count(x) > 0);
        assert(ranking.to_multiset().count(y) > 0);
        assert(results.contains(x));
        assert(results.contains(y));
        let a = choose|a: int| 0 <= a < results.len() && results[a] == x;
        let b = choose|b: int| 0 <= b < results.len() && results[b] == y;
        if a != b {
            if a < b {
                assert(results[a].document_id != results[b].document_id);
            } else {
                assert(results[b].document_id != results[a].document_id);
            }
        } else {
            // one result of the list stands at two places of the ranking
            assert(x == y);
            assert(results.to_multiset().count(x) >= 2) by {
                lemma_two_places_count_twice(ranking, i, j);
            }
            lemma_no_key_twice_counts_once(results, a);
        }
    }
}

/// What stands at two places of a list is counted at least twice.
proof fn lemma_two_places_count_twice(s: Seq<FusedResult>, i: int, j: int)
    requires
        0 <= i < j < s.len(),
        s[i] == s[j],
    ensures
        s.to_multiset().count(s[i]) >= 2,
    decreases s.len(),
{
    broadcast use vstd::seq_lib::group_to_multiset_ensures;

    let x = s[i];
    let head = s.drop_last();
    assert(s =~= head.push(s.last()));
    assert(s.to_multiset() =~= head.to_multiset().insert(s.last()));
    if j == s.len() - 1 {
        assert(head[i] == x);
        assert(head.to_multiset().count(x) > 0);
    } else {
        assert(head[i] == head[j]);
        lemma_two_places_count_twice(head, i, j);
    }
}

/// In a list with no key twice, each result is counted once.
proof fn lemma_no_key_twice_counts_once(s: Seq<FusedResult>, a: int)
    requires
        forall|p: int, q: int|
            0 <= p < q < s.len() ==> (#[trigger] s[p]).document_id != (#[trigger] s[q]).document_id,
        0 <= a < s.len(),
    ensures
        s.to_multiset().count(s[a]) == 1,
    decreases s.len(),
{
    broadcast use vstd::seq_lib::group_to_multiset_ensures;

    let x = s[a];
    let head = s.drop_last();
    assert(s =~= head.push(s.last()));
    assert(s.to_multiset() =~= head.to_multiset().insert(s.last()));
    if a == s.len() - 1 {
        if head.to_multiset().count(x) > 0 {
            assert(head.contains(x));
            let p = choose|p: int| 0 <= p < head.len() && head[p] == x;
            assert(s[p].document_id != s[a].document_id);
        }
    } else {
        assert(s[a].document_id != s[s.len() - 1].document_id);
        assert(head[a] == x);
        assert forall|p: int, q: int| 0 <= p < q < head.len() implies (#[trigger] head[p]).document_id
            != (#[trigger] head[q]).document_id by {
            assert(head[p] == s[p] && head[q] == s[q]);
        }
        lemma_no_key_twice_counts_once(head, a);
    }
}

fn goes_before(a: &FusedResult, b: &FusedResult) -> (r: bool)
    ensures
        r == ranks_before(*a, *b),
{
    let ka = a.combined_score.rank_key();
    let kb = b.combined_score.rank_key();
    ka > kb || (ka == kb && a.document_id < b.document_id)
}

/// Ranks scored candidates: the best combined score first, and of two with
/// equal scores, the one with the smaller key first.
pub fn rank(results: Vec<FusedResult>) -> (ranking: Vec<FusedResult>)
    ensures
        ranking@ == ranked(results@),
        in_rank_order(ranking@),
        ranking@.to_multiset() == results@.to_multiset(),
{
    let ghost all = results@;
    let mut out: Vec<FusedResult> = Vec::new();
    assert(all.subrange(0, 0) =~= Seq::<FusedResult>::empty());
    for result in iter: results
        invariant
            iter.seq() == all,
            out@ == ranked(all.subrange(0, iter.index() as int)),
    {
        let ghost done = iter.index() as int;
        proof {
            assert(all.subrange(0, done + 1).drop_last() =~= all.subrange(0, done));
            assert(all.subrange(0, done + 1).last() == result);
        }
        let mut at: usize = 0;
        while at < out.len() && !goes_before(&result, &out[at])
            invariant
                at <= out@.len(),
                forall|k: int| 0 <= k < at ==> !ranks_before(result, #[trigger] out@[k]),
            decreases out@.len() - at,
        {
            at = at + 1;
        }
        proof {
            lemma_with_ranked_is_insert(out@, result, at as int);
        }
        out.insert(at, result);
    }
    proof {
        assert(all.subrange(0, all.len() as int) =~= all);
        lemma_ranked_is_ordered_permutation(all);
    }
    out
}

/// The answer to a search: the documents of the ranking, in its order.
pub fn search_response(ranking: Vec<FusedResult>) -> (response: SearchResponse)
    ensures
        response.results@.map_values(|r: SearchResult| r.recipe) == documents_of(ranking@),
{
    let ghost all = ranking@;
    let mut results: Vec<SearchResult> = Vec::new();
    for result in iter: ranking
        invariant
            iter.seq() == all,
            results@.map_values(|r: SearchResult| r.recipe) == documents_of(
                all.subrange(0, iter.index() as int),
            ),
    {
        let ghost before = results@;
        results.push(SearchResult { recipe: result.document });
        assert(results@.map_values(|r: SearchResult| r.recipe) =~= before.map_values(
            |r: SearchResult| r.recipe,
        ).push(result.document));
        assert(documents_of(all.subrange(0, iter.index() + 1)) =~= documents_of(
            all.subrange(0, iter.index() as int),
        ).push(result.document));
    }
    assert(all.subrange(0, all.len() as int) =~= all);
    SearchResponse { results }
}

} // verus!
