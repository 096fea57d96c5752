//! The engine's decisions.
//!
//! Network transport and model inference live outside; this module fixes
//! every decision around them: what the collection bootstrap creates, what a
//! search sends, how a batch reuses the first query's filters, what an
//! upsert writes, and how retrieved hits are validated and deduplicated.
//! The surrounding runtime performs one outside call between each pair of
//! steps and hands the plain values back.

use vstd::prelude::*;
use vstd::string::StringSliceAdditionalSpecFns;
use crate::cache::{cache_key, spec_cache_key};
use crate::errors::SemanticError;
use crate::filters::{build_conditions, groups_view, spec_build_conditions, FilterGroup};
use crate::json::JsonValue;
use crate::payload::{spec_encode, CodePayload, PayloadType};
use crate::ranking::{
    deduplicate_snippets, emb_ok, mean_pool, spec_dedupe, vec_wf, bounded, div_to_zero,
    spec_col_sum, embs_view,
};
use crate::semantic_query::{spec_target, SemanticQuery};

verus! {

/// The name of the collection every operation works on.
pub fn collection_name() -> (r: &'static str)
    ensures
        r@ == "documents"@,
{
    "documents"
}

/// The dimensionality of every stored vector.
pub const EMBEDDING_DIM: usize = 384;

/// What the collection bootstrap creates when the collection is absent: the
/// fixed dimensionality under the cosine distance metric.
#[derive(Debug, Clone)]
pub struct CollectionPlan {
    pub collection_name: String,
    pub vector_size: u64,
    pub cosine_distance: bool,
}

/// The bootstrap plan.
pub fn collection_config() -> (r: CollectionPlan)
    ensures
        r.collection_name@ == "documents"@,
        r.vector_size == 384,
        r.cosine_distance,
{
    CollectionPlan {
        collection_name: "documents".to_owned(),
        vector_size: 384,
        cosine_distance: true,
    }
}

/// The secondary indexes the bootstrap creates, in creation order.
pub fn index_field_names() -> (r: Vec<String>)
    ensures
        r@.len() == 4,
        r@[0]@ == "repo_ref"@,
        r@[1]@ == "content_hash"@,
        r@[2]@ == "branches"@,
        r@[3]@ == "relative_path"@,
{
    let mut r: Vec<String> = Vec::new();
    r.push("repo_ref".to_owned());
    r.push("content_hash".to_owned());
    r.push("branches".to_owned());
    r.push("relative_path".to_owned());
    r
}

/// What the bootstrap does once the existence check has answered; the
/// secondary indexes of [`index_field_names`] are created after either
/// action.
#[derive(Debug, Clone)]
pub enum BootstrapAction {
    Create(CollectionPlan),
    Skip,
}

/// Decides the idempotent bootstrap from the outcome of the existence check
/// (`None` when the check itself failed): an unanswered check is a fatal
/// initialization error; an absent collection is created with the fixed
/// configuration; a present one is left as it stands.
pub fn bootstrap_step(has_collection: Option<bool>) -> (r: Result<
    BootstrapAction,
    SemanticError,
>)
    ensures
        r is Ok <==> has_collection is Some,
        r matches Err(e) ==> e == SemanticError::IndexInitializationError,
        has_collection == Some(false) ==> (r matches Ok(a) && a matches BootstrapAction::Create(p)
            && p.collection_name@ == "documents"@ && p.vector_size == 384 && p.cosine_distance),
        has_collection == Some(true) ==> (r matches Ok(a) && a is Skip),
{
    match has_collection {
        None => Err(SemanticError::IndexInitializationError),
        Some(false) => Ok(BootstrapAction::Create(collection_config())),
        Some(true) => Ok(BootstrapAction::Skip),
    }
}

/// One similarity query, ready to send: the filter groups, the text still to
/// be embedded, the caller's bounds, and the inclusion flags — the request
/// asks the index for payload and vector together, as deduplication needs
/// both.  The threshold is a fixed-point score, like every score in the
/// ranking module.
#[derive(Debug, Clone)]
pub struct SearchPlan {
    pub target: String,
    pub filters: Vec<FilterGroup>,
    pub limit: u64,
    pub offset: u64,
    pub threshold: i64,
    pub with_payload: bool,
    pub with_vectors: bool,
}

/// Plans one search: fails with `NoSearchTarget` exactly when the query
/// carries no plain target; otherwise the filter groups are built from the
/// query, and the limit is doubled when headroom for deduplication is asked
/// for.
pub fn search_plan(
    parsed_query: &SemanticQuery,
    limit: u64,
    offset: u64,
    threshold: i64,
    retrieve_more: bool,
) -> (r: Result<SearchPlan, SemanticError>)
    requires
        limit <= u64::MAX / 2,
    ensures
        r is Ok <==> spec_target(parsed_query@) is Some,
        r matches Err(e) ==> e == SemanticError::NoSearchTarget,
        r matches Ok(p) ==> p.target@ == spec_target(parsed_query@)->Some_0 && groups_view(
            p.filters@,
        ) == spec_build_conditions(parsed_query@) && (p.limit as int) == (if retrieve_more {
            limit * 2
        } else {
            limit as int
        }) && p.offset == offset && p.threshold == threshold && p.with_payload
            && p.with_vectors,
{
    let target = match parsed_query.target() {
        Some(t) => t,
        None => {
            return Err(SemanticError::NoSearchTarget);
        },
    };
    let filters = build_conditions(parsed_query);
    Ok(
        SearchPlan {
            target,
            filters,
            limit: if retrieve_more {
                limit * 2
            } else {
                limit
            },
            offset,
            threshold,
            with_payload: true,
            with_vectors: true,
        },
    )
}

/// Whether every hit carries a ranking-ready embedding of the query's
/// dimension.
pub open spec fn hits_rankable(hits: Seq<CodePayload>, q: Seq<i64>) -> bool {
    forall|j: int| 0 <= j < hits.len() ==> emb_ok(q, #[trigger] hits[j])
}

fn check_rankable(hits: &Vec<CodePayload>, q: &Vec<i64>) -> (r: bool)
    ensures
        r == hits_rankable(hits@, q@),
{
    let mut i: usize = 0;
    while i < hits.len()
        invariant
            i <= hits@.len(),
            forall|j: int| 0 <= j < i ==> emb_ok(q@, #[trigger] hits@[j]),
        decreases hits@.len() - i,
    {
        match &hits[i].embedding {
            Some(e) => {
                if !check_vec_wf(e, q.len()) {
                    assert(!emb_ok(q@, hits@[i as int]));
                    return false;
                }
            },
            None => {
                assert(!emb_ok(q@, hits@[i as int]));
                return false;
            },
        }
        i = i + 1;
    }
    true
}

fn check_vec_wf(e: &Vec<i64>, qlen: usize) -> (r: bool)
    ensures
        r == (e@.len() == qlen && vec_wf(e@)),
{
    if e.len() != qlen || e.len() > 8192 {
        return false;
    }
    let mut nonzero_seen = false;
    let mut i: usize = 0;
    while i < e.len()
        invariant
            e@.len() == qlen <= 8192,
            i <= e@.len(),
            forall|j: int| 0 <= j < i ==> -33_000_000 <= #[trigger] e@[j] <= 33_000_000,
            nonzero_seen == exists|j: int| 0 <= j < i && e@[j] != 0,
        decreases e@.len() - i,
    {
        if e[i] < -33_000_000 || e[i] > 33_000_000 {
            assert(!bounded(e@));
            return false;
        }
        if e[i] != 0 {
            nonzero_seen = true;
        }
        i = i + 1;
    }
    nonzero_seen
}

/// Finishes one search: validates the decoded hits' embeddings, then runs
/// the overlap filter and MMR against the query embedding.  Fails with
/// `InvalidEmbedding` exactly when the query vector or any hit's embedding
/// is missing, oversized, unbounded or degenerate.
pub fn search_finish(
    hits: Vec<CodePayload>,
    query_embedding: Vec<i64>,
    limit: u64,
) -> (r: Result<Vec<CodePayload>, SemanticError>)
    requires
        limit <= usize::MAX,
    ensures
        r is Ok <==> vec_wf(query_embedding@) && hits_rankable(hits@, query_embedding@),
        r matches Err(e) ==> e == SemanticError::InvalidEmbedding,
        r matches Ok(v) ==> v@ == spec_dedupe(hits@, query_embedding@, limit as int),
{
    if !check_vec_wf(&query_embedding, query_embedding.len()) {
        return Err(SemanticError::InvalidEmbedding);
    }
    if !check_rankable(&hits, &query_embedding) {
        return Err(SemanticError::InvalidEmbedding);
    }
    Ok(deduplicate_snippets(hits, query_embedding, limit))
}

/// A planned batch: one embedded text per query, the first query's filter
/// groups reused for every request, as the callers guarantee equal
/// constraints across a batch, and the inclusion flags as in [`SearchPlan`].
#[derive(Debug, Clone)]
pub struct BatchPlan {
    pub targets: Vec<String>,
    pub filters: Vec<FilterGroup>,
    pub limit: u64,
    pub offset: u64,
    pub threshold: i64,
    pub with_payload: bool,
    pub with_vectors: bool,
}

/// Plans a batch search: fails with `NoSearchTarget` exactly when the batch
/// is empty or some query carries no plain target.
pub fn batch_search_plan(
    parsed_queries: &Vec<SemanticQuery>,
    limit: u64,
    offset: u64,
    threshold: i64,
    retrieve_more: bool,
) -> (r: Result<BatchPlan, SemanticError>)
    requires
        limit <= u64::MAX / 2,
    ensures
        r is Ok <==> parsed_queries@.len() > 0 && (forall|i: int|
            0 <= i < parsed_queries@.len() ==> spec_target(#[trigger] parsed_queries@[i]@)
                is Some),
        r matches Err(e) ==> e == SemanticError::NoSearchTarget,
        r matches Ok(p) ==> p.targets@.len() == parsed_queries@.len() && (forall|i: int|
            0 <= i < parsed_queries@.len() ==> (#[trigger] p.targets@[i])@ == spec_target(
                parsed_queries@[i]@,
            )->Some_0) && groups_view(p.filters@) == spec_build_conditions(parsed_queries@[0]@)
            && (p.limit as int) == (if retrieve_more {
            limit * 2
        } else {
            limit as int
        }) && p.offset == offset && p.threshold == threshold && p.with_payload
            && p.with_vectors,
{
    if parsed_queries.len() == 0 {
        return Err(SemanticError::NoSearchTarget);
    }
    let mut targets: Vec<String> = Vec::new();
    let mut i: usize = 0;
    while i < parsed_queries.len()
        invariant
            i <= parsed_queries@.len(),
            targets@.len() == i,
            forall|j: int|
                0 <= j < i ==> spec_target(#[trigger] parsed_queries@[j]@) is Some,
            forall|j: int|
                0 <= j < i ==> (#[trigger] targets@[j])@ == spec_target(
                    parsed_queries@[j]@,
                )->Some_0,
        decreases parsed_queries@.len() - i,
    {
        match parsed_queries[i].target() {
            Some(t) => {
                proof {
                    assert(spec_target(parsed_queries@[i as int]@) is Some);
                    assert(t@ == spec_target(parsed_queries@[i as int]@)->Some_0);
                }
                let ghost told = targets@;
                targets.push(t);
                proof {
                    assert(targets@[i as int]@ == spec_target(parsed_queries@[i as int]@)->Some_0);
                    assert(forall|j: int| 0 <= j < i ==> targets@[j] == told[j]);
                }
            },
            None => {
                proof {
                    assert(spec_target(parsed_queries@[i as int]@) is None);
                }
                return Err(SemanticError::NoSearchTarget);
            },
        }
        i = i + 1;
    }
    let filters = build_conditions(&parsed_queries[0]);
    Ok(
        BatchPlan {
            targets,
            filters,
            limit: if retrieve_more {
                limit * 2
            } else {
                limit
            },
            offset,
            threshold,
            with_payload: true,
            with_vectors: true,
        },
    )
}

/// The per-request result lists of a batch, joined in request order.
pub open spec fn spec_concat_hits(lists: Seq<Seq<CodePayload>>) -> Seq<CodePayload>
    decreases lists.len(),
{
    if lists.len() == 0 {
        Seq::empty()
    } else {
        spec_concat_hits(lists.drop_last()) + lists.last()
    }
}

/// The contents of each per-request hit list.
pub open spec fn hit_lists_view(lists: Seq<Vec<CodePayload>>) -> Seq<Seq<CodePayload>> {
    lists.map_values(|v: Vec<CodePayload>| v@)
}

/// Flattens the per-request result lists of a batch search into one list, in
/// request order: the batch issues one similarity request per embedded
/// query, and every hit goes on to deduplication together.
pub fn flatten_batch_hits(lists: Vec<Vec<CodePayload>>) -> (r: Vec<CodePayload>)
    ensures
        r@ == spec_concat_hits(hit_lists_view(lists@)),
{
    let ghost lv = hit_lists_view(lists@);
    let mut work = lists;
    let mut out: Vec<CodePayload> = Vec::new();
    let ghost mut i: int = 0;
    proof {
        assert(hit_lists_view(work@) =~= lv.subrange(0, lv.len() as int));
        assert(lv.subrange(0, 0) =~= Seq::<Seq<CodePayload>>::empty());
    }
    while work.len() > 0
        invariant
            0 <= i <= lv.len(),
            hit_lists_view(work@) == lv.subrange(i, lv.len() as int),
            out@ == spec_concat_hits(lv.subrange(0, i)),
        decreases work@.len(),
    {
        let ghost wv = hit_lists_view(work@);
        proof {
            assert(wv.len() == work@.len());
            assert(i < lv.len());
            assert(wv == lv.subrange(i, lv.len() as int));
            assert(lv.subrange(i, lv.len() as int)[0] == lv[i]);
            assert(wv[0] == work@[0]@);
        }
        let mut inner = work.remove(0);
        proof {
            assert(wv[0] == lv[i]);
            assert(inner@ == lv[i]);
            assert(hit_lists_view(work@) =~= wv.subrange(1, wv.len() as int));
            assert(hit_lists_view(work@) =~= lv.subrange(i + 1, lv.len() as int));
            assert(inner@.subrange(0, inner@.len() as int) =~= inner@);
        }
        let ghost mut k: int = 0;
        while inner.len() > 0
            invariant
                0 <= i < lv.len(),
                0 <= k <= lv[i].len(),
                inner@ == lv[i].subrange(k, lv[i].len() as int),
                out@ == spec_concat_hits(lv.subrange(0, i)) + lv[i].subrange(0, k),
            decreases inner@.len(),
        {
            let ghost iv = inner@;
            let x = inner.remove(0);
            proof {
                assert(x == iv[0]);
                assert(iv[0] == lv[i][k]);
                assert(inner@ =~= lv[i].subrange(k + 1, lv[i].len() as int));
                assert(lv[i].subrange(0, k + 1) =~= lv[i].subrange(0, k) + seq![lv[i][k]]);
            }
            out.push(x);
            proof {
                k = k + 1;
                assert(out@ =~= spec_concat_hits(lv.subrange(0, i)) + lv[i].subrange(0, k));
            }
        }
        proof {
            assert(lv[i].subrange(0, lv[i].len() as int) =~= lv[i]);
            let p1 = lv.subrange(0, i + 1);
            assert(p1.drop_last() =~= lv.subrange(0, i));
            assert(p1.last() == lv[i]);
            i = i + 1;
        }
    }
    proof {
        assert(i == lv.len());
        assert(lv.subrange(0, lv.len() as int) =~= lv);
    }
    out
}

/// The element-wise mean of the batch's query embeddings: the reference
/// vector batch deduplication ranks against.  Fails with `InvalidEmbedding`
/// exactly when the batch is empty, or the vectors disagree in dimension or
/// overflow the component bound.
pub fn batch_reference_vector(embeddings: &Vec<Vec<i64>>) -> (r: Result<Vec<i64>, SemanticError>)
    ensures
        r is Ok <==> 0 < embeddings@.len() && (forall|j: int|
            0 <= j < embeddings@.len() ==> (#[trigger] embeddings@[j]@).len()
                == embeddings@[0]@.len()) && (forall|j: int|
            0 <= j < embeddings@.len() ==> bounded(#[trigger] embeddings@[j]@)),
        r matches Err(e) ==> e == SemanticError::InvalidEmbedding,
        r matches Ok(m) ==> embeddings@.len() > 0 && m@.len() == embeddings@[0]@.len() && (forall|
            col: int,
        |
            0 <= col < m@.len() ==> (#[trigger] m@[col]) as int == div_to_zero(
                spec_col_sum(embs_view(embeddings@), col),
                embeddings@.len() as int,
            )),
{
    if embeddings.len() == 0 {
        return Err(SemanticError::InvalidEmbedding);
    }
    let dim = embeddings[0].len();
    let mut j: usize = 0;
    while j < embeddings.len()
        invariant
            0 < embeddings@.len(),
            dim == embeddings@[0]@.len(),
            j <= embeddings@.len(),
            forall|t: int| 0 <= t < j ==> (#[trigger] embeddings@[t]@).len() == dim,
            forall|t: int| 0 <= t < j ==> bounded(#[trigger] embeddings@[t]@),
        decreases embeddings@.len() - j,
    {
        if embeddings[j].len() != dim {
            assert(embeddings@[j as int]@.len() != embeddings@[0]@.len());
            return Err(SemanticError::InvalidEmbedding);
        }
        let e = &embeddings[j];
        let mut t: usize = 0;
        while t < e.len()
            invariant
                j < embeddings@.len(),
                e@ == embeddings@[j as int]@,
                t <= e@.len(),
                forall|u: int| 0 <= u < t ==> -33_000_000 <= #[trigger] e@[u] <= 33_000_000,
            decreases e@.len() - t,
        {
            if e[t] < -33_000_000 || e[t] > 33_000_000 {
                assert(!bounded(e@));
                assert(!bounded(embeddings@[j as int]@));
                return Err(SemanticError::InvalidEmbedding);
            }
            t = t + 1;
        }
        assert(bounded(e@));
        j = j + 1;
    }
    Ok(mean_pool(embeddings))
}

/// One stored point ready to upsert: the content-derived identifier and the
/// encoded fields; the caller attaches the embedding it computed for the
/// same text.
#[derive(Debug)]
pub struct PointPlan {
    pub id: String,
    pub fields: Vec<(String, JsonValue)>,
}

/// Builds the record an ingestion call stores: the buffer is both the
/// displayed and the original text, the language tag is the ingestion
/// default, and the ephemeral fields stay empty.
pub fn build_insert_payload(
    repo_name: &str,
    repo_ref: &str,
    relative_path: &str,
    buffer: &str,
) -> (r: CodePayload)
    ensures
        r@.lang == "java"@,
        r@.repo_name == repo_name@,
        r@.repo_ref == repo_ref@,
        r@.payload_type == PayloadType::Code,
        r@.relative_path == relative_path@,
        r@.content_hash == Seq::<char>::empty(),
        r@.display_text == buffer@,
        r@.origin_text == buffer@,
        r@.start_line == 0 && r@.end_line == 0 && r@.start_byte == 0 && r@.end_byte == 0,
        r@.branches == Seq::<Seq<char>>::empty(),
        r@.id is None && r@.embedding is None && r@.score is None,
{
    let r = CodePayload {
        lang: "java".to_owned(),
        repo_name: repo_name.to_owned(),
        repo_ref: repo_ref.to_owned(),
        payload_type: PayloadType::Code,
        relative_path: relative_path.to_owned(),
        content_hash: String::new(),
        display_text: buffer.to_owned(),
        origin_text: buffer.to_owned(),
        start_line: 0,
        end_line: 0,
        start_byte: 0,
        end_byte: 0,
        branches: Vec::new(),
        id: None,
        embedding: None,
        score: None,
    };
    proof {
        assert(crate::payload::strs_view(Seq::<String>::empty()) =~= Seq::<Seq<char>>::empty());
    }
    r
}

/// Builds the point an ingestion call upserts: the identifier is the content
/// hash of the buffer, so re-inserting identical content overwrites the same
/// point, and the fields are the payload's encoding.
pub fn insert_points_for_buffer(
    repo_name: &str,
    repo_ref: &str,
    relative_path: &str,
    buffer: &str,
) -> (r: PointPlan)
    ensures
        r.id@ == spec_cache_key(buffer.spec_bytes()),
        crate::json::obj_view(r.fields@) == spec_encode(
            spec_insert_payload(repo_name@, repo_ref@, relative_path@, buffer@),
        ),
{
    let payload = build_insert_payload(repo_name, repo_ref, relative_path, buffer);
    let id = cache_key(buffer);
    let fields = payload.into_qdrant();
    proof {
        assert(payload@ == spec_insert_payload(repo_name@, repo_ref@, relative_path@, buffer@));
    }
    PointPlan { id, fields }
}

/// The record an ingestion call stores for a buffer.
pub open spec fn spec_insert_payload(
    repo_name: Seq<char>,
    repo_ref: Seq<char>,
    relative_path: Seq<char>,
    buffer: Seq<char>,
) -> crate::payload::PayloadData {
    crate::payload::PayloadData {
        lang: "java"@,
        repo_name,
        repo_ref,
        payload_type: PayloadType::Code,
        relative_path,
        content_hash: Seq::empty(),
        display_text: buffer,
        origin_text: buffer,
        start_line: 0,
        end_line: 0,
        start_byte: 0,
        end_byte: 0,
        branches: Seq::empty(),
        id: None,
        embedding: None,
        score: None,
    }
}

} // verus!
