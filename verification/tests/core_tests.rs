use counit::cache::cache_key;
use counit::engine::{
    batch_reference_vector, bootstrap_step, flatten_batch_hits, search_finish, search_plan,
    BootstrapAction,
};
use counit::errors::SemanticError;
use counit::filters::{build_conditions, MatchKind};
use counit::json::{parse_json, JsonValue};
use counit::literal::{unescape, Literal};
use counit::payload::{parse_payload, CodePayload, PayloadType};
use counit::ranking::{
    cosine_similarity, deduplicate_snippets, deduplicate_with_mmr, filter_overlapping_snippets,
    SCALE,
};
use counit::semantic_query::SemanticQuery;

fn payload(path: &str, lang: &str, start: u64, end: u64, score: i64) -> CodePayload {
    CodePayload {
        lang: lang.to_string(),
        repo_name: "repo".to_string(),
        repo_ref: "github.com/x/repo".to_string(),
        payload_type: PayloadType::Code,
        relative_path: path.to_string(),
        content_hash: "h".to_string(),
        display_text: "text".to_string(),
        origin_text: "text".to_string(),
        start_line: start,
        end_line: end,
        start_byte: 0,
        end_byte: 0,
        branches: vec!["main".to_string()],
        id: Some("00000000-0000-0000-0000-000000000000".to_string()),
        embedding: Some(vec![SCALE, SCALE / 2]),
        score: Some(score),
    }
}

#[test]
fn content_id_is_deterministic() {
    let a = cache_key("some snippet of code");
    let b = cache_key("some snippet of code");
    assert_eq!(a, b);
    assert_eq!(a.len(), 36);
    let chars: Vec<char> = a.chars().collect();
    assert_eq!(chars[8], '-');
    assert_eq!(chars[13], '-');
    assert_eq!(chars[18], '-');
    assert_eq!(chars[23], '-');
    assert_ne!(cache_key("one text"), cache_key("another text"));
}

#[test]
fn overlap_filter_drops_same_file_overlap() {
    let hits = vec![
        payload("a", "go", 0, 10, 900_000),
        payload("a", "go", 5, 15, 800_000),
        payload("b", "go", 0, 5, 700_000),
    ];
    let kept = filter_overlapping_snippets(hits);
    assert_eq!(kept.len(), 2);
    let mut spots: Vec<(String, u64, u64)> = kept
        .iter()
        .map(|p| (p.relative_path.clone(), p.start_line, p.end_line))
        .collect();
    spots.sort();
    assert_eq!(spots, vec![("a".to_string(), 0, 10), ("b".to_string(), 0, 5)]);
}

#[test]
fn overlap_filter_orders_by_score() {
    let hits = vec![
        payload("a", "go", 0, 10, 100_000),
        payload("b", "go", 0, 10, 900_000),
    ];
    let kept = filter_overlapping_snippets(hits);
    assert_eq!(kept[0].relative_path, "b");
    assert_eq!(kept[1].relative_path, "a");
}

#[test]
fn mmr_small_pool_keeps_everything() {
    let hits = vec![
        payload("a", "go", 0, 10, 900_000),
        payload("b", "rust", 0, 5, 800_000),
    ];
    let query = vec![SCALE, SCALE / 2];
    let out = deduplicate_snippets(hits, query, 5);
    assert_eq!(out.len(), 2);
}

#[test]
fn mmr_prefers_a_fresh_language() {
    let emb = vec![SCALE, SCALE];
    let embeddings = vec![emb.clone(), emb.clone(), emb.clone()];
    let languages = vec!["go".to_string(), "go".to_string(), "rust".to_string()];
    let paths = vec!["p0".to_string(), "p1".to_string(), "p2".to_string()];
    let idxs = deduplicate_with_mmr(&emb, &embeddings, &languages, &paths, 2);
    assert_eq!(idxs, vec![0, 2]);
}

#[test]
fn mmr_diversity_survives_a_small_relevance_deficit() {
    // The rust candidate is less relevant (cosine 0.6 against 1.0), yet once
    // a go item is selected the halved go bonus hands it the second slot.
    let query = vec![SCALE, 0];
    let embeddings = vec![
        vec![SCALE, 0],
        vec![SCALE, 0],
        vec![600_000, 800_000],
    ];
    let languages = vec!["go".to_string(), "go".to_string(), "rust".to_string()];
    let paths = vec!["p0".to_string(), "p1".to_string(), "p2".to_string()];
    let idxs = deduplicate_with_mmr(&query, &embeddings, &languages, &paths, 2);
    assert_eq!(idxs, vec![0, 2]);
}

#[test]
fn filter_conjunction_builds_two_groups() {
    let mut query = SemanticQuery::default();
    query.repos.push(Literal::Plain("x".to_string()));
    query.langs.push("go".to_string());
    query.langs.push("rust".to_string());
    let groups = build_conditions(&query);
    assert_eq!(groups.len(), 2);
    assert_eq!(groups[0].should.len(), 1);
    assert_eq!(groups[0].should[0].key, "repo_name");
    assert_eq!(groups[0].should[0].value, "x");
    assert!(matches!(groups[0].should[0].match_kind, MatchKind::Keyword));
    assert_eq!(groups[1].should.len(), 2);
    assert_eq!(groups[1].should[0].key, "lang");
    assert_eq!(groups[1].should[0].value, "go");
    assert_eq!(groups[1].should[1].value, "rust");
}

#[test]
fn repo_names_gain_the_host_prefix() {
    let mut query = SemanticQuery::default();
    query.repos.push(Literal::Plain("org/repo".to_string()));
    let groups = build_conditions(&query);
    assert_eq!(groups[0].should[0].value, "github.com/org/repo");
    let mut query = SemanticQuery::default();
    query.repos.push(Literal::Plain("github.com/org/repo".to_string()));
    let groups = build_conditions(&query);
    assert_eq!(groups[0].should[0].value, "github.com/org/repo");
}

#[test]
fn path_filters_use_text_matching() {
    let mut query = SemanticQuery::default();
    query.paths.push(Literal::Plain("src/".to_string()));
    let groups = build_conditions(&query);
    assert_eq!(groups[0].should[0].key, "relative_path");
    assert!(matches!(groups[0].should[0].match_kind, MatchKind::Text));
}

#[test]
fn batch_mean_pool_reference_vector() {
    let embeddings = vec![vec![1_000_000, 0], vec![0, 1_000_000]];
    let mean = batch_reference_vector(&embeddings).unwrap();
    assert_eq!(mean, vec![500_000, 500_000]);
    assert!(matches!(
        batch_reference_vector(&Vec::new()),
        Err(SemanticError::InvalidEmbedding)
    ));
    assert!(matches!(
        batch_reference_vector(&vec![vec![1, 2], vec![3]]),
        Err(SemanticError::InvalidEmbedding)
    ));
    assert!(matches!(
        batch_reference_vector(&vec![vec![34_000_000, 0]]),
        Err(SemanticError::InvalidEmbedding)
    ));
    // Batch length is unbounded: only emptiness, dimensions and component
    // bounds decide.
    let big: Vec<Vec<i64>> = (0..2000).map(|_| vec![7, -3]).collect();
    assert_eq!(batch_reference_vector(&big).unwrap(), vec![7, -3]);
}

#[test]
fn codec_round_trip_preserves_persisted_fields() {
    let mut stored = payload("src/lib.rs", "rust", 1, 9, 0);
    stored.id = None;
    stored.embedding = None;
    stored.score = None;
    let fields = stored.into_qdrant();
    let id = "123e4567-e89b-12d3-a456-426614174000".to_string();
    let got = parse_payload(Some(id.clone()), Some(vec![SCALE]), &fields, 42).unwrap();
    assert_eq!(got, stored);
    assert_eq!(got.id.as_deref(), Some(id.as_str()));
    assert_eq!(got.score, Some(42));
    assert_eq!(got.embedding, Some(vec![SCALE]));
}

#[test]
fn codec_rejects_corrupted_records() {
    let stored = payload("src/lib.rs", "rust", 1, 9, 0);
    let fields = stored.into_qdrant();
    assert!(matches!(
        parse_payload(None, None, &fields, 0),
        Err(SemanticError::CorruptedRecord)
    ));
    assert!(matches!(
        parse_payload(Some("not-a-uuid".to_string()), None, &fields, 0),
        Err(SemanticError::CorruptedRecord)
    ));
    let empty: Vec<(String, JsonValue)> = Vec::new();
    assert!(matches!(
        parse_payload(
            Some("123e4567-e89b-12d3-a456-426614174000".to_string()),
            None,
            &empty,
            0
        ),
        Err(SemanticError::CorruptedRecord)
    ));
}

#[test]
fn payload_type_names_round_trip() {
    let kinds = vec![
        PayloadType::Code,
        PayloadType::Comment,
        PayloadType::Doc,
        PayloadType::HttpApi,
        PayloadType::OpenApi,
        PayloadType::DatabaseMap,
    ];
    for k in kinds {
        assert_eq!(PayloadType::from_str(&k.name()), k);
    }
    assert_eq!(PayloadType::from_str("unheard-of"), PayloadType::Code);
}

#[test]
fn search_plan_requires_a_target() {
    let query = SemanticQuery::default();
    assert!(matches!(
        search_plan(&query, 10, 0, 0, false),
        Err(SemanticError::NoSearchTarget)
    ));
    let query = SemanticQuery::from_str("find the parser".to_string(), PayloadType::Code);
    let plan = search_plan(&query, 10, 0, 0, true).unwrap();
    assert_eq!(plan.target, "find the parser");
    assert_eq!(plan.limit, 20);
    assert!(plan.with_payload);
    assert!(plan.with_vectors);
}

#[test]
fn bootstrap_creates_only_when_absent() {
    assert!(matches!(
        bootstrap_step(None),
        Err(SemanticError::IndexInitializationError)
    ));
    match bootstrap_step(Some(false)) {
        Ok(BootstrapAction::Create(plan)) => {
            assert_eq!(plan.collection_name, "documents");
            assert_eq!(plan.vector_size, 384);
            assert!(plan.cosine_distance);
        }
        other => panic!("expected a creation plan, got {:?}", other),
    }
    assert!(matches!(bootstrap_step(Some(true)), Ok(BootstrapAction::Skip)));
}

#[test]
fn batch_hits_flatten_in_request_order() {
    let lists = vec![
        vec![payload("a", "go", 0, 10, 900_000)],
        vec![],
        vec![
            payload("b", "rust", 0, 5, 800_000),
            payload("c", "go", 3, 9, 700_000),
        ],
    ];
    let flat = flatten_batch_hits(lists);
    let paths: Vec<&str> = flat.iter().map(|p| p.relative_path.as_str()).collect();
    assert_eq!(paths, vec!["a", "b", "c"]);
}

#[test]
fn search_finish_rejects_degenerate_vectors() {
    let hits = vec![payload("a", "go", 0, 10, 900_000)];
    assert!(matches!(
        search_finish(hits, vec![0, 0], 10),
        Err(SemanticError::InvalidEmbedding)
    ));
    let hits = vec![payload("a", "go", 0, 10, 900_000)];
    let out = search_finish(hits, vec![SCALE, SCALE / 2], 10).unwrap();
    assert_eq!(out.len(), 1);
}

#[test]
fn unescape_handles_terminators() {
    assert_eq!(unescape("ab\\/c", '/'), "ab/c");
    assert_eq!(unescape("ab\\/c", '"'), "ab\\/c");
    assert_eq!(unescape("ab\\nc", '"'), "ab\nc");
    assert_eq!(unescape("ab\\\"c", '"'), "ab\"c");
}

#[test]
fn plain_literals_are_escaped_for_patterns() {
    let lit = Literal::Plain("a.b*".to_string());
    assert_eq!(lit.regex_str(), "a\\.b\\*");
    let lit = Literal::Regex("a.b*".to_string());
    assert_eq!(lit.regex_str(), "a.b*");
    assert!(Literal::Plain("a.b*".to_string()).regex().is_ok());
    assert!(Literal::Regex("(unclosed".to_string()).regex().is_err());
}

#[test]
fn json_parsing_reads_arrays_and_objects() {
    match parse_json("[1, 2]") {
        Some(JsonValue::Arr(items)) => assert_eq!(items.len(), 2),
        _ => panic!("expected an array"),
    }
    assert!(parse_json("{ nope").is_none());
}

#[test]
fn insert_point_uses_the_content_id() {
    let point = counit::engine::insert_points_for_buffer("repo", "ref", "path.rs", "hello");
    assert_eq!(point.id, cache_key("hello"));
    assert_eq!(point.fields.len(), 13);
    match &point.fields[0] {
        (k, JsonValue::Str(v)) => {
            assert_eq!(k, "lang");
            assert_eq!(v, "java");
        }
        _ => panic!("expected the language field first"),
    }
}

#[test]
fn encode_lower_cases_the_language() {
    let mut stored = payload("p", "RuSt", 0, 0, 0);
    stored.id = None;
    stored.embedding = None;
    stored.score = None;
    let fields = stored.into_qdrant();
    match &fields[0].1 {
        JsonValue::Str(v) => assert_eq!(v, "rust"),
        _ => panic!("expected a string language"),
    }
}

#[test]
fn query_accessors_skip_regex_terms() {
    let mut query = SemanticQuery::default();
    query.repos.push(Literal::Plain("a".to_string()));
    query.repos.push(Literal::Regex("b.*".to_string()));
    assert_eq!(query.repos(), vec!["a".to_string()]);
    assert_eq!(query.first_branch(), None);
    query.branch.push(Literal::Plain("main".to_string()));
    assert_eq!(query.first_branch().as_deref(), Some("main"));
}

#[test]
fn points_locate_lines_and_columns() {
    let ends: Vec<u32> = vec![4, 9];
    let p = counit::document::Point::from_byte(5, &ends);
    assert_eq!((p.byte, p.line, p.column), (5, 1, 1));
    let p = counit::document::Point::from_byte(2, &ends);
    assert_eq!((p.byte, p.line, p.column), (2, 0, 2));
    let p = counit::document::Point::from_byte(100, &ends);
    assert_eq!((p.byte, p.line, p.column), (100, 0, 100));
    let a = counit::document::TextRange::new(
        counit::document::Point::new(0, 0, 0),
        counit::document::Point::new(10, 1, 2),
    );
    let b = counit::document::TextRange::new(
        counit::document::Point::new(2, 0, 2),
        counit::document::Point::new(9, 1, 1),
    );
    assert!(a.contains(&b));
    assert!(!b.contains(&a));
    assert_eq!(a.size(), 10);
}

#[test]
fn tool_prompt_lists_paths() {
    let prompt = counit::prompts::tool_prompt(&vec!["src/a.rs".to_string()]);
    assert!(prompt.contains("## PATHS ##\nalias, path\n0, src/a.rs\n"));
    let bare = counit::prompts::tool_prompt(&Vec::new());
    assert!(!bare.contains("## PATHS ##"));
    assert!(bare.contains("codeSearch:"));
}

#[test]
fn similarity_is_fixed_point_exact() {
    let a = vec![1i64, 0];
    let b = vec![0i64, 1];
    let c = vec![-1i64, 0];
    assert_eq!(cosine_similarity(&a, &a), SCALE as i128);
    assert_eq!(cosine_similarity(&a, &b), 0);
    assert_eq!(cosine_similarity(&a, &c), -(SCALE as i128));
    // Unit vectors at full fixed-point magnitude score one against
    // themselves and keep scale invariance.
    let u = vec![SCALE, 0];
    assert_eq!(cosine_similarity(&u, &u), SCALE as i128);
    assert_eq!(cosine_similarity(&u, &vec![0, SCALE]), 0);
    assert_eq!(cosine_similarity(&u, &vec![-SCALE, 0]), -(SCALE as i128));
    // A three-four-five pair: cosine 0.96, exact in fixed point.
    let p = vec![600_000i64, 800_000];
    let q = vec![800_000i64, 600_000];
    assert_eq!(cosine_similarity(&p, &q), 960_000);
}

#[test]
fn mmr_first_pick_is_the_relevance_argmax() {
    // With nothing selected every candidate gets the same bonuses, so the
    // first pick is the candidate most similar to the query; the orthogonal
    // one loses even though it comes first.
    let query = vec![SCALE, 0];
    let embeddings = vec![vec![0, SCALE], vec![SCALE, 0]];
    let languages = vec!["go".to_string(), "rust".to_string()];
    let paths = vec!["a".to_string(), "b".to_string()];
    let idxs = deduplicate_with_mmr(&query, &embeddings, &languages, &paths, 1);
    assert_eq!(idxs, vec![1]);
}

#[test]
fn byte_ranges_locate_both_ends() {
    let ends: Vec<u32> = vec![4, 9];
    let r = counit::document::TextRange::from_byte_range(2..7, &ends);
    assert_eq!(r.start.byte, 2);
    assert_eq!(r.end.byte, 7);
    assert_eq!(r.start.line, 0);
    assert_eq!(r.end.line, 1);
    let inner = counit::document::TextRange::from_byte_range(3..7, &ends);
    assert!(r.contains(&inner));
    assert!(r.contains_strict(inner));
}
