//! The query filter builder.
//!
//! A structured query becomes a conjunction of OR-groups: for each non-empty
//! constraint set one group of per-value predicates on the matching indexed
//! field, and a record must satisfy every group.

use vstd::prelude::*;
use crate::semantic_query::{query_wf, spec_plains, SemanticQuery};
use crate::strutil::{contains_char, spec_contains_char, spec_starts_with, starts_with_str};

verus! {

/// How a predicate matches its field: exact keyword equality, or substring
/// (full-text) matching.
#[derive(Clone, Copy, Debug, PartialEq, Eq, Structural)]
pub enum MatchKind {
    Keyword,
    Text,
}

/// One predicate on one indexed field.
#[derive(Debug, Clone)]
pub struct FieldCondition {
    pub key: String,
    pub match_kind: MatchKind,
    pub value: String,
}

/// The content of a predicate.
pub ghost struct CondData {
    pub key: Seq<char>,
    pub match_kind: MatchKind,
    pub value: Seq<char>,
}

impl View for FieldCondition {
    type V = CondData;

    open spec fn view(&self) -> CondData {
        CondData { key: self.key@, match_kind: self.match_kind, value: self.value@ }
    }
}

/// An OR-group: a record satisfies it when at least one predicate holds.
/// Groups are combined with AND by the index.
#[derive(Debug, Clone)]
pub struct FilterGroup {
    pub should: Vec<FieldCondition>,
}

impl View for FilterGroup {
    type V = Seq<CondData>;

    open spec fn view(&self) -> Seq<CondData> {
        Seq::new(self.should@.len(), |i: int| self.should@[i]@)
    }
}

/// An exact-match predicate.
pub open spec fn spec_kv_keyword(key: Seq<char>, value: Seq<char>) -> CondData {
    CondData { key, match_kind: MatchKind::Keyword, value }
}

/// A substring-match predicate.
pub open spec fn spec_kv_text(key: Seq<char>, value: Seq<char>) -> CondData {
    CondData { key, match_kind: MatchKind::Text, value }
}

/// Exact match filter.
pub fn make_kv_keyword_filter(key: &str, value: &str) -> (r: FieldCondition)
    ensures
        r@ == spec_kv_keyword(key@, value@),
{
    FieldCondition { key: key.to_owned(), match_kind: MatchKind::Keyword, value: value.to_owned() }
}

/// Substring match filter.
pub fn make_kv_text_filter(key: &str, value: &str) -> (r: FieldCondition)
    ensures
        r@ == spec_kv_text(key@, value@),
{
    FieldCondition { key: key.to_owned(), match_kind: MatchKind::Text, value: value.to_owned() }
}

/// A user-supplied repository name normalized to its fully qualified stored
/// form: a name with a `/` that does not already start with the canonical
/// host prefix gets that prefix.
pub open spec fn spec_normalize_repo(r: Seq<char>) -> Seq<char> {
    if spec_contains_char(r, '/') && !spec_starts_with(r, "github.com/"@) {
        "github.com/"@ + r
    } else {
        r
    }
}

fn normalize_repo(r: &str) -> (out: String)
    ensures
        out@ == spec_normalize_repo(r@),
{
    if contains_char(r, '/') && !starts_with_str(r, "github.com/") {
        let mut s = "github.com/".to_owned();
        vstd::string::StringExecFns::append(&mut s, r);
        s
    } else {
        r.to_owned()
    }
}

/// The predicates of the repository group.
pub open spec fn spec_repo_conds(repos: Seq<Seq<char>>) -> Seq<CondData> {
    repos.map_values(|r: Seq<char>| spec_kv_keyword("repo_name"@, spec_normalize_repo(r)))
}

/// The predicates of the path group.
pub open spec fn spec_path_conds(paths: Seq<Seq<char>>) -> Seq<CondData> {
    paths.map_values(|p: Seq<char>| spec_kv_text("relative_path"@, p))
}

/// The predicates of the language group.
pub open spec fn spec_lang_conds(langs: Seq<Seq<char>>) -> Seq<CondData> {
    langs.map_values(|l: Seq<char>| spec_kv_keyword("lang"@, l))
}

/// The predicates of the branch group.
pub open spec fn spec_branch_conds(branches: Seq<Seq<char>>) -> Seq<CondData> {
    branches.map_values(|b: Seq<char>| spec_kv_keyword("branches"@, b))
}

/// The groups a query builds: one OR-group per non-empty constraint set, in
/// the order repositories, paths, languages, branches; the groups are meant
/// to be combined with AND.
pub open spec fn spec_build_conditions(q: crate::semantic_query::QueryData) -> Seq<
    Seq<CondData>,
> {
    let repo = spec_repo_conds(spec_plains(q.repos));
    let path = spec_path_conds(spec_plains(q.paths));
    let lang = spec_lang_conds(q.langs);
    let branch = spec_branch_conds(spec_plains(q.branch));
    (if repo.len() > 0 {
        seq![repo]
    } else {
        Seq::empty()
    }) + (if path.len() > 0 {
        seq![path]
    } else {
        Seq::empty()
    }) + (if lang.len() > 0 {
        seq![lang]
    } else {
        Seq::empty()
    }) + (if branch.len() > 0 {
        seq![branch]
    } else {
        Seq::empty()
    })
}

/// The views of the built groups.
pub open spec fn groups_view(gs: Seq<FilterGroup>) -> Seq<Seq<CondData>> {
    gs.map_values(|g: FilterGroup| g@)
}

/// One predicate per value: a well-formed query's path, language and branch
/// groups hold pairwise-distinct predicates — the constraint lists' set
/// semantics carries into the filter.  The repository group is left out:
/// two distinct spellings of one repository can normalize to the same
/// stored name, and then rightly share one predicate.
pub proof fn lemma_groups_distinct(q: crate::semantic_query::QueryData)
    requires
        query_wf(q),
    ensures
        spec_path_conds(spec_plains(q.paths)).no_duplicates(),
        spec_lang_conds(q.langs).no_duplicates(),
        spec_branch_conds(spec_plains(q.branch)).no_duplicates(),
{
    let paths = spec_plains(q.paths);
    let pc = spec_path_conds(paths);
    assert forall|i: int, j: int| 0 <= i < j < pc.len() implies pc[i] != pc[j] by {
        assert(pc[i].value == paths[i] && pc[j].value == paths[j]);
    }
    let lc = spec_lang_conds(q.langs);
    assert forall|i: int, j: int| 0 <= i < j < lc.len() implies lc[i] != lc[j] by {
        assert(lc[i].value == q.langs[i] && lc[j].value == q.langs[j]);
    }
    let branches = spec_plains(q.branch);
    let bc = spec_branch_conds(branches);
    assert forall|i: int, j: int| 0 <= i < j < bc.len() implies bc[i] != bc[j] by {
        assert(bc[i].value == branches[i] && bc[j].value == branches[j]);
    }
}

fn keyword_group(key: &str, values: &Vec<String>) -> (r: FilterGroup)
    ensures
        r@ == values@.map_values(
            |v: String| spec_kv_keyword(key@, v@),
        ),
{
    let mut should: Vec<FieldCondition> = Vec::new();
    let mut i: usize = 0;
    while i < values.len()
        invariant
            i <= values@.len(),
            should@.len() == i,
            forall|j: int| 0 <= j < i ==> #[trigger] should@[j]@ == spec_kv_keyword(
                key@,
                values@[j]@,
            ),
        decreases values@.len() - i,
    {
        should.push(make_kv_keyword_filter(key, values[i].as_str()));
        i = i + 1;
    }
    let r = FilterGroup { should };
    assert(r@ =~= values@.map_values(|v: String| spec_kv_keyword(key@, v@)));
    r
}

fn text_group(key: &str, values: &Vec<String>) -> (r: FilterGroup)
    ensures
        r@ == values@.map_values(|v: String| spec_kv_text(key@, v@)),
{
    let mut should: Vec<FieldCondition> = Vec::new();
    let mut i: usize = 0;
    while i < values.len()
        invariant
            i <= values@.len(),
            should@.len() == i,
            forall|j: int| 0 <= j < i ==> #[trigger] should@[j]@ == spec_kv_text(
                key@,
                values@[j]@,
            ),
        decreases values@.len() - i,
    {
        should.push(make_kv_text_filter(key, values[i].as_str()));
        i = i + 1;
    }
    let r = FilterGroup { should };
    assert(r@ =~= values@.map_values(|v: String| spec_kv_text(key@, v@)));
    r
}

/// Builds the filter groups of a query: per non-empty constraint set one
/// OR-group of per-value predicates against the matching indexed field
/// (repository names normalized, paths matched as substrings, everything
/// else as exact keywords), to be combined with AND.
pub fn build_conditions(query: &SemanticQuery) -> (r: Vec<FilterGroup>)
    ensures
        groups_view(r@) == spec_build_conditions(query@),
{
    let mut groups: Vec<FilterGroup> = Vec::new();

    let repos = query.repos();
    let mut normalized: Vec<String> = Vec::new();
    let mut i: usize = 0;
    while i < repos.len()
        invariant
            i <= repos@.len(),
            normalized@.len() == i,
            forall|j: int| 0 <= j < i ==> #[trigger] normalized@[j]@ == spec_normalize_repo(
                repos@[j]@,
            ),
        decreases repos@.len() - i,
    {
        normalized.push(normalize_repo(repos[i].as_str()));
        i = i + 1;
    }
    if normalized.len() > 0 {
        let g = keyword_group("repo_name", &normalized);
        proof {
            assert(g@ =~= spec_repo_conds(spec_plains(query@.repos)));
        }
        groups.push(g);
    } else {
        assert(spec_repo_conds(spec_plains(query@.repos)) =~= Seq::<CondData>::empty());
    }

    let paths = query.paths();
    if paths.len() > 0 {
        let g = text_group("relative_path", &paths);
        proof {
            assert(g@ =~= spec_path_conds(spec_plains(query@.paths)));
        }
        groups.push(g);
    } else {
        assert(spec_path_conds(spec_plains(query@.paths)) =~= Seq::<CondData>::empty());
    }

    let langs = query.langs();
    if langs.len() > 0 {
        let g = keyword_group("lang", &langs);
        proof {
            assert(g@ =~= spec_lang_conds(query@.langs));
        }
        groups.push(g);
    } else {
        assert(spec_lang_conds(query@.langs) =~= Seq::<CondData>::empty());
    }

    let branches = query.branch();
    if branches.len() > 0 {
        let g = keyword_group("branches", &branches);
        proof {
            assert(g@ =~= spec_branch_conds(spec_plains(query@.branch)));
        }
        groups.push(g);
    } else {
        assert(spec_branch_conds(spec_plains(query@.branch)) =~= Seq::<CondData>::empty());
    }

    assert(groups_view(groups@) =~= spec_build_conditions(query@));
    groups
}

} // verus!
