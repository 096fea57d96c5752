//! Structured queries.
//!
//! A query holds sets of constraints over repositories, paths, languages and
//! branches, and at most one target: the text to embed and search with.
//! Absence of a constraint means no restriction on that field.

use vstd::prelude::*;
use crate::literal::{spec_inner_text, Literal};
use crate::payload::{strs_view, PayloadType};

verus! {

/// A structured query.  The constraint lists carry set semantics — see
/// [`query_wf`]; order carries no meaning.
#[derive(Debug, Clone)]
pub struct SemanticQuery {
    pub repos: Vec<Literal>,
    pub paths: Vec<Literal>,
    pub langs: Vec<String>,
    pub branch: Vec<Literal>,
    pub target: Option<Literal>,
    pub query_types: Vec<Literal>,
}

/// The mathematical content of a query.
pub ghost struct QueryData {
    pub repos: Seq<Literal>,
    pub paths: Seq<Literal>,
    pub langs: Seq<Seq<char>>,
    pub branch: Seq<Literal>,
    pub target: Option<Literal>,
    pub query_types: Seq<Literal>,
}

impl View for SemanticQuery {
    type V = QueryData;

    open spec fn view(&self) -> QueryData {
        QueryData {
            repos: self.repos@,
            paths: self.paths@,
            langs: strs_view(self.langs@),
            branch: self.branch@,
            target: self.target,
            query_types: self.query_types@,
        }
    }
}

/// A query whose constraint lists carry set semantics: each plain constraint
/// text appears once per list, so whatever is built per value — one filter
/// predicate per constraint — meets each value once.
pub open spec fn query_wf(q: QueryData) -> bool {
    &&& spec_plains(q.repos).no_duplicates()
    &&& spec_plains(q.paths).no_duplicates()
    &&& q.langs.no_duplicates()
    &&& spec_plains(q.branch).no_duplicates()
    &&& spec_plains(q.query_types).no_duplicates()
}

/// The texts of the plain literals of `ts`, in order; regex literals
/// contribute nothing.
pub open spec fn spec_plains(ts: Seq<Literal>) -> Seq<Seq<char>>
    decreases ts.len(),
{
    if ts.len() == 0 {
        Seq::empty()
    } else {
        match ts[0] {
            Literal::Plain(s) => seq![s@] + spec_plains(ts.skip(1)),
            Literal::Regex(_) => spec_plains(ts.skip(1)),
        }
    }
}

/// The plain texts of a literal list.
pub fn plain_texts(ts: &Vec<Literal>) -> (r: Vec<String>)
    ensures
        strs_view(r@) == spec_plains(ts@),
{
    let mut out: Vec<String> = Vec::new();
    let mut i: usize = 0;
    assert(ts@.skip(0) =~= ts@);
    assert(strs_view(out@) + spec_plains(ts@) =~= spec_plains(ts@));
    while i < ts.len()
        invariant
            i <= ts@.len(),
            spec_plains(ts@) == strs_view(out@) + spec_plains(ts@.skip(i as int)),
        decreases ts@.len() - i,
    {
        assert(ts@.skip(i as int)[0] == ts@[i as int]);
        match &ts[i] {
            Literal::Plain(s) => {
                out.push(s.clone());
                assert(strs_view(out@) =~= strs_view(out@.drop_last()) + seq![s@]);
            },
            Literal::Regex(_) => {},
        }
        assert(ts@.skip(i as int).skip(1) =~= ts@.skip(i + 1));
        i = i + 1;
    }
    assert(spec_plains(ts@.skip(i as int)) =~= Seq::<Seq<char>>::empty());
    assert(strs_view(out@) =~= spec_plains(ts@));
    out
}

impl Default for SemanticQuery {
    /// The unconstrained query: no restriction and no target.
    fn default() -> (r: SemanticQuery)
        ensures
            r@.repos.len() == 0,
            r@.paths.len() == 0,
            r@.langs.len() == 0,
            r@.branch.len() == 0,
            r@.target is None,
            r@.query_types.len() == 0,
            query_wf(r@),
    {
        SemanticQuery {
            repos: Vec::new(),
            paths: Vec::new(),
            langs: Vec::new(),
            branch: Vec::new(),
            target: None,
            query_types: Vec::new(),
        }
    }
}

impl SemanticQuery {
    /// The plain repository constraints.
    pub fn repos(&self) -> (r: Vec<String>)
        ensures
            strs_view(r@) == spec_plains(self@.repos),
    {
        plain_texts(&self.repos)
    }

    /// The plain path constraints.
    pub fn paths(&self) -> (r: Vec<String>)
        ensures
            strs_view(r@) == spec_plains(self@.paths),
    {
        plain_texts(&self.paths)
    }

    /// The plain payload-kind constraints.
    pub fn query_types(&self) -> (r: Vec<String>)
        ensures
            strs_view(r@) == spec_plains(self@.query_types),
    {
        plain_texts(&self.query_types)
    }

    /// The language constraints.
    pub fn langs(&self) -> (r: Vec<String>)
        ensures
            strs_view(r@) == self@.langs,
    {
        let mut out: Vec<String> = Vec::new();
        let mut i: usize = 0;
        while i < self.langs.len()
            invariant
                i <= self.langs@.len(),
                out@.len() == i,
                forall|j: int| 0 <= j < i ==> #[trigger] out@[j]@ == self.langs@[j]@,
            decreases self.langs@.len() - i,
        {
            out.push(self.langs[i].clone());
            i = i + 1;
        }
        assert(strs_view(out@) =~= strs_view(self.langs@));
        out
    }

    /// The plain branch constraints.
    pub fn branch(&self) -> (r: Vec<String>)
        ensures
            strs_view(r@) == spec_plains(self@.branch),
    {
        plain_texts(&self.branch)
    }

    /// The text to search with, when the target is plain.
    pub fn target(&self) -> (r: Option<String>)
        ensures
            r matches Some(s) ==> (self@.target matches Some(t) && t matches Literal::Plain(p)
                && s@ == p@),
            r is None <==> spec_target(self@) is None,
            r matches Some(s) ==> spec_target(self@) == Some(s@),
    {
        match &self.target {
            Some(Literal::Plain(p)) => Some(p.clone()),
            _ => None,
        }
    }

    /// The first branch constraint, whatever its tag.  Only the first is
    /// used: the callers operate on a single current branch.
    pub fn first_branch(&self) -> (r: Option<String>)
        ensures
            self@.branch.len() == 0 ==> r is None,
            self@.branch.len() > 0 ==> (r matches Some(s) && s@ == spec_inner_text(
                self@.branch[0],
            )),
    {
        if self.branch.len() == 0 {
            None
        } else {
            match &self.branch[0] {
                Literal::Plain(s) => Some(s.clone()),
                Literal::Regex(s) => Some(s.clone()),
            }
        }
    }

    /// A query that searches for `query` among records of kind `query_type`,
    /// with no other constraint.
    pub fn from_str(query: String, query_type: PayloadType) -> (r: SemanticQuery)
        ensures
            r@.target matches Some(t) && t matches Literal::Plain(p) && p@ == query@,
            r@.query_types.len() == 1 && r@.query_types[0] is Plain && spec_inner_text(
                r@.query_types[0],
            ) == crate::payload::spec_payload_name(query_type),
            r@.repos.len() == 0,
            r@.paths.len() == 0,
            r@.langs.len() == 0,
            r@.branch.len() == 0,
            query_wf(r@),
    {
        let mut query_types: Vec<Literal> = Vec::new();
        query_types.push(Literal::Plain(query_type.name()));
        let r = SemanticQuery {
            repos: Vec::new(),
            paths: Vec::new(),
            langs: Vec::new(),
            branch: Vec::new(),
            target: Some(Literal::Plain(query)),
            query_types,
        };
        proof {
            let ts = r@.query_types;
            assert(ts.skip(1) =~= Seq::<Literal>::empty());
            assert(spec_plains(ts.skip(1)) =~= Seq::<Seq<char>>::empty());
            match ts[0] {
                Literal::Plain(s) => {
                    assert(spec_plains(ts) =~= seq![s@]);
                },
                Literal::Regex(_) => {
                    assert(false);
                },
            }
            assert(spec_plains(ts).no_duplicates());
        }
        r
    }

    /// An owned copy; every constraint is kept.
    pub fn into_owned(self) -> (r: SemanticQuery)
        ensures
            r == self,
    {
        self
    }
}

/// The search target: the text of a plain target literal.
pub open spec fn spec_target(q: QueryData) -> Option<Seq<char>> {
    match q.target {
        Some(Literal::Plain(p)) => Some(p@),
        _ => None,
    }
}

} // verus!
