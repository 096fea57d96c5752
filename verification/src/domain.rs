//! The domain-term dictionary and transpiler.
//!
//! A dictionary row pairs a native term with its English name, an optional
//! abbreviation and an optional description; transpiling a sentence annotates
//! every occurrence of a known term with its English name.  Reading the
//! dictionary files from disk stays outside; the parsers here take the file
//! contents as text.

use vstd::prelude::*;
use crate::json::{obj_get_str, JsonData, JsonValue};
use crate::strutil::{chars_of, replace_all, spec_replace, string_from};

verus! {

/// One dictionary row.
#[derive(Debug, Clone)]
pub struct DomainRecord {
    pub native: String,
    pub english: String,
    pub abbreviation: String,
    pub description: String,
}

/// The content of a row.
pub ghost struct RecordData {
    pub native: Seq<char>,
    pub english: Seq<char>,
    pub abbreviation: Seq<char>,
    pub description: Seq<char>,
}

impl View for DomainRecord {
    type V = RecordData;

    open spec fn view(&self) -> RecordData {
        RecordData {
            native: self.native@,
            english: self.english@,
            abbreviation: self.abbreviation@,
            description: self.description@,
        }
    }
}

/// The views of a record list.
pub open spec fn records_view(rs: Seq<DomainRecord>) -> Seq<RecordData> {
    rs.map_values(|r: DomainRecord| r@)
}

/// `s` split at every occurrence of `c`; always at least one part.
pub open spec fn spec_split(s: Seq<char>, c: char) -> Seq<Seq<char>>
    decreases s.len(),
{
    if s.len() == 0 {
        seq![s]
    } else if s[0] == c {
        seq![Seq::empty()] + spec_split(s.skip(1), c)
    } else {
        let r = spec_split(s.skip(1), c);
        seq![seq![s[0]] + r[0]] + r.skip(1)
    }
}

proof fn lemma_split_nonempty(s: Seq<char>, c: char)
    ensures
        spec_split(s, c).len() >= 1,
    decreases s.len(),
{
    if s.len() > 0 {
        lemma_split_nonempty(s.skip(1), c);
    }
}

proof fn lemma_split_snoc_char(s: Seq<char>, c: char, x: char)
    requires
        x != c,
    ensures
        spec_split(s.push(x), c).len() == spec_split(s, c).len(),
        spec_split(s.push(x), c).last() == spec_split(s, c).last().push(x),
        forall|i: int|
            0 <= i < spec_split(s, c).len() - 1 ==> spec_split(s.push(x), c)[i] == spec_split(
                s,
                c,
            )[i],
    decreases s.len(),
{
    lemma_split_nonempty(s, c);
    if s.len() == 0 {
        assert(s.push(x)[0] == x);
        assert(s.push(x).skip(1) =~= Seq::<char>::empty());
        assert(spec_split(s.push(x), c) =~= seq![seq![x] + spec_split(Seq::empty(), c)[0]]);
        assert(seq![x] + Seq::<char>::empty() =~= s.push(x));
        assert(spec_split(s, c).last().push(x) =~= s.push(x));
    } else {
        lemma_split_snoc_char(s.skip(1), c, x);
        assert(s.push(x)[0] == s[0]);
        assert(s.push(x).skip(1) =~= s.skip(1).push(x));
        let r = spec_split(s.skip(1), c);
        let rp = spec_split(s.skip(1).push(x), c);
        if s[0] == c {
            assert(spec_split(s.push(x), c) =~= seq![Seq::<char>::empty()] + rp);
            assert(spec_split(s, c) =~= seq![Seq::<char>::empty()] + r);
            if r.len() == 1 {
                assert(spec_split(s.push(x), c).last() == rp.last());
            }
        } else {
            assert(spec_split(s.push(x), c) =~= seq![seq![s[0]] + rp[0]] + rp.skip(1));
            assert(spec_split(s, c) =~= seq![seq![s[0]] + r[0]] + r.skip(1));
            if r.len() == 1 {
                assert(rp[0] == r[0].push(x));
                assert(seq![s[0]] + r[0].push(x) =~= (seq![s[0]] + r[0]).push(x));
                assert(spec_split(s.push(x), c).last() == (seq![s[0]] + r[0]).push(x));
            } else {
                assert(rp[0] == r[0]);
                assert forall|i: int|
                    0 <= i < spec_split(s, c).len() - 1 implies spec_split(s.push(x), c)[i]
                    == spec_split(s, c)[i] by {
                    if i > 0 {
                        assert(spec_split(s.push(x), c)[i] == rp[i - 1 + 1]);
                    }
                }
            }
        }
    }
}

proof fn lemma_split_snoc_delim(s: Seq<char>, c: char)
    ensures
        spec_split(s.push(c), c).len() == spec_split(s, c).len() + 1,
        spec_split(s.push(c), c).last() == Seq::<char>::empty(),
        forall|i: int|
            0 <= i < spec_split(s, c).len() ==> spec_split(s.push(c), c)[i] == spec_split(s, c)[i],
    decreases s.len(),
{
    lemma_split_nonempty(s, c);
    if s.len() == 0 {
        assert(s.push(c)[0] == c);
        assert(s.push(c).skip(1) =~= Seq::<char>::empty());
        assert(s =~= Seq::<char>::empty());
        assert(spec_split(s, c) =~~= seq![Seq::<char>::empty()]);
        assert(spec_split(s.push(c), c) =~~= seq![Seq::<char>::empty(), Seq::<char>::empty()]);
    } else {
        lemma_split_snoc_delim(s.skip(1), c);
        assert(s.push(c)[0] == s[0]);
        assert(s.push(c).skip(1) =~= s.skip(1).push(c));
        let r = spec_split(s.skip(1), c);
        let rp = spec_split(s.skip(1).push(c), c);
        if s[0] == c {
            assert(spec_split(s.push(c), c) =~= seq![Seq::<char>::empty()] + rp);
            assert(spec_split(s, c) =~= seq![Seq::<char>::empty()] + r);
        } else {
            assert(rp[0] == r[0]);
            assert(spec_split(s.push(c), c) =~= seq![seq![s[0]] + rp[0]] + rp.skip(1));
            assert(spec_split(s, c) =~= seq![seq![s[0]] + r[0]] + r.skip(1));
            assert forall|i: int|
                0 <= i < spec_split(s, c).len() implies spec_split(s.push(c), c)[i] == spec_split(
                    s,
                    c,
                )[i] by {
                if i > 0 {
                    assert(spec_split(s.push(c), c)[i] == rp[i - 1 + 1]);
                }
            }
        }
    }
}

/// Splits `s` at `c`.
pub fn split_char(s: &str, c: char) -> (r: Vec<String>)
    ensures
        r@.map_values(|p: String| p@) == spec_split(s@, c),
{
    let cs = chars_of(s);
    let mut parts: Vec<String> = Vec::new();
    let mut cur: Vec<char> = Vec::new();
    let mut i: usize = 0;
    while i < cs.len()
        invariant
            cs@ == s@,
            i <= s@.len(),
            ({
                let sp = spec_split(s@.subrange(0, i as int), c);
                &&& sp.len() == parts@.len() + 1
                &&& forall|j: int|
                    0 <= j < parts@.len() ==> (#[trigger] parts@[j])@ == sp[j]
                &&& cur@ == sp.last()
            }),
        decreases cs@.len() - i,
    {
        proof {
            let p = s@.subrange(0, i as int);
            let p1 = s@.subrange(0, i + 1 as int);
            assert(p1 =~= p.push(s@[i as int]));
            if s@[i as int] == c {
                lemma_split_snoc_delim(p, c);
            } else {
                lemma_split_snoc_char(p, c, s@[i as int]);
            }
            lemma_split_nonempty(p, c);
        }
        if cs[i] == c {
            parts.push(string_from(&cur));
            cur = Vec::new();
        } else {
            cur.push(cs[i]);
        }
        i = i + 1;
    }
    parts.push(string_from(&cur));
    proof {
        assert(s@.subrange(0, s@.len() as int) =~= s@);
        let sp = spec_split(s@, c);
        assert forall|j: int| 0 <= j < sp.len() implies (#[trigger] parts@[j])@ == sp[j] by {
            if j == sp.len() - 1 {
                assert(parts@[j] == parts@.last());
            }
        }
        assert(parts@.map_values(|p: String| p@) =~= sp);
    }
    parts
}

/// A carriage return left by a Windows line ending removed from the end.
pub open spec fn spec_strip_cr(line: Seq<char>) -> Seq<char> {
    if line.len() > 0 && line.last() == '\r' {
        line.drop_last()
    } else {
        line
    }
}

/// The record a dictionary line holds: exactly four comma-separated fields
/// (quoting is not interpreted); anything else yields no record.
pub open spec fn spec_csv_line_record(line: Seq<char>) -> Option<RecordData> {
    let fields = spec_split(spec_strip_cr(line), ',');
    if fields.len() == 4 {
        Some(
            RecordData {
                native: fields[0],
                english: fields[1],
                abbreviation: fields[2],
                description: fields[3],
            },
        )
    } else {
        None
    }
}

/// The records of the lines after the header: empty lines and lines of the
/// wrong shape yield nothing.
pub open spec fn spec_csv_records(lines: Seq<Seq<char>>) -> Seq<RecordData>
    decreases lines.len(),
{
    if lines.len() == 0 {
        Seq::empty()
    } else {
        let rest = spec_csv_records(lines.skip(1));
        let line = spec_strip_cr(lines[0]);
        if line.len() == 0 {
            rest
        } else {
            match spec_csv_line_record(lines[0]) {
                Some(r) => seq![r] + rest,
                None => rest,
            }
        }
    }
}

/// The records a whole dictionary file holds: its first line is the header.
pub open spec fn spec_csv_file_records(text: Seq<char>) -> Seq<RecordData> {
    spec_csv_records(spec_split(text, '\n').skip(1))
}

/// One term applied to a sentence: the native term, then (when present) the
/// abbreviation and the description, each annotated with the English name.
pub open spec fn spec_apply_record(r: RecordData, text: Seq<char>) -> Seq<char> {
    let t1 = if r.native.len() > 0 {
        spec_replace(text, r.native, r.native + "("@ + r.english + ")"@)
    } else {
        text
    };
    let t2 = if r.abbreviation.len() > 0 {
        spec_replace(t1, r.abbreviation, r.abbreviation + "("@ + r.english + ")"@)
    } else {
        t1
    };
    if r.description.len() > 0 {
        spec_replace(t2, r.description, r.description + "("@ + r.english + ")"@)
    } else {
        t2
    }
}

/// Every term applied in order.
pub open spec fn spec_transpile(rs: Seq<RecordData>, text: Seq<char>) -> Seq<char>
    decreases rs.len(),
{
    if rs.len() == 0 {
        text
    } else {
        spec_transpile(rs.skip(1), spec_apply_record(rs[0], text))
    }
}

/// The domain-term transpiler: a loaded dictionary and the substitution it
/// defines.
#[derive(Debug, Clone)]
pub struct DomainTranspiler {
    pub domain_records: Vec<DomainRecord>,
}

impl DomainTranspiler {
    /// A transpiler with an empty dictionary.
    pub fn empty() -> (r: DomainTranspiler)
        ensures
            r.domain_records@.len() == 0,
    {
        DomainTranspiler { domain_records: Vec::new() }
    }

    /// A transpiler with an empty dictionary; rows are loaded from file
    /// contents afterwards.
    pub fn new() -> (r: DomainTranspiler)
        ensures
            r.domain_records@.len() == 0,
    {
        DomainTranspiler { domain_records: Vec::new() }
    }

    /// Loads the rows of one dictionary file in CSV form (header line first)
    /// and appends them to the dictionary.
    pub fn load_csv_text(&mut self, text: &str)
        ensures
            records_view(final(self).domain_records@) == records_view(old(self).domain_records@)
                + spec_csv_file_records(text@),
    {
        let lines = split_char(text, '\n');
        let ghost lv = lines@.map_values(|p: String| p@);
        let mut i: usize = 1;
        proof {
            assert(lv.skip(1) =~= spec_split(text@, '\n').skip(1));
            assert(records_view(self.domain_records@) + spec_csv_records(lv.skip(1))
                == records_view(self.domain_records@) + spec_csv_records(lv.skip(1)));
        }
        let ghost r0 = records_view(self.domain_records@);
        while i < lines.len()
            invariant
                lv == lines@.map_values(|p: String| p@),
                1 <= i <= lv.len() || (lv.len() < 1 && i == 1),
                r0 + spec_csv_records(lv.skip(1)) == records_view(self.domain_records@)
                    + spec_csv_records(if i <= lv.len() {
                    lv.skip(i as int)
                } else {
                    Seq::empty()
                }),
            decreases lines@.len() - i,
        {
            proof {
                assert(lv.skip(i as int)[0] == lv[i as int]);
                assert(lv.skip(i as int).skip(1) =~= lv.skip(i + 1));
                assert(lines@[i as int]@ == lv[i as int]);
            }
            let stripped = strip_cr(lines[i].as_str());
            if stripped.as_str().unicode_len() > 0 {
                let fields = split_char(stripped.as_str(), ',');
                if fields.len() == 4 {
                    let rec = DomainRecord {
                        native: fields[0].clone(),
                        english: fields[1].clone(),
                        abbreviation: fields[2].clone(),
                        description: fields[3].clone(),
                    };
                    proof {
                        let fv = fields@.map_values(|p: String| p@);
                        assert(fv[0] == fields@[0]@ && fv[1] == fields@[1]@ && fv[2]
                            == fields@[2]@ && fv[3] == fields@[3]@);
                        assert(spec_csv_line_record(lv[i as int]) == Some(rec@));
                    }
                    let ghost prev = records_view(self.domain_records@);
                    self.domain_records.push(rec);
                    proof {
                        assert(records_view(self.domain_records@) =~= prev.push(rec@));
                    }
                }
            }
            proof {
                let rv = records_view(self.domain_records@);
                if spec_strip_cr(lv[i as int]).len() == 0 {
                } else {
                    match spec_csv_line_record(lv[i as int]) {
                        Some(rr) => {
                            assert(seq![rr] + spec_csv_records(lv.skip(i + 1)) =~= spec_csv_records(
                                lv.skip(i as int),
                            ));
                        },
                        None => {},
                    }
                }
            }
            i = i + 1;
        }
        proof {
            if lv.len() >= 1 {
                assert(lv.skip(lv.len() as int) =~= Seq::<Seq<char>>::empty());
            }
            assert(spec_csv_records(Seq::empty()) =~= Seq::<RecordData>::empty());
            assert(records_view(self.domain_records@) =~= r0 + spec_csv_file_records(text@));
        }
    }

    /// Loads the rows of one dictionary file in JSON form: an array of
    /// objects with the four field names; appends every well-formed row.
    pub fn load_json_text(&mut self, text: &str)
        ensures
            records_view(final(self).domain_records@) == records_view(old(self).domain_records@)
                + spec_json_records(crate::json::json_data_of(text@)),
    {
        let parsed = match crate::json::parse_json(text) {
            Some(v) => v,
            None => {
                proof {
                    assert(spec_json_records(crate::json::json_data_of(text@))
                        =~= Seq::<RecordData>::empty());
                    assert(records_view(self.domain_records@) =~= records_view(
                        self.domain_records@,
                    ) + Seq::<RecordData>::empty());
                }
                return ;
            },
        };
        let items = match &parsed {
            JsonValue::Arr(items) => items,
            _ => {
                proof {
                    assert(spec_json_records(crate::json::json_data_of(text@))
                        =~= Seq::<RecordData>::empty());
                    assert(records_view(self.domain_records@) =~= records_view(
                        self.domain_records@,
                    ) + Seq::<RecordData>::empty());
                }
                return ;
            },
        };
        let ghost m = crate::json::json_view(parsed)->Arr_0;
        proof {
            assert(m.len() == items@.len());
            assert(forall|j: int|
                0 <= j < m.len() ==> m[j] == crate::json::json_view(items@[j]));
            assert(m.skip(0) =~= m);
        }
        let ghost r0 = records_view(self.domain_records@);
        let mut i: usize = 0;
        while i < items.len()
            invariant
                m.len() == items@.len(),
                forall|j: int| 0 <= j < m.len() ==> m[j] == crate::json::json_view(items@[j]),
                i <= items@.len(),
                r0 + spec_json_item_records(m) == records_view(self.domain_records@)
                    + spec_json_item_records(m.skip(i as int)),
            decreases items@.len() - i,
        {
            proof {
                assert(m.skip(i as int)[0] == m[i as int]);
                assert(m.skip(i as int).skip(1) =~= m.skip(i + 1));
            }
            match &items[i] {
                JsonValue::Obj(fields) => {
                    proof {
                        crate::json::lemma_view_obj(items@[i as int]);
                    }
                    let native = obj_get_str(fields, "native");
                    let english = obj_get_str(fields, "english");
                    let abbreviation = obj_get_str(fields, "abbreviation");
                    let description = obj_get_str(fields, "description");
                    match (native, english, abbreviation, description) {
                        (Some(native), Some(english), Some(abbreviation), Some(description)) => {
                            let rec = DomainRecord { native, english, abbreviation, description };
                            let ghost prev = records_view(self.domain_records@);
                            self.domain_records.push(rec);
                            proof {
                                assert(records_view(self.domain_records@) =~= prev.push(rec@));
                                assert(seq![rec@] + spec_json_item_records(m.skip(i + 1))
                                    =~= spec_json_item_records(m.skip(i as int)));
                            }
                        },
                        _ => {},
                    }
                },
                _ => {},
            }
            i = i + 1;
        }
        proof {
            assert(m.skip(m.len() as int) =~= Seq::<JsonData>::empty());
            assert(spec_json_item_records(Seq::empty()) =~= Seq::<RecordData>::empty());
            assert(records_view(self.domain_records@) =~= r0 + spec_json_records(
                crate::json::json_data_of(text@),
            ));
        }
    }

    /// Replaces every known domain term in `source` with its annotated form,
    /// record by record: `native` becomes `native(english)`, and a non-empty
    /// abbreviation or description likewise.
    pub fn transpile(&self, source: &str) -> (r: String)
        ensures
            r@ == spec_transpile(records_view(self.domain_records@), source@),
    {
        let ghost rv = records_view(self.domain_records@);
        let mut result: String = source.to_owned();
        let mut i: usize = 0;
        proof {
            assert(rv.skip(0) =~= rv);
        }
        while i < self.domain_records.len()
            invariant
                rv == records_view(self.domain_records@),
                i <= rv.len(),
                spec_transpile(rv, source@) == spec_transpile(rv.skip(i as int), result@),
            decreases rv.len() - i,
        {
            proof {
                assert(rv.skip(i as int)[0] == rv[i as int]);
                assert(rv.skip(i as int).skip(1) =~= rv.skip(i + 1));
            }
            let rec = &self.domain_records[i];
            if rec.native.as_str().unicode_len() > 0 {
                let marked = annotate(rec.native.as_str(), rec.english.as_str());
                result = replace_all(result.as_str(), rec.native.as_str(), marked.as_str());
            }
            if rec.abbreviation.as_str().unicode_len() > 0 {
                let marked = annotate(rec.abbreviation.as_str(), rec.english.as_str());
                result = replace_all(result.as_str(), rec.abbreviation.as_str(), marked.as_str());
            }
            if rec.description.as_str().unicode_len() > 0 {
                let marked = annotate(rec.description.as_str(), rec.english.as_str());
                result = replace_all(result.as_str(), rec.description.as_str(), marked.as_str());
            }
            i = i + 1;
        }
        proof {
            assert(rv.skip(rv.len() as int) =~= Seq::<RecordData>::empty());
        }
        result
    }
}

/// The line without a trailing carriage return.
fn strip_cr(line: &str) -> (r: String)
    ensures
        r@ == spec_strip_cr(line@),
{
    let mut cs = chars_of(line);
    if cs.len() > 0 && cs[cs.len() - 1] == '\r' {
        let _ = cs.pop();
        assert(cs@ =~= line@.drop_last());
    }
    string_from(&cs)
}

/// `term(english)`.
fn annotate(term: &str, english: &str) -> (r: String)
    ensures
        r@ == term@ + "("@ + english@ + ")"@,
{
    let mut s: String = term.to_owned();
    vstd::string::StringExecFns::append(&mut s, "(");
    vstd::string::StringExecFns::append(&mut s, english);
    vstd::string::StringExecFns::append(&mut s, ")");
    s
}

/// The records a parsed JSON document holds: nothing unless it is an array.
pub open spec fn spec_json_records(d: Option<JsonData>) -> Seq<RecordData> {
    match d {
        Some(JsonData::Arr(items)) => spec_json_item_records(items),
        _ => Seq::empty(),
    }
}

/// The well-formed rows among the array items, in order.
pub open spec fn spec_json_item_records(items: Seq<JsonData>) -> Seq<RecordData>
    decreases items.len(),
{
    if items.len() == 0 {
        Seq::empty()
    } else {
        let rest = spec_json_item_records(items.skip(1));
        match spec_json_item_record(items[0]) {
            Some(r) => seq![r] + rest,
            None => rest,
        }
    }
}

/// The row one array item holds, when all four fields are strings.
pub open spec fn spec_json_item_record(item: JsonData) -> Option<RecordData> {
    match item {
        JsonData::Obj(fields) => {
            let native = crate::json::spec_as_str(crate::json::spec_obj_get(fields, "native"@));
            let english = crate::json::spec_as_str(crate::json::spec_obj_get(fields, "english"@));
            let abbreviation = crate::json::spec_as_str(
                crate::json::spec_obj_get(fields, "abbreviation"@),
            );
            let description = crate::json::spec_as_str(
                crate::json::spec_obj_get(fields, "description"@),
            );
            if native is Some && english is Some && abbreviation is Some && description is Some {
                Some(
                    RecordData {
                        native: native->Some_0,
                        english: english->Some_0,
                        abbreviation: abbreviation->Some_0,
                        description: description->Some_0,
                    },
                )
            } else {
                None
            }
        },
        _ => None,
    }
}

} // verus!
