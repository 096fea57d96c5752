//! Verified character and string utilities.
//!
//! All logic in this crate that inspects text works over `Seq<char>` views;
//! the helpers here bridge between `String` / `&str` values and those views.

use vstd::prelude::*;
use vstd::string::StrSliceExecFns;

verus! {

/// Appends one character.
///
/// Relies on `String::push`: appends the given `char` to the end of the string.
#[verifier::external_body]
pub fn push_char(s: &mut String, c: char)
    ensures
        final(s)@ == old(s)@ + seq![c],
{
    s.push(c)
}

/// The characters of `s`, as a vector.
pub fn chars_of(s: &str) -> (r: Vec<char>)
    ensures
        r@ == s@,
{
    let n = s.unicode_len();
    let mut r: Vec<char> = Vec::new();
    let mut i: usize = 0;
    while i < n
        invariant
            n == s@.len(),
            i <= n,
            r@ == s@.subrange(0, i as int),
        decreases n - i,
    {
        r.push(s.get_char(i));
        i = i + 1;
    }
    assert(r@ =~= s@);
    r
}

/// A `String` with exactly the characters of `cs`.
pub fn string_from(cs: &Vec<char>) -> (r: String)
    ensures
        r@ == cs@,
{
    let mut r = String::new();
    let mut i: usize = 0;
    while i < cs.len()
        invariant
            i <= cs@.len(),
            r@ == cs@.subrange(0, i as int),
        decreases cs@.len() - i,
    {
        push_char(&mut r, cs[i]);
        assert(r@ =~= cs@.subrange(0, i + 1 as int));
        i = i + 1;
    }
    assert(r@ =~= cs@);
    r
}

/// Character-for-character equality of two string slices.
pub fn str_eq(a: &str, b: &str) -> (r: bool)
    ensures
        r == (a@ == b@),
{
    let na = a.unicode_len();
    let nb = b.unicode_len();
    if na != nb {
        assert(a@ != b@);
        return false;
    }
    let mut i: usize = 0;
    while i < na
        invariant
            na == a@.len(),
            na == b@.len(),
            i <= na,
            forall|j: int| 0 <= j < i ==> a@[j] == b@[j],
        decreases na - i,
    {
        if a.get_char(i) != b.get_char(i) {
            return false;
        }
        i = i + 1;
    }
    assert(a@ =~= b@);
    true
}

/// Equality between a `String` and a literal slice.
pub fn string_eq_str(a: &String, b: &str) -> (r: bool)
    ensures
        r == (a@ == b@),
{
    str_eq(a.as_str(), b)
}

/// `p` occurs in `s` starting at position `at`.
pub open spec fn match_at(s: Seq<char>, p: Seq<char>, at: int) -> bool {
    &&& 0 <= at
    &&& at + p.len() <= s.len()
    &&& s.subrange(at, at + p.len() as int) == p
}

/// `s` starts with `p`.
pub open spec fn spec_starts_with(s: Seq<char>, p: Seq<char>) -> bool {
    match_at(s, p, 0)
}

/// `s` ends with `p`.
pub open spec fn spec_ends_with(s: Seq<char>, p: Seq<char>) -> bool {
    match_at(s, p, s.len() - p.len())
}

pub fn match_at_exec(s: &Vec<char>, p: &Vec<char>, at: usize) -> (r: bool)
    ensures
        r == match_at(s@, p@, at as int),
{
    if at > s.len() || p.len() > s.len() - at {
        return false;
    }
    let mut i: usize = 0;
    while i < p.len()
        invariant
            at + p@.len() <= s@.len(),
            s@.len() == s.len(),
            i <= p@.len(),
            forall|j: int| 0 <= j < i ==> s@[at + j] == p@[j],
        decreases p@.len() - i,
    {
        assert(at + i < s.len());
        let idx: usize = at + i;
        if s[idx] != p[i] {
            assert(s@.subrange(at as int, at + p@.len() as int)[i as int] != p@[i as int]);
            return false;
        }
        i = i + 1;
    }
    assert(s@.subrange(at as int, at + p@.len() as int) =~= p@);
    true
}

pub fn starts_with_str(s: &str, p: &str) -> (r: bool)
    ensures
        r == spec_starts_with(s@, p@),
{
    let sv = chars_of(s);
    let pv = chars_of(p);
    match_at_exec(&sv, &pv, 0)
}

pub fn ends_with_str(s: &str, p: &str) -> (r: bool)
    ensures
        r == spec_ends_with(s@, p@),
{
    let sv = chars_of(s);
    let pv = chars_of(p);
    if pv.len() > sv.len() {
        return false;
    }
    match_at_exec(&sv, &pv, sv.len() - pv.len())
}

/// The character `c` occurs somewhere in `s`.
pub open spec fn spec_contains_char(s: Seq<char>, c: char) -> bool {
    exists|i: int| 0 <= i < s.len() && s[i] == c
}

pub fn contains_char(s: &str, c: char) -> (r: bool)
    ensures
        r == spec_contains_char(s@, c),
{
    let n = s.unicode_len();
    let mut i: usize = 0;
    while i < n
        invariant
            n == s@.len(),
            i <= n,
            forall|j: int| 0 <= j < i ==> s@[j] != c,
        decreases n - i,
    {
        if s.get_char(i) == c {
            return true;
        }
        i = i + 1;
    }
    false
}

/// Every occurrence of `pat` in `s` replaced by `rep`, scanning left to
/// right without rescanning replacements, as `str::replace` does.
pub open spec fn spec_replace(s: Seq<char>, pat: Seq<char>, rep: Seq<char>) -> Seq<char>
    recommends
        pat.len() > 0,
    decreases s.len(),
    when pat.len() > 0
{
    if s.len() == 0 {
        s
    } else if match_at(s, pat, 0) {
        rep + spec_replace(s.skip(pat.len() as int), pat, rep)
    } else {
        seq![s[0]] + spec_replace(s.skip(1), pat, rep)
    }
}

pub fn replace_all(s: &str, pat: &str, rep: &str) -> (r: String)
    requires
        pat@.len() > 0,
    ensures
        r@ == spec_replace(s@, pat@, rep@),
{
    let sv = chars_of(s);
    let pv = chars_of(pat);
    let mut out: Vec<char> = Vec::new();
    let rv = chars_of(rep);
    let mut i: usize = 0;
    assert(s@.skip(0) =~= s@);
    assert(out@ + spec_replace(s@, pat@, rep@) =~= spec_replace(s@, pat@, rep@));
    while i < sv.len()
        invariant
            sv@ == s@,
            pv@ == pat@,
            rv@ == rep@,
            pat@.len() > 0,
            i <= sv@.len(),
            spec_replace(s@, pat@, rep@) == out@ + spec_replace(
                s@.skip(i as int),
                pat@,
                rep@,
            ),
        decreases sv@.len() - i,
    {
        if match_at_exec(&sv, &pv, i) {
            let ghost out0 = out@;
            let mut j: usize = 0;
            while j < rv.len()
                invariant
                    rv@ == rep@,
                    j <= rv@.len(),
                    out@ == out0 + rv@.subrange(0, j as int),
                decreases rv@.len() - j,
            {
                out.push(rv[j]);
                assert(out@ =~= out0 + rv@.subrange(0, j + 1 as int));
                j = j + 1;
            }
            assert(out@ =~= out0 + rep@);
            assert(match_at(s@.skip(i as int), pat@, 0)) by {
                assert(s@.skip(i as int).subrange(0, pat@.len() as int) =~= s@.subrange(
                    i as int,
                    i + pat@.len() as int,
                ));
            }
            assert(s@.skip(i as int).skip(pat@.len() as int) =~= s@.skip(i + pat@.len() as int));
            i = i + pv.len();
        } else {
            out.push(sv[i]);
            assert(!match_at(s@.skip(i as int), pat@, 0)) by {
                if match_at(s@.skip(i as int), pat@, 0) {
                    assert(s@.skip(i as int).subrange(0, pat@.len() as int) =~= s@.subrange(
                        i as int,
                        i + pat@.len() as int,
                    ));
                }
            }
            assert(s@.skip(i as int).len() > 0);
            assert(seq![s@.skip(i as int)[0]] =~= seq![s@[i as int]]);
            assert(s@.skip(i as int).skip(1) =~= s@.skip(i + 1));
            i = i + 1;
        }
    }
    assert(s@.skip(i as int) =~= Seq::<char>::empty());
    assert(spec_replace(s@, pat@, rep@) =~= out@);
    string_from(&out)
}

/// An upper-case ASCII letter mapped to lower case; any other character kept.
pub open spec fn spec_lower_char(c: char) -> char {
    if 'A' <= c && c <= 'Z' {
        ((c as u8) + 32) as char
    } else {
        c
    }
}

/// Every ASCII letter of `s` in lower case, as `str::to_ascii_lowercase`.
pub open spec fn spec_lower(s: Seq<char>) -> Seq<char> {
    s.map_values(|c: char| spec_lower_char(c))
}

pub fn lower_char(c: char) -> (r: char)
    ensures
        r == spec_lower_char(c),
{
    if 'A' <= c && c <= 'Z' {
        (((c as u8) + 32) as char)
    } else {
        c
    }
}

pub fn to_ascii_lower(s: &str) -> (r: String)
    ensures
        r@ == spec_lower(s@),
{
    let cs = chars_of(s);
    let mut out: Vec<char> = Vec::new();
    let mut i: usize = 0;
    while i < cs.len()
        invariant
            cs@ == s@,
            i <= cs@.len(),
            out@ == spec_lower(s@.subrange(0, i as int)),
        decreases cs@.len() - i,
    {
        out.push(lower_char(cs[i]));
        assert(out@ =~= spec_lower(s@.subrange(0, i + 1 as int)));
        i = i + 1;
    }
    assert(s@.subrange(0, s@.len() as int) =~= s@);
    string_from(&out)
}

/// The decimal digit character for `d`.
pub open spec fn spec_digit(d: int) -> char {
    ((48 + d) as u8) as char
}

/// The decimal text of the non-negative integer `n`, most significant digit
/// first, without sign or leading zeros (a single `0` for zero).
pub open spec fn spec_u64_dec(n: int) -> Seq<char>
    recommends
        n >= 0,
    decreases n,
    when n >= 0
{
    if n < 10 {
        seq![spec_digit(n)]
    } else {
        spec_u64_dec(n / 10).push(spec_digit(n % 10))
    }
}

pub fn u64_to_dec(n: u64) -> (r: String)
    ensures
        r@ == spec_u64_dec(n as int),
{
    let mut rev: Vec<char> = Vec::new();
    let mut cur: u64 = n;
    while cur >= 10
        invariant
            spec_u64_dec(n as int) == spec_u64_dec(cur as int) + rev@.reverse(),
        decreases cur,
    {
        let d: u64 = cur % 10;
        let next: u64 = cur / 10;
        proof {
            assert(next < cur) by (nonlinear_arith)
                requires
                    cur >= 10,
                    next == cur / 10,
            ;
            assert(spec_u64_dec(cur as int) == spec_u64_dec(next as int).push(
                spec_digit(cur as int % 10),
            ));
            assert((rev@.push(spec_digit(d as int))).reverse() =~= seq![
                spec_digit(d as int),
            ] + rev@.reverse());
            assert(spec_u64_dec(next as int) + (rev@.push(spec_digit(d as int))).reverse()
                =~= spec_u64_dec(cur as int) + rev@.reverse());
        }
        rev.push(((48 + (d as u8)) as char));
        assert(rev@.last() == spec_digit(d as int));
        assert(rev@ =~= rev@);
        cur = next;
    }
    rev.push(((48 + (cur as u8)) as char));
    proof {
        assert(rev@.last() == spec_digit(cur as int));
        assert(rev@.reverse() =~= seq![spec_digit(cur as int)] + rev@.drop_last().reverse());
        assert(spec_u64_dec(cur as int) =~= seq![spec_digit(cur as int)]);
        assert(spec_u64_dec(n as int) =~= spec_u64_dec(cur as int) + rev@.drop_last().reverse());
        assert(spec_u64_dec(n as int) =~= rev@.reverse());
    }
    let mut out: Vec<char> = Vec::new();
    let mut i: usize = rev.len();
    while i > 0
        invariant
            i <= rev@.len(),
            out@ == rev@.reverse().subrange(0, rev@.len() - i),
        decreases i,
    {
        i = i - 1;
        out.push(rev[i]);
        assert(rev@.reverse()[rev@.len() - 1 - i] == rev@[i as int]);
        assert(out@ =~= rev@.reverse().subrange(0, rev@.len() - i));
    }
    assert(out@ =~= rev@.reverse());
    string_from(&out)
}

/// `s` consists of one or more decimal digits.
pub open spec fn is_dec_digits(s: Seq<char>) -> bool {
    s.len() > 0 && forall|i: int| 0 <= i < s.len() ==> '0' <= #[trigger] s[i] && s[i] <= '9'
}

/// The value of the decimal digit string `s`.
pub open spec fn dec_val(s: Seq<char>) -> int
    decreases s.len(),
{
    if s.len() == 0 {
        0
    } else {
        dec_val(s.drop_last()) * 10 + (s.last() as int - 48)
    }
}

proof fn lemma_dec_val_nonneg(s: Seq<char>)
    requires
        forall|i: int| 0 <= i < s.len() ==> '0' <= #[trigger] s[i] && s[i] <= '9',
    ensures
        dec_val(s) >= 0,
    decreases s.len(),
{
    if s.len() > 0 {
        lemma_dec_val_nonneg(s.drop_last());
        assert(dec_val(s.drop_last()) * 10 >= 0) by (nonlinear_arith)
            requires
                dec_val(s.drop_last()) >= 0,
        ;
    }
}

proof fn lemma_dec_val_prefix_le(s: Seq<char>, k: int)
    requires
        forall|i: int| 0 <= i < s.len() ==> '0' <= #[trigger] s[i] && s[i] <= '9',
        0 <= k <= s.len(),
    ensures
        dec_val(s.subrange(0, k)) <= dec_val(s),
    decreases s.len() - k,
{
    if k == s.len() {
        assert(s.subrange(0, k) =~= s);
    } else {
        lemma_dec_val_prefix_le(s, k + 1);
        let p = s.subrange(0, k + 1);
        assert(p.drop_last() =~= s.subrange(0, k));
        lemma_dec_val_nonneg(s.subrange(0, k));
        assert(dec_val(s.subrange(0, k)) <= dec_val(p)) by (nonlinear_arith)
            requires
                dec_val(p) == dec_val(p.drop_last()) * 10 + (p.last() as int - 48),
                dec_val(p.drop_last()) == dec_val(s.subrange(0, k)),
                dec_val(s.subrange(0, k)) >= 0,
                48 <= p.last() as int <= 57,
        ;
    }
}

/// Parses a decimal digit string into a `u64`; `None` when `s` is empty, holds
/// a non-digit, or names a value above `u64::MAX`.
pub fn parse_u64(s: &Vec<char>) -> (r: Option<u64>)
    ensures
        r is Some <==> is_dec_digits(s@) && dec_val(s@) <= u64::MAX,
        r matches Some(n) ==> n == dec_val(s@),
{
    if s.len() == 0 {
        return None;
    }
    let mut acc: u64 = 0;
    let mut i: usize = 0;
    while i < s.len()
        invariant
            0 < s@.len(),
            i <= s@.len(),
            forall|j: int| 0 <= j < i ==> '0' <= #[trigger] s@[j] && s@[j] <= '9',
            acc == dec_val(s@.subrange(0, i as int)),
        decreases s@.len() - i,
    {
        let c = s[i];
        if c < '0' || c > '9' {
            return None;
        }
        let d: u64 = (c as u8) as u64 - 48;
        if acc > (u64::MAX - d) / 10 {
            proof {
                let p = s@.subrange(0, i + 1 as int);
                assert(p.drop_last() =~= s@.subrange(0, i as int));
                assert(dec_val(p) > u64::MAX) by (nonlinear_arith)
                    requires
                        dec_val(p) == dec_val(p.drop_last()) * 10 + (p.last() as int - 48),
                        dec_val(p.drop_last()) == acc as int,
                        p.last() as int - 48 == d as int,
                        0 <= d <= 9,
                        acc > ((u64::MAX - d) / 10) as int,
                ;
                if is_dec_digits(s@) {
                    lemma_dec_val_prefix_le(s@, i + 1);
                }
            }
            return None;
        }
        proof {
            let p = s@.subrange(0, i + 1 as int);
            assert(p.drop_last() =~= s@.subrange(0, i as int));
            assert(acc * 10 + d <= u64::MAX) by (nonlinear_arith)
                requires
                    0 <= d <= 9,
                    0 <= acc,
                    acc <= ((u64::MAX - d) / 10) as int,
            ;
            assert(dec_val(p) == acc * 10 + d);
        }
        acc = acc * 10 + d;
        i = i + 1;
    }
    assert(s@.subrange(0, s@.len() as int) =~= s@);
    Some(acc)
}

/// Round trip: formatting a `u64` and parsing it back yields the same value.
pub proof fn lemma_dec_round_trip(n: int)
    requires
        0 <= n <= u64::MAX,
    ensures
        is_dec_digits(spec_u64_dec(n)),
        dec_val(spec_u64_dec(n)) == n,
    decreases n,
{
    if n < 10 {
        let s = spec_u64_dec(n);
        assert(s =~= seq![spec_digit(n)]);
        assert((48 + n) as u8 == 48 + n);
        assert(spec_digit(n) as int == 48 + n);
        assert(s.len() == 1);
        assert(dec_val(s) == dec_val(s.drop_last()) * 10 + (s.last() as int - 48));
        assert(s.drop_last().len() == 0);
        assert(dec_val(s.drop_last()) == 0);
        assert(0 * 10 + (48 + n - 48) == n) by (nonlinear_arith);
    } else {
        assert(0 <= n / 10 < n) by (nonlinear_arith)
            requires
                n >= 10,
        ;
        lemma_dec_round_trip(n / 10);
        let s = spec_u64_dec(n / 10).push(spec_digit(n % 10));
        assert(spec_u64_dec(n) == s);
        assert(s.drop_last() =~= spec_u64_dec(n / 10));
        assert(s.last() == spec_digit(n % 10));
        assert(0 <= n % 10 < 10) by (nonlinear_arith)
            requires
                n >= 10,
        ;
        assert(dec_val(s) == (n / 10) * 10 + (n % 10));
        assert((n / 10) * 10 + (n % 10) == n) by (nonlinear_arith)
            requires
                n >= 0,
        ;
        assert forall|i: int| 0 <= i < s.len() implies '0' <= #[trigger] s[i] && s[i]
            <= '9' by {
            if i < s.len() - 1 {
                assert(s[i] == spec_u64_dec(n / 10)[i]);
            }
        }
    }
}

/// Strict lexicographic order on character sequences; agrees with the byte
/// order `str::cmp` uses, since UTF-8 preserves code-point order.
pub open spec fn lex_lt(a: Seq<char>, b: Seq<char>) -> bool
    decreases a.len(),
{
    if b.len() == 0 {
        false
    } else if a.len() == 0 {
        true
    } else if a[0] < b[0] {
        true
    } else if b[0] < a[0] {
        false
    } else {
        lex_lt(a.skip(1), b.skip(1))
    }
}

proof fn lemma_lex_common_prefix(a: Seq<char>, b: Seq<char>, i: int)
    requires
        0 <= i <= a.len(),
        i <= b.len(),
        forall|j: int| 0 <= j < i ==> a[j] == b[j],
    ensures
        lex_lt(a, b) == lex_lt(a.skip(i), b.skip(i)),
    decreases i,
{
    if i > 0 {
        assert(a[0] == b[0]);
        lemma_lex_common_prefix(a.skip(1), b.skip(1), i - 1);
        assert(a.skip(1).skip(i - 1) =~= a.skip(i));
        assert(b.skip(1).skip(i - 1) =~= b.skip(i));
    } else {
        assert(a.skip(0) =~= a);
        assert(b.skip(0) =~= b);
    }
}

pub fn str_lt(a: &str, b: &str) -> (r: bool)
    ensures
        r == lex_lt(a@, b@),
{
    let av = chars_of(a);
    let bv = chars_of(b);
    let mut i: usize = 0;
    while i < av.len() && i < bv.len()
        invariant
            av@ == a@,
            bv@ == b@,
            i <= a@.len(),
            i <= b@.len(),
            forall|j: int| 0 <= j < i ==> a@[j] == b@[j],
        decreases av@.len() - i,
    {
        let ca = av[i];
        let cb = bv[i];
        if ca < cb {
            proof {
                lemma_lex_common_prefix(a@, b@, i as int);
            }
            return true;
        }
        if cb < ca {
            proof {
                lemma_lex_common_prefix(a@, b@, i as int);
            }
            return false;
        }
        i = i + 1;
    }
    proof {
        lemma_lex_common_prefix(a@, b@, i as int);
    }
    i < bv.len()
}

/// Leading characters equal to `c` removed.
pub open spec fn trim_lead(s: Seq<char>, c: char) -> Seq<char>
    decreases s.len(),
{
    if s.len() > 0 && s[0] == c {
        trim_lead(s.skip(1), c)
    } else {
        s
    }
}

/// Trailing characters equal to `c` removed.
pub open spec fn trim_trail(s: Seq<char>, c: char) -> Seq<char>
    decreases s.len(),
{
    if s.len() > 0 && s.last() == c {
        trim_trail(s.drop_last(), c)
    } else {
        s
    }
}

/// Both ends stripped of `c`, as `str::trim_matches` with a `char` pattern.
pub open spec fn spec_trim_matches(s: Seq<char>, c: char) -> Seq<char> {
    trim_trail(trim_lead(s, c), c)
}

proof fn lemma_trim_lead_at(s: Seq<char>, c: char, lo: int)
    requires
        0 <= lo <= s.len(),
        forall|j: int| 0 <= j < lo ==> s[j] == c,
        lo < s.len() ==> s[lo] != c,
    ensures
        trim_lead(s, c) == s.skip(lo),
    decreases lo,
{
    if lo == 0 {
        assert(s.skip(0) =~= s);
    } else {
        lemma_trim_lead_at(s.skip(1), c, lo - 1);
        assert(s.skip(1).skip(lo - 1) =~= s.skip(lo));
    }
}

proof fn lemma_trim_trail_at(s: Seq<char>, c: char, hi: int)
    requires
        0 <= hi <= s.len(),
        forall|j: int| hi <= j < s.len() ==> s[j] == c,
        hi > 0 ==> s[hi - 1] != c,
    ensures
        trim_trail(s, c) == s.subrange(0, hi),
    decreases s.len() - hi,
{
    if hi == s.len() {
        assert(s.subrange(0, hi) =~= s);
    } else {
        assert(s.last() == c);
        lemma_trim_trail_at(s.drop_last(), c, hi);
        assert(s.drop_last().subrange(0, hi) =~= s.subrange(0, hi));
    }
}

pub fn trim_matches(s: &str, c: char) -> (r: String)
    ensures
        r@ == spec_trim_matches(s@, c),
{
    let cs = chars_of(s);
    let mut lo: usize = 0;
    while lo < cs.len() && cs[lo] == c
        invariant
            cs@ == s@,
            lo <= s@.len(),
            forall|j: int| 0 <= j < lo ==> s@[j] == c,
        decreases cs@.len() - lo,
    {
        lo = lo + 1;
    }
    proof {
        lemma_trim_lead_at(s@, c, lo as int);
    }
    let mut hi: usize = cs.len();
    while hi > lo && cs[hi - 1] == c
        invariant
            cs@ == s@,
            lo <= hi <= s@.len(),
            forall|j: int| hi <= j < s@.len() ==> s@[j] == c,
        decreases hi,
    {
        hi = hi - 1;
    }
    let tl = Ghost(s@.skip(lo as int));
    proof {
        assert forall|j: int| hi - lo <= j < tl@.len() implies tl@[j] == c by {
            assert(tl@[j] == s@[j + lo]);
        }
        if hi > lo {
            assert(tl@[hi - lo - 1] == s@[hi - 1]);
        }
        lemma_trim_trail_at(tl@, c, hi - lo as int);
    }
    let mut out: Vec<char> = Vec::new();
    let mut i: usize = lo;
    while i < hi
        invariant
            cs@ == s@,
            lo <= i <= hi <= s@.len(),
            out@ == s@.subrange(lo as int, i as int),
        decreases hi - i,
    {
        out.push(cs[i]);
        assert(out@ =~= s@.subrange(lo as int, i + 1 as int));
        i = i + 1;
    }
    proof {
        assert(tl@.subrange(0, hi - lo as int) =~= s@.subrange(lo as int, hi as int));
    }
    string_from(&out)
}

/// The text after the last occurrence of `c`; the whole of `s` when `c` does
/// not occur, matching `str::split(c).last()` on such inputs.
pub open spec fn spec_after_last(s: Seq<char>, c: char) -> Seq<char>
    decreases s.len(),
{
    if s.len() == 0 {
        s
    } else if s.last() == c {
        Seq::empty()
    } else {
        spec_after_last(s.drop_last(), c).push(s.last())
    }
}

proof fn lemma_after_last_at(s: Seq<char>, c: char, k: int)
    requires
        0 <= k <= s.len(),
        forall|j: int| k <= j < s.len() ==> s[j] != c,
        k > 0 ==> s[k - 1] == c,
    ensures
        spec_after_last(s, c) == s.skip(k),
    decreases s.len() - k,
{
    if k == s.len() {
        if k > 0 {
            assert(s.last() == c);
            assert(s.skip(k) =~= Seq::<char>::empty());
        } else {
            assert(s.skip(0) =~= s);
        }
    } else {
        assert(s.last() != c);
        lemma_after_last_at(s.drop_last(), c, k);
        assert(spec_after_last(s, c) == s.drop_last().skip(k).push(s.last()));
        assert(s.drop_last().skip(k).push(s.last()) =~= s.skip(k));
    }
}

pub fn after_last(s: &str, c: char) -> (r: String)
    ensures
        r@ == spec_after_last(s@, c),
{
    let cs = chars_of(s);
    let mut k: usize = cs.len();
    while k > 0 && cs[k - 1] != c
        invariant
            cs@ == s@,
            k <= s@.len(),
            forall|j: int| k <= j < s@.len() ==> s@[j] != c,
        decreases k,
    {
        k = k - 1;
    }
    proof {
        lemma_after_last_at(s@, c, k as int);
    }
    let mut out: Vec<char> = Vec::new();
    let mut i: usize = k;
    while i < cs.len()
        invariant
            cs@ == s@,
            k <= i <= s@.len(),
            out@ == s@.subrange(k as int, i as int),
        decreases cs@.len() - i,
    {
        out.push(cs[i]);
        assert(out@ =~= s@.subrange(k as int, i + 1 as int));
        i = i + 1;
    }
    assert(out@ =~= s@.skip(k as int));
    string_from(&out)
}

} // verus!

