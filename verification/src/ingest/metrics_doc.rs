use vstd::prelude::*;
use vstd::string::StrSliceExecFns;

use crate::database::{Satisfiability, TestMetrics};
use crate::paths::str_eq;

verus! {

// The metrics wire format, as an ingestor must print it: a plain mapping of
// one `key: value` line per metric (a single `: ` after the key, no
// surrounding whitespace, no quotes, no comments), with exactly the ten
// metric keys, in any order; empty lines are ignored. `satisfiable` is the
// integer trichotomy -1 | 0 | 1, `runtime` and `parse_time` are unsigned
// 64-bit decimals, the remaining counters unsigned 32-bit decimals. Any
// other line, a missing, repeated or unknown key, or an out-of-range value
// makes the whole document unparseable. This is stricter than a general
// YAML mapping: quoted scalars, flow style, comments and extra whitespace
// are all refused, so ingestors must print exactly this shape.

/// Index of the first occurrence of `c` in `s`, or `s.len()` when absent.
pub open spec fn first_at(s: Seq<char>, c: char) -> int
    decreases s.len(),
{
    if s.len() == 0 {
        0
    } else if s[0] == c {
        0
    } else {
        1 + first_at(s.drop_first(), c)
    }
}

pub proof fn lemma_first_at_props(s: Seq<char>, c: char)
    ensures
        0 <= first_at(s, c) <= s.len(),
        first_at(s, c) < s.len() ==> s[first_at(s, c)] == c,
        forall|j: int| 0 <= j < first_at(s, c) ==> s[j] != c,
    decreases s.len(),
{
    if s.len() > 0 && s[0] != c {
        lemma_first_at_props(s.drop_first(), c);
        assert forall|j: int| 0 <= j < first_at(s, c) implies s[j] != c by {
            if j > 0 {
                assert(s.drop_first()[j - 1] == s[j]);
            }
        }
    }
}

/// Any index with the first-occurrence properties is `first_at`.
pub proof fn lemma_first_at_unique(s: Seq<char>, c: char, k: int)
    requires
        0 <= k <= s.len(),
        k < s.len() ==> s[k] == c,
        forall|j: int| 0 <= j < k ==> s[j] != c,
    ensures
        k == first_at(s, c),
    decreases s.len(),
{
    if s.len() > 0 && s[0] != c {
        assert(k > 0);
        assert forall|j: int| 0 <= j < k - 1 implies s.drop_first()[j] != c by {
            assert(s.drop_first()[j] == s[j + 1]);
        }
        assert(k - 1 < s.drop_first().len() ==> s.drop_first()[k - 1] == c);
        lemma_first_at_unique(s.drop_first(), c, k - 1);
    }
}

/// Find the first occurrence of `c` in `s`, or the length when absent.
#[verifier::loop_isolation(false)]
pub fn find_first(s: &str, c: char) -> (r: usize)
    ensures
        r as int == first_at(s@, c),
{
    let len = s.unicode_len();
    let mut i: usize = 0;
    while i < len
        invariant
            0 <= i <= len,
            forall|j: int| 0 <= j < i ==> s@[j] != c,
        decreases len - i,
    {
        if s.get_char(i) == c {
            proof {
                lemma_first_at_unique(s@, c, i as int);
            }
            return i;
        }
        i = i + 1;
    }
    proof {
        lemma_first_at_unique(s@, c, len as int);
    }
    len
}

/// The lines of `s`: maximal runs of characters between `\n` separators. The
/// empty document has no lines.
pub open spec fn spec_lines(s: Seq<char>) -> Seq<Seq<char>>
    decreases s.len(),
    via spec_lines_decreases
{
    if s.len() == 0 {
        Seq::empty()
    } else {
        let k = first_at(s, '\n');
        if k == s.len() {
            seq![s]
        } else {
            seq![s.take(k)] + spec_lines(s.skip(k + 1))
        }
    }
}

#[via_fn]
proof fn spec_lines_decreases(s: Seq<char>) {
    lemma_first_at_props(s, '\n');
}

/// Split a document into its lines.
pub fn split_lines(s: &str) -> (r: Vec<String>)
    ensures
        r.deep_view() == spec_lines(s@),
    decreases s@.len(),
{
    let len = s.unicode_len();
    if len == 0 {
        let r: Vec<String> = Vec::new();
        proof {
            assert(r.deep_view() =~= spec_lines(s@));
        }
        r
    } else {
        proof {
            lemma_first_at_props(s@, '\n');
        }
        let k = find_first(s, '\n');
        if k == len {
            let mut r: Vec<String> = Vec::new();
            r.push(String::from_str(s));
            proof {
                assert(s@.take(len as int) =~= s@);
                assert(r.deep_view() =~= spec_lines(s@));
            }
            r
        } else {
            let line = String::from_str(s.substring_char(0, k));
            let mut rest = split_lines(s.substring_char(k + 1, len));
            let mut r: Vec<String> = Vec::new();
            r.push(line);
            r.append(&mut rest);
            proof {
                assert(s@.subrange(k + 1 as int, len as int) =~= s@.skip(k + 1));
                assert(r.deep_view() =~= spec_lines(s@));
            }
            r
        }
    }
}

/// Whether every character of `s` is a decimal digit.
pub open spec fn is_digits(s: Seq<char>) -> bool {
    forall|j: int| 0 <= j < s.len() ==> '0' <= #[trigger] s[j] <= '9'
}

/// The integer a sequence of decimal digits denotes.
pub open spec fn digits_int(s: Seq<char>) -> int
    decreases s.len(),
{
    if s.len() == 0 {
        0
    } else {
        digits_int(s.drop_last()) * 10 + (s.last() as int - '0' as int)
    }
}

/// Digit strings denote non-negative values that grow with every digit.
pub proof fn lemma_digits_nonneg(s: Seq<char>)
    requires
        is_digits(s),
    ensures
        digits_int(s) >= 0,
    decreases s.len(),
{
    if s.len() > 0 {
        assert(is_digits(s.drop_last()));
        lemma_digits_nonneg(s.drop_last());
        assert('0' <= s.last() <= '9');
        assert(digits_int(s.drop_last()) * 10 >= 0) by (nonlinear_arith)
            requires
                digits_int(s.drop_last()) >= 0,
        ;
    }
}

/// A digit prefix never denotes more than the whole string.
pub proof fn lemma_digits_prefix_le(s: Seq<char>, i: int)
    requires
        is_digits(s),
        0 <= i <= s.len(),
    ensures
        digits_int(s.take(i)) <= digits_int(s),
    decreases s.len() - i,
{
    if i < s.len() {
        lemma_digits_prefix_le(s, i + 1);
        let p = s.take(i);
        let q = s.take(i + 1);
        assert(q.drop_last() =~= p);
        assert(is_digits(p));
        lemma_digits_nonneg(p);
        assert('0' <= q.last() <= '9');
        assert(digits_int(p) * 10 >= digits_int(p)) by (nonlinear_arith)
            requires
                digits_int(p) >= 0,
        ;
    } else {
        assert(s.take(i) =~= s);
    }
}

/// The unsigned 64-bit value a string denotes, when it is a non-empty digit
/// string whose value fits.
pub open spec fn spec_parse_u64(s: Seq<char>) -> Option<u64> {
    if s.len() > 0 && is_digits(s) && digits_int(s) <= u64::MAX {
        Some(digits_int(s) as u64)
    } else {
        None
    }
}

/// Parse an unsigned 64-bit decimal.
#[verifier::loop_isolation(false)]
pub fn parse_u64(s: &str) -> (r: Option<u64>)
    ensures
        r == spec_parse_u64(s@),
{
    let len = s.unicode_len();
    if len == 0 {
        return None;
    }
    let mut acc: u64 = 0;
    let mut i: usize = 0;
    proof {
        assert(s@.take(0) =~= Seq::<char>::empty());
    }
    while i < len
        invariant
            0 <= i <= len,
            is_digits(s@.take(i as int)),
            acc == digits_int(s@.take(i as int)),
        decreases len - i,
    {
        let c = s.get_char(i);
        if c < '0' || c > '9' {
            assert(!is_digits(s@));
            return None;
        }
        let d: u64 = (c as u32 - '0' as u32) as u64;
        proof {
            assert(s@.take(i + 1 as int).drop_last() =~= s@.take(i as int));
            assert(is_digits(s@.take(i + 1 as int)));
        }
        if acc > (u64::MAX - d) / 10 {
            proof {
                lemma_digits_nonneg(s@.take(i + 1 as int));
                assert(digits_int(s@.take(i + 1 as int)) == acc * 10 + d);
                assert(acc * 10 + d > u64::MAX) by (nonlinear_arith)
                    requires
                        acc > (u64::MAX - d) / 10,
                        0 <= d <= 9,
                ;
                if is_digits(s@) {
                    lemma_digits_prefix_le(s@, i + 1 as int);
                }
            }
            return None;
        }
        proof {
            assert(acc * 10 + d <= u64::MAX) by (nonlinear_arith)
                requires
                    acc <= (u64::MAX - d) / 10,
                    0 <= d <= 9,
            ;
        }
        acc = acc * 10 + d;
        i = i + 1;
    }
    proof {
        assert(s@.take(len as int) =~= s@);
    }
    Some(acc)
}

/// The unsigned 32-bit value a string denotes, when it fits.
pub open spec fn spec_parse_u32(s: Seq<char>) -> Option<u32> {
    if s.len() > 0 && is_digits(s) && digits_int(s) <= u32::MAX {
        Some(digits_int(s) as u32)
    } else {
        None
    }
}

/// Parse an unsigned 32-bit decimal.
pub fn parse_u32(s: &str) -> (r: Option<u32>)
    ensures
        r == spec_parse_u32(s@),
{
    proof {
        if s@.len() > 0 && is_digits(s@) {
            lemma_digits_nonneg(s@);
        }
    }
    match parse_u64(s) {
        Some(v) => {
            if v <= 0xffff_ffffu64 {
                Some(v as u32)
            } else {
                None
            }
        },
        None => None,
    }
}

/// The satisfiability verdict a string denotes: the trichotomy -1 | 0 | 1.
pub open spec fn spec_parse_sat(s: Seq<char>) -> Option<Satisfiability> {
    if s == "-1"@ {
        Some(Satisfiability::Unsatisfiable)
    } else if s == "0"@ {
        Some(Satisfiability::Unknown)
    } else if s == "1"@ {
        Some(Satisfiability::Satisfiable)
    } else {
        None
    }
}

/// Parse a satisfiability verdict.
pub fn parse_sat(s: &str) -> (r: Option<Satisfiability>)
    ensures
        r == spec_parse_sat(s@),
{
    if str_eq(s, "-1") {
        Some(Satisfiability::Unsatisfiable)
    } else if str_eq(s, "0") {
        Some(Satisfiability::Unknown)
    } else if str_eq(s, "1") {
        Some(Satisfiability::Satisfiable)
    } else {
        None
    }
}

/// The key/value split of one line: the key before the first `: `, the value
/// after it. A line without that separator, or with an empty key, is
/// malformed.
pub open spec fn spec_parse_line(l: Seq<char>) -> Option<(Seq<char>, Seq<char>)> {
    let k = first_at(l, ':');
    if 0 < k && k + 1 < l.len() && l[k + 1] == ' ' {
        Some((l.take(k), l.skip(k + 2)))
    } else {
        None
    }
}

/// Split one line into its key and value.
pub fn parse_line(l: &str) -> (r: Option<(String, String)>)
    ensures
        match r {
            Some(p) => spec_parse_line(l@) == Some((p.0@, p.1@)),
            None => spec_parse_line(l@) is None,
        },
{
    proof {
        lemma_first_at_props(l@, ':');
    }
    let len = l.unicode_len();
    let k = find_first(l, ':');
    if 0 < k && k < len && k + 1 < len && l.get_char(k + 1) == ' ' {
        let key = String::from_str(l.substring_char(0, k));
        let value = String::from_str(l.substring_char(k + 2, len));
        proof {
            assert(l@.subrange(k + 2 as int, len as int) =~= l@.skip(k + 2));
        }
        Some((key, value))
    } else {
        None
    }
}

/// The key/value pairs of the lines from `i` on: empty lines are skipped, and
/// a malformed non-empty line spoils the whole document.
pub open spec fn spec_pairs_from(ls: Seq<Seq<char>>, i: int) -> Option<
    Seq<(Seq<char>, Seq<char>)>,
>
    decreases ls.len() - i,
{
    if 0 <= i < ls.len() {
        if ls[i].len() == 0 {
            spec_pairs_from(ls, i + 1)
        } else {
            match spec_parse_line(ls[i]) {
                None => None,
                Some(p) => match spec_pairs_from(ls, i + 1) {
                    None => None,
                    Some(r) => Some(seq![p] + r),
                },
            }
        }
    } else {
        Some(Seq::empty())
    }
}

/// Collect the key/value pairs of the lines from `i` on.
pub fn pairs_from(ls: &Vec<String>, i: usize) -> (r: Option<Vec<(String, String)>>)
    requires
        i <= ls@.len(),
    ensures
        match r {
            Some(ps) => spec_pairs_from(ls.deep_view(), i as int) == Some(ps.deep_view()),
            None => spec_pairs_from(ls.deep_view(), i as int) is None,
        },
    decreases ls@.len() - i,
{
    if i >= ls.len() {
        let r: Vec<(String, String)> = Vec::new();
        proof {
            assert(r.deep_view() =~= Seq::<(Seq<char>, Seq<char>)>::empty());
        }
        Some(r)
    } else if ls[i].as_str().unicode_len() == 0 {
        pairs_from(ls, i + 1)
    } else {
        match parse_line(ls[i].as_str()) {
            None => None,
            Some(p) => match pairs_from(ls, i + 1) {
                None => None,
                Some(mut rest) => {
                    let mut r: Vec<(String, String)> = Vec::new();
                    r.push(p);
                    r.append(&mut rest);
                    proof {
                        let sp = spec_pairs_from(ls.deep_view(), i as int + 1);
                        assert(r.deep_view() =~= seq![
                            (r@[0].0@, r@[0].1@),
                        ] + sp.unwrap());
                    }
                    Some(r)
                },
            },
        }
    }
}

/// How many pairs carry the key `k`.
pub open spec fn key_count(ps: Seq<(Seq<char>, Seq<char>)>, k: Seq<char>) -> nat
    decreases ps.len(),
{
    if ps.len() == 0 {
        0
    } else {
        (if ps[0].0 == k {
            1nat
        } else {
            0nat
        }) + key_count(ps.drop_first(), k)
    }
}

/// The value of the first pair carrying the key `k`.
pub open spec fn key_value(ps: Seq<(Seq<char>, Seq<char>)>, k: Seq<char>) -> Option<Seq<char>>
    decreases ps.len(),
{
    if ps.len() == 0 {
        None
    } else if ps[0].0 == k {
        Some(ps[0].1)
    } else {
        key_value(ps.drop_first(), k)
    }
}

/// Count the pairs carrying the key `k`.
#[verifier::loop_isolation(false)]
pub fn count_key(ps: &Vec<(String, String)>, k: &str) -> (r: usize)
    ensures
        r == key_count(ps.deep_view(), k@),
    decreases ps@.len(),
{
    let ghost pv = ps.deep_view();
    assert(pv.skip(0) =~= pv);
    let mut n: usize = 0;
    let mut i: usize = 0;
    while i < ps.len()
        invariant
            0 <= i <= ps@.len(),
            n <= i,
            n + key_count(pv.skip(i as int), k@) == key_count(pv, k@),
        decreases ps@.len() - i,
    {
        proof {
            assert(pv.skip(i as int)[0] == pv[i as int]);
            assert(pv.skip(i as int).drop_first() =~= pv.skip(i as int + 1));
        }
        if str_eq(ps[i].0.as_str(), k) {
            n = n + 1;
        }
        i = i + 1;
    }
    proof {
        assert(pv.skip(ps@.len() as int).len() == 0);
    }
    n
}

/// Fetch the value stored under the key `k`.
#[verifier::loop_isolation(false)]
pub fn value_of(ps: &Vec<(String, String)>, k: &str) -> (r: Option<String>)
    ensures
        match r {
            Some(v) => key_value(ps.deep_view(), k@) == Some(v@),
            None => key_value(ps.deep_view(), k@) is None,
        },
{
    let ghost pv = ps.deep_view();
    assert(pv.skip(0) =~= pv);
    let mut i: usize = 0;
    while i < ps.len()
        invariant
            0 <= i <= ps@.len(),
            key_value(pv, k@) == key_value(pv.skip(i as int), k@),
        decreases ps@.len() - i,
    {
        proof {
            assert(pv.skip(i as int)[0] == pv[i as int]);
            assert(pv.skip(i as int).drop_first() =~= pv.skip(i as int + 1));
        }
        if str_eq(ps[i].0.as_str(), k) {
            return Some(ps[i].1.clone());
        }
        i = i + 1;
    }
    proof {
        assert(pv.skip(ps@.len() as int).len() == 0);
    }
    None
}

/// Whether `k` is one of the ten metric keys.
pub open spec fn spec_known_key(k: Seq<char>) -> bool {
    k == "runtime"@ || k == "satisfiable"@ || k == "parse_time"@ || k == "memory_usage"@ || k
        == "restarts"@ || k == "conflicts"@ || k == "propagations"@ || k == "conflict_literals"@
        || k == "number_of_variables"@ || k == "number_of_clauses"@
}

/// Decide whether `k` is one of the ten metric keys.
pub fn known_key(k: &str) -> (r: bool)
    ensures
        r == spec_known_key(k@),
{
    str_eq(k, "runtime") || str_eq(k, "satisfiable") || str_eq(k, "parse_time") || str_eq(
        k,
        "memory_usage",
    ) || str_eq(k, "restarts") || str_eq(k, "conflicts") || str_eq(k, "propagations") || str_eq(
        k,
        "conflict_literals",
    ) || str_eq(k, "number_of_variables") || str_eq(k, "number_of_clauses")
}

/// Whether every pair carries a metric key.
pub open spec fn spec_all_known(ps: Seq<(Seq<char>, Seq<char>)>) -> bool {
    forall|j: int| 0 <= j < ps.len() ==> spec_known_key((#[trigger] ps[j]).0)
}

/// A key occurs exactly once and its value parses as an unsigned 64-bit
/// decimal.
pub open spec fn spec_u64_field(ps: Seq<(Seq<char>, Seq<char>)>, k: Seq<char>) -> Option<u64> {
    if key_count(ps, k) == 1 {
        match key_value(ps, k) {
            Some(v) => spec_parse_u64(v),
            None => None,
        }
    } else {
        None
    }
}

/// A key occurs exactly once and its value parses as an unsigned 32-bit
/// decimal.
pub open spec fn spec_u32_field(ps: Seq<(Seq<char>, Seq<char>)>, k: Seq<char>) -> Option<u32> {
    if key_count(ps, k) == 1 {
        match key_value(ps, k) {
            Some(v) => spec_parse_u32(v),
            None => None,
        }
    } else {
        None
    }
}

/// The metrics the pairs encode, when every key is a metric key, each metric
/// occurs exactly once, and every value parses.
pub open spec fn spec_metrics_of_pairs(ps: Seq<(Seq<char>, Seq<char>)>) -> Option<TestMetrics> {
    if !spec_all_known(ps) {
        None
    } else {
        let runtime = spec_u64_field(ps, "runtime"@);
        let parse_time = spec_u64_field(ps, "parse_time"@);
        let satisfiable = if key_count(ps, "satisfiable"@) == 1 {
            match key_value(ps, "satisfiable"@) {
                Some(v) => spec_parse_sat(v),
                None => None,
            }
        } else {
            None
        };
        let memory_usage = spec_u32_field(ps, "memory_usage"@);
        let restarts = spec_u32_field(ps, "restarts"@);
        let conflicts = spec_u32_field(ps, "conflicts"@);
        let propagations = spec_u32_field(ps, "propagations"@);
        let conflict_literals = spec_u32_field(ps, "conflict_literals"@);
        let number_of_variables = spec_u32_field(ps, "number_of_variables"@);
        let number_of_clauses = spec_u32_field(ps, "number_of_clauses"@);
        if runtime is Some && parse_time is Some && satisfiable is Some && memory_usage is Some
            && restarts is Some && conflicts is Some && propagations is Some && conflict_literals
            is Some && number_of_variables is Some && number_of_clauses is Some {
            Some(
                TestMetrics {
                    runtime: runtime.unwrap(),
                    satisfiable: satisfiable.unwrap(),
                    parse_time: parse_time.unwrap(),
                    memory_usage: memory_usage.unwrap(),
                    restarts: restarts.unwrap(),
                    conflicts: conflicts.unwrap(),
                    propagations: propagations.unwrap(),
                    conflict_literals: conflict_literals.unwrap(),
                    number_of_variables: number_of_variables.unwrap(),
                    number_of_clauses: number_of_clauses.unwrap(),
                },
            )
        } else {
            None
        }
    }
}

/// The metrics a document encodes, or nothing when it is not a well-formed
/// metrics document.
pub open spec fn spec_parse_metrics(s: Seq<char>) -> Option<TestMetrics> {
    match spec_pairs_from(spec_lines(s), 0) {
        None => None,
        Some(ps) => spec_metrics_of_pairs(ps),
    }
}

/// Fetch a field that must occur exactly once as an unsigned 64-bit decimal.
fn u64_field(ps: &Vec<(String, String)>, k: &str) -> (r: Option<u64>)
    ensures
        r == spec_u64_field(ps.deep_view(), k@),
{
    if count_key(ps, k) != 1 {
        return None;
    }
    match value_of(ps, k) {
        Some(v) => parse_u64(v.as_str()),
        None => None,
    }
}

/// Fetch a field that must occur exactly once as an unsigned 32-bit decimal.
fn u32_field(ps: &Vec<(String, String)>, k: &str) -> (r: Option<u32>)
    ensures
        r == spec_u32_field(ps.deep_view(), k@),
{
    if count_key(ps, k) != 1 {
        return None;
    }
    match value_of(ps, k) {
        Some(v) => parse_u32(v.as_str()),
        None => None,
    }
}

/// Parse a metrics document: a mapping with exactly the ten metric keys, in
/// any order, empty lines ignored.
#[verifier::loop_isolation(false)]
pub fn parse_metrics(s: &str) -> (r: Option<TestMetrics>)
    ensures
        r == spec_parse_metrics(s@),
{
    let lines = split_lines(s);
    let ps = match pairs_from(&lines, 0) {
        Some(ps) => ps,
        None => {
            return None;
        },
    };
    let ghost pv = ps.deep_view();
    let mut i: usize = 0;
    while i < ps.len()
        invariant
            0 <= i <= ps@.len(),
            forall|j: int| 0 <= j < i ==> spec_known_key((#[trigger] pv[j]).0),
        decreases ps@.len() - i,
    {
        if !known_key(ps[i].0.as_str()) {
            proof {
                assert(pv[i as int].0 == ps@[i as int].0@);
                assert(!spec_known_key(pv[i as int].0));
            }
            return None;
        }
        i = i + 1;
    }
    assert(spec_all_known(pv));
    let runtime = u64_field(&ps, "runtime");
    let parse_time = u64_field(&ps, "parse_time");
    let satisfiable = if count_key(&ps, "satisfiable") == 1 {
        match value_of(&ps, "satisfiable") {
            Some(v) => parse_sat(v.as_str()),
            None => None,
        }
    } else {
        None
    };
    let memory_usage = u32_field(&ps, "memory_usage");
    let restarts = u32_field(&ps, "restarts");
    let conflicts = u32_field(&ps, "conflicts");
    let propagations = u32_field(&ps, "propagations");
    let conflict_literals = u32_field(&ps, "conflict_literals");
    let number_of_variables = u32_field(&ps, "number_of_variables");
    let number_of_clauses = u32_field(&ps, "number_of_clauses");
    match (runtime, parse_time, satisfiable) {
        (Some(runtime), Some(parse_time), Some(satisfiable)) => match (
            memory_usage,
            restarts,
            conflicts,
            propagations,
            conflict_literals,
            number_of_variables,
            number_of_clauses,
        ) {
            (
                Some(memory_usage),
                Some(restarts),
                Some(conflicts),
                Some(propagations),
                Some(conflict_literals),
                Some(number_of_variables),
                Some(number_of_clauses),
            ) => Some(
                TestMetrics {
                    runtime,
                    satisfiable,
                    parse_time,
                    memory_usage,
                    restarts,
                    conflicts,
                    propagations,
                    conflict_literals,
                    number_of_variables,
                    number_of_clauses,
                },
            ),
            _ => None,
        },
        _ => None,
    }
}

} // verus!
