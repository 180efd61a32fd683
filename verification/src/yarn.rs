//! The lockfile parser's entry point: parse the document, extract the
//! resolved package descriptors, and report positioned diagnostics.
//!
//! The document is an optional leading blank run followed by a map at
//! indentation level zero; the whole input must be consumed.  Each root
//! entry names a package specifier (`name@range`, with an optional
//! leading `@` kept as part of a scoped name) and must map to a map
//! holding a string `version`.  Descriptors are deduplicated on the
//! name/version pair, first occurrence kept, in document order.

use vstd::prelude::*;
use vstd::string::StrSliceExecFns;
use vstd::string::StringExecFns;

use crate::error::{ParseError, SpecParseError};
use crate::layout::{spec_blank_run, yarn_line_ending};
use crate::literal::{Outcome, SpecStep, SpecStr};
use crate::package::{desc_view, PackageDescriptor, PackageType, SpecDescriptor};
use crate::position::{get_position, spec_column, spec_line};
use crate::structure::{
    entries_ok, find_entry, find_key, lemma_entries_ok, lemma_view_entries, spec_map, value_ok,
    view_entries, view_value, yarn_map, MapEntry, SpecValue, Value,
};

verus! {

/// First position at or after `i` holding `@`, or the end of the text.
pub open spec fn first_at(text: Seq<char>, i: int) -> int
    decreases text.len() - i,
{
    if 0 <= i < text.len() && text[i] != '@' {
        first_at(text, i + 1)
    } else {
        i
    }
}

/// The package name within a specifier key: after at most one leading
/// `@` (kept as part of the name), the text before the next `@`, which
/// introduces the version requirement.  A key with no name character
/// there, or with no such `@`, is malformed and has no name.
pub open spec fn spec_name(text: Seq<char>) -> Option<Seq<char>> {
    let start: int = if text.len() > 0 && text[0] == '@' {
        1int
    } else {
        0int
    };
    if start < text.len() && text[start] != '@' && first_at(text, start) < text.len() {
        Some(text.subrange(0, first_at(text, start)))
    } else {
        None
    }
}

/// Scan to the first `@` at or after `start`.
fn at_scan(s: &str, start: usize) -> (j: usize)
    requires
        start <= s@.len(),
    ensures
        j == first_at(s@, start as int),
        start <= j <= s@.len(),
{
    let n = s.unicode_len();
    let mut i = start;
    while i < n
        invariant
            start <= i <= n,
            n == s@.len(),
            first_at(s@, start as int) == first_at(s@, i as int),
        decreases n - i,
    {
        if s.get_char(i) == '@' {
            return i;
        }
        i = i + 1;
    }
    i
}

/// Extract the package name from a specifier key.
fn parse_name(text: &String) -> (r: Option<String>)
    ensures
        match r {
            Some(nm) => spec_name(text@) == Some(nm@),
            None => spec_name(text@) is None,
        },
{
    let s = text.as_str();
    let n = s.unicode_len();
    let start: usize = if n > 0 && s.get_char(0) == '@' {
        1
    } else {
        0
    };
    if start < n && s.get_char(start) != '@' {
        let e = at_scan(s, start);
        if e < n {
            Some(String::from_str(s.substring_char(0, e)))
        } else {
            None
        }
    } else {
        None
    }
}

/// Whether the list already holds a descriptor with this name/version
/// pair.
pub open spec fn desc_has_pair(
    ds: Seq<SpecDescriptor>,
    name: Seq<char>,
    version: Seq<char>,
) -> bool {
    exists|i: int| 0 <= i < ds.len() && (#[trigger] ds[i]).name == name && ds[i].version == version
}

/// No two descriptors share both name and version.
pub open spec fn unique_pairs(ds: Seq<SpecDescriptor>) -> bool {
    forall|i: int, j: int|
        0 <= i < j < ds.len() ==> !((#[trigger] ds[i]).name == (#[trigger] ds[j]).name
            && ds[i].version == ds[j].version)
}

/// Specification of the extraction pass from entry `k` on, with the
/// descriptors accumulated so far.
pub open spec fn spec_extract(
    input: Seq<char>,
    m: Seq<(SpecStr, SpecValue)>,
    k: int,
    acc: Seq<SpecDescriptor>,
) -> Result<Seq<SpecDescriptor>, SpecParseError>
    decreases m.len() - k,
{
    if !(0 <= k < m.len()) {
        Ok(acc)
    } else {
        let key = m[k].0;
        match spec_name(key.text) {
            None => Err(SpecParseError::InvalidSpecifier { specifier: key.text }),
            Some(name) => match m[k].1 {
                SpecValue::Str(lit) => Err(
                    SpecParseError::UnexpectedString {
                        literal: lit.text,
                        line: spec_line(input, lit.off),
                        column: spec_column(input, lit.off),
                    },
                ),
                SpecValue::Table(details) => {
                    let vi = find_key(details, "version"@);
                    if vi == -1 {
                        Err(
                            SpecParseError::MissingVersion {
                                specifier: key.text,
                                line: spec_line(input, key.off),
                                column: spec_column(input, key.off),
                            },
                        )
                    } else {
                        match details[vi].1 {
                            SpecValue::Str(vs) => {
                                let acc2 = if desc_has_pair(acc, name, vs.text) {
                                    acc
                                } else {
                                    acc.push(
                                        SpecDescriptor {
                                            name,
                                            version: vs.text,
                                            package_type: PackageType::Npm,
                                        },
                                    )
                                };
                                spec_extract(input, m, k + 1, acc2)
                            },
                            SpecValue::Table(_) => Err(
                                SpecParseError::UnexpectedMap {
                                    line: spec_line(input, details[vi].0.off),
                                    column: spec_column(input, details[vi].0.off),
                                },
                            ),
                        }
                    }
                },
            },
        }
    }
}

/// Specification of the whole parse: an optional leading blank run, a
/// map at level zero consuming the entire input, then extraction.
pub open spec fn spec_parse(input: Seq<char>) -> Result<Seq<SpecDescriptor>, SpecParseError> {
    let start = match spec_blank_run(input, 0) {
        Some(j) => j,
        None => 0,
    };
    match spec_map(input, start, 0) {
        SpecStep::Hard(e) => Err(
            SpecParseError::Syntax {
                expected: e.expected,
                line: spec_line(input, e.off),
                column: spec_column(input, e.off),
            },
        ),
        // a map production never mismatches softly: it matches zero entries
        SpecStep::Soft => Ok(Seq::empty()),
        SpecStep::Match { end: p, val: m } => if p == input.len() {
            spec_extract(input, m, 0, Seq::empty())
        } else {
            Err(
                SpecParseError::TrailingInput {
                    line: spec_line(input, p),
                    column: spec_column(input, p),
                },
            )
        },
    }
}

/// Extraction keeps the accumulated descriptor list free of repeated
/// name/version pairs.
proof fn lemma_extract_unique(
    input: Seq<char>,
    m: Seq<(SpecStr, SpecValue)>,
    k: int,
    acc: Seq<SpecDescriptor>,
)
    requires
        unique_pairs(acc),
    ensures
        spec_extract(input, m, k, acc) matches Ok(ds) ==> unique_pairs(ds),
    decreases m.len() - k,
{
    if 0 <= k < m.len() {
        let key = m[k].0;
        match spec_name(key.text) {
            None => {},
            Some(name) => match m[k].1 {
                SpecValue::Str(_) => {},
                SpecValue::Table(details) => {
                    let vi = find_key(details, "version"@);
                    if vi != -1 {
                        match details[vi].1 {
                            SpecValue::Str(vs) => {
                                let d = SpecDescriptor {
                                    name,
                                    version: vs.text,
                                    package_type: PackageType::Npm,
                                };
                                let acc2 = if desc_has_pair(acc, name, vs.text) {
                                    acc
                                } else {
                                    acc.push(d)
                                };
                                assert forall|i: int, j: int|
                                    0 <= i < j < acc2.len() implies !((#[trigger] acc2[i]).name
                                    == (#[trigger] acc2[j]).name && acc2[i].version
                                    == acc2[j].version) by {
                                    if j < acc.len() {
                                        assert(acc2[i] == acc[i]);
                                        assert(acc2[j] == acc[j]);
                                    } else {
                                        assert(acc2[i] == acc[i]);
                                        assert(acc2[j] == d);
                                        if acc[i].name == d.name && acc[i].version == d.version {
                                            assert(desc_has_pair(acc, name, vs.text));
                                        }
                                    }
                                }
                                lemma_extract_unique(input, m, k + 1, acc2);
                            },
                            SpecValue::Table(_) => {},
                        }
                    }
                },
            },
        }
    }
}

/// Uniqueness: no two descriptors of a successful parse share both
/// `name` and `version`.
pub proof fn lemma_parse_unique(input: Seq<char>)
    ensures
        spec_parse(input) matches Ok(ds) ==> unique_pairs(ds),
{
    let start = match spec_blank_run(input, 0) {
        Some(j) => j,
        None => 0,
    };
    match spec_map(input, start, 0) {
        SpecStep::Match { end: p, val: m } => {
            if p == input.len() {
                lemma_extract_unique(input, m, 0, Seq::empty());
            }
        },
        _ => {},
    }
}

/// Shape-mismatch diagnostic: where extraction reaches an entry whose
/// specifier is well-formed but whose value is a bare string, the result
/// is the unexpected-string error naming that literal's decoded text and
/// the 1-based position of its span.
pub proof fn lemma_unexpected_string(
    input: Seq<char>,
    m: Seq<(SpecStr, SpecValue)>,
    k: int,
    acc: Seq<SpecDescriptor>,
)
    requires
        0 <= k < m.len(),
        spec_name(m[k].0.text) is Some,
        m[k].1 is Str,
    ensures
        spec_extract(input, m, k, acc) == Err::<Seq<SpecDescriptor>, SpecParseError>(
            SpecParseError::UnexpectedString {
                literal: m[k].1->Str_0.text,
                line: spec_line(input, m[k].1->Str_0.off),
                column: spec_column(input, m[k].1->Str_0.off),
            },
        ),
{
}

/// Missing-version diagnostic: where extraction reaches an entry whose
/// specifier is well-formed and whose value is a map without a `version`
/// key, the result names the exact specifier text and the 1-based
/// position of the entry's key.
pub proof fn lemma_missing_version(
    input: Seq<char>,
    m: Seq<(SpecStr, SpecValue)>,
    k: int,
    acc: Seq<SpecDescriptor>,
)
    requires
        0 <= k < m.len(),
        spec_name(m[k].0.text) is Some,
        m[k].1 is Table,
        find_key(m[k].1->Table_0, "version"@) == -1,
    ensures
        spec_extract(input, m, k, acc) == Err::<Seq<SpecDescriptor>, SpecParseError>(
            SpecParseError::MissingVersion {
                specifier: m[k].0.text,
                line: spec_line(input, m[k].0.off),
                column: spec_column(input, m[k].0.off),
            },
        ),
{
}

/// Whether a parse result agrees with its specification.
pub open spec fn result_matches(
    r: Result<Vec<PackageDescriptor>, ParseError>,
    m: Result<Seq<SpecDescriptor>, SpecParseError>,
) -> bool {
    match (r, m) {
        (Ok(v), Ok(ds)) => desc_view(v@) == ds,
        (Err(e), Err(se)) => e@ == se,
        _ => false,
    }
}

/// Whether the list already holds a descriptor with this name/version
/// pair.
fn contains_pair(out: &Vec<PackageDescriptor>, name: &String, version: &String) -> (r: bool)
    ensures
        r == desc_has_pair(desc_view(out@), name@, version@),
{
    let n = out.len();
    let mut i: usize = 0;
    while i < n
        invariant
            i <= n,
            n == out@.len(),
            forall|j: int|
                0 <= j < i ==> !((#[trigger] desc_view(out@)[j]).name == name@
                    && desc_view(out@)[j].version == version@),
        decreases n - i,
    {
        if out[i].name == *name && out[i].version == *version {
            proof {
                assert(desc_view(out@)[i as int] == out@[i as int]@);
            }
            return true;
        }
        proof {
            assert(desc_view(out@)[i as int] == out@[i as int]@);
        }
        i = i + 1;
    }
    false
}

/// Walk the root map in source order, derive a descriptor from each
/// entry, validate the required shape, and deduplicate.
fn extract(input: &str, entries: &Vec<MapEntry>) -> (r: Result<Vec<PackageDescriptor>, ParseError>)
    requires
        input@.len() < usize::MAX,
        entries_ok(view_entries(entries@), input@.len() as int),
    ensures
        result_matches(r, spec_extract(input@, view_entries(entries@), 0, Seq::empty())),
        r matches Ok(v) ==> unique_pairs(desc_view(v@)),
{
    let ghost m = view_entries(entries@);
    let ghost n = input@.len() as int;
    proof {
        lemma_view_entries(entries@);
        lemma_entries_ok(m, n);
    }
    let vkey = String::from_str("version");
    let mut out: Vec<PackageDescriptor> = Vec::new();
    proof {
        assert(desc_view(out@) =~= Seq::<SpecDescriptor>::empty());
    }
    let mut k: usize = 0;
    while k < entries.len()
        invariant
            k <= entries@.len(),
            m == view_entries(entries@),
            n == input@.len() as int,
            n < usize::MAX,
            entries_ok(m, n),
            vkey@ == "version"@,
            spec_extract(input@, m, 0, Seq::empty()) == spec_extract(
                input@,
                m,
                k as int,
                desc_view(out@),
            ),
            unique_pairs(desc_view(out@)),
        decreases entries@.len() - k,
    {
        proof {
            lemma_view_entries(entries@);
            lemma_entries_ok(m, n);
            assert(m[k as int] == (entries@[k as int].key@, view_value(entries@[k as int].val)));
        }
        let ghost dv = desc_view(out@);
        match parse_name(&entries[k].key.text) {
            None => {
                return Err(
                    ParseError::InvalidSpecifier { specifier: entries[k].key.text.clone() },
                );
            },
            Some(name) => {
                match &entries[k].val {
                    Value::Str(lit) => {
                        proof {
                            assert(value_ok(m[k as int].1, n));
                        }
                        let (line, column) = get_position(input, lit.offset);
                        return Err(
                            ParseError::UnexpectedString { literal: lit.text.clone(), line, column },
                        );
                    },
                    Value::Table(details) => {
                        let ghost dm = view_entries(details@);
                        proof {
                            lemma_view_entries(details@);
                            assert(value_ok(m[k as int].1, n));
                            lemma_entries_ok(dm, n);
                        }
                        match find_entry(details, &vkey) {
                            None => {
                                let (line, column) = get_position(input, entries[k].key.offset);
                                return Err(
                                    ParseError::MissingVersion {
                                        specifier: entries[k].key.text.clone(),
                                        line,
                                        column,
                                    },
                                );
                            },
                            Some(vi) => {
                                proof {
                                    assert(dm[vi as int] == (
                                        details@[vi as int].key@,
                                        view_value(details@[vi as int].val),
                                    ));
                                }
                                match &details[vi].val {
                                    Value::Str(vs) => {
                                        let version = vs.text.clone();
                                        if !contains_pair(&out, &name, &version) {
                                            let d = PackageDescriptor {
                                                name,
                                                version,
                                                package_type: PackageType::Npm,
                                            };
                                            proof {
                                                assert(desc_view(out@.push(d)) =~= desc_view(
                                                    out@,
                                                ).push(d@));
                                            }
                                            out.push(d);
                                        }
                                    },
                                    Value::Table(_) => {
                                        let (line, column) = get_position(
                                            input,
                                            details[vi].key.offset,
                                        );
                                        return Err(ParseError::UnexpectedMap { line, column });
                                    },
                                }
                            },
                        }
                    },
                }
            },
        }
        k = k + 1;
    }
    Ok(out)
}

/// Parse a Yarn lockfile and extract its package descriptors.
///
/// The result is exactly [`spec_parse`] of the input text: the ordered
/// list of unique resolved packages, or the single positioned diagnostic
/// the parse or extraction stopped at.
pub fn parse(input: &str) -> (r: Result<Vec<PackageDescriptor>, ParseError>)
    requires
        input@.len() < usize::MAX,
    ensures
        result_matches(r, spec_parse(input@)),
        r matches Ok(v) ==> unique_pairs(desc_view(v@)),
{
    let n = input.unicode_len();
    let start = match yarn_line_ending(input, 0) {
        Some(j) => j,
        None => 0,
    };
    match yarn_map(input, start, 0) {
        Outcome::Hard(e) => {
            let (line, column) = get_position(input, e.offset);
            Err(ParseError::Syntax { expected: e.expected, line, column })
        },
        // a map production never mismatches softly; the assertion shows
        // this arm unreachable
        Outcome::Soft => {
            proof {
                assert(false);
            }
            Ok(Vec::new())
        },
        Outcome::Match(p, es) => {
            if p < n {
                let (line, column) = get_position(input, p);
                Err(ParseError::TrailingInput { line, column })
            } else {
                extract(input, &es)
            }
        },
    }
}

} // verus!
