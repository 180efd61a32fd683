//! The structural parser: the generic key/value tree and the
//! recursive-descent grammar that builds it.
//!
//! A tree node is either a string or an ordered map with unique keys.
//! Maps preserve insertion order; inserting under an existing key (same
//! decoded text) overwrites the value in place, keeping the first key and
//! its position.  Multi-key entries insert one independent copy of the
//! shared value per key.

use vstd::prelude::*;
use vstd::string::StrSliceExecFns;

use crate::layout::{
    eol_break_scan, eol_unit_break_pos, skip_spaces, spaces_scan, spec_blank_run, spec_indent,
    yarn_indent, yarn_line_ending,
};
use crate::literal::{
    str_ok, spec_literal, yarn_string, Expected, Outcome, SourceString, SpecStep, SpecStr,
    SpecSyntaxError, SyntaxError,
};

verus! {

/// One entry of a map node: a key and the value it maps to.
#[derive(Debug)]
pub struct MapEntry {
    pub key: SourceString,
    pub val: Value,
}

/// A node of the parsed document: a scalar string or an ordered map with
/// unique keys.
#[derive(Debug)]
pub enum Value {
    Str(SourceString),
    Table(Vec<MapEntry>),
}

/// Specification-level tree node.
#[verifier::ext_equal]
pub ghost enum SpecValue {
    Str(SpecStr),
    Table(Seq<(SpecStr, SpecValue)>),
}

/// Specification view of a tree node.
pub open spec fn view_value(v: Value) -> SpecValue
    decreases v,
{
    match v {
        Value::Str(ss) => SpecValue::Str(ss@),
        Value::Table(es) => SpecValue::Table(view_entries(es@)),
    }
}

/// Specification view of a map node's entries.
pub open spec fn view_entries(es: Seq<MapEntry>) -> Seq<(SpecStr, SpecValue)>
    decreases es,
{
    if es.len() == 0 {
        Seq::empty()
    } else {
        view_entries(es.subrange(0, es.len() - 1)).push(
            (es[es.len() - 1].key@, view_value(es[es.len() - 1].val)),
        )
    }
}

impl View for Value {
    type V = SpecValue;

    open spec fn view(&self) -> SpecValue {
        view_value(*self)
    }
}

/// The view of a map node's entries is pointwise.
pub proof fn lemma_view_entries(es: Seq<MapEntry>)
    ensures
        view_entries(es).len() == es.len(),
        forall|i: int|
            0 <= i < es.len() ==> #[trigger] view_entries(es)[i] == (
                es[i].key@,
                view_value(es[i].val),
            ),
    decreases es,
{
    if es.len() > 0 {
        let pre = es.subrange(0, es.len() - 1);
        lemma_view_entries(pre);
        assert forall|i: int|
            0 <= i < es.len() implies #[trigger] view_entries(es)[i] == (
            es[i].key@,
            view_value(es[i].val),
        ) by {
            if i < es.len() - 1 {
                assert(pre[i] == es[i]);
            }
        }
    }
}

/// Appending an entry appends its view.
pub proof fn lemma_view_entries_push(es: Seq<MapEntry>, e: MapEntry)
    ensures
        view_entries(es.push(e)) == view_entries(es).push((e.key@, view_value(e.val))),
{
    let full = es.push(e);
    assert(full.subrange(0, full.len() - 1) =~= es);
    assert(full[full.len() - 1] == e);
}

/// Replacing an entry replaces its view.
pub proof fn lemma_view_entries_update(es: Seq<MapEntry>, i: int, e: MapEntry)
    requires
        0 <= i < es.len(),
    ensures
        view_entries(es.update(i, e)) == view_entries(es).update(i, (e.key@, view_value(e.val))),
{
    lemma_view_entries(es);
    lemma_view_entries(es.update(i, e));
    assert(view_entries(es.update(i, e)) =~= view_entries(es).update(
        i,
        (e.key@, view_value(e.val)),
    ));
}

/// Index of the first entry whose key text is `text`, or `-1`.
pub open spec fn find_key(m: Seq<(SpecStr, SpecValue)>, text: Seq<char>) -> int
    decreases m.len(),
{
    if m.len() == 0 {
        -1
    } else if m[0].0.text == text {
        0
    } else {
        let r = find_key(m.subrange(1, m.len() as int), text);
        if r == -1 {
            -1
        } else {
            r + 1
        }
    }
}

/// `find_key` finds the first match, and only fails where no key matches.
pub proof fn lemma_find_key(m: Seq<(SpecStr, SpecValue)>, text: Seq<char>)
    ensures
        find_key(m, text) == -1 ==> (forall|j: int|
            0 <= j < m.len() ==> #[trigger] m[j].0.text != text),
        find_key(m, text) != -1 ==> 0 <= find_key(m, text) < m.len() && m[find_key(
            m,
            text,
        )].0.text == text && (forall|j: int|
            0 <= j < find_key(m, text) ==> #[trigger] m[j].0.text != text),
    decreases m.len(),
{
    if m.len() > 0 && m[0].0.text != text {
        let tail = m.subrange(1, m.len() as int);
        lemma_find_key(tail, text);
        let r = find_key(m, text);
        if r == -1 {
            assert forall|j: int| 0 <= j < m.len() implies #[trigger] m[j].0.text != text by {
                if j > 0 {
                    assert(tail[j - 1] == m[j]);
                    assert(tail[j - 1].0.text != text);
                }
            }
        } else {
            assert(tail[r - 1] == m[r]);
            assert forall|j: int| 0 <= j < r implies #[trigger] m[j].0.text != text by {
                if j > 0 {
                    assert(tail[j - 1] == m[j]);
                    assert(tail[j - 1].0.text != text);
                }
            }
        }
    }
}

/// Insert under one key: overwrite in place where the key text already
/// occurs (keeping the first key), append otherwise.
pub open spec fn insert_entry(
    m: Seq<(SpecStr, SpecValue)>,
    key: SpecStr,
    val: SpecValue,
) -> Seq<(SpecStr, SpecValue)> {
    let i = find_key(m, key.text);
    if i == -1 {
        m.push((key, val))
    } else {
        m.update(i, (m[i].0, val))
    }
}

/// Insert one shared value under each of several keys in turn.
pub open spec fn insert_keys(
    m: Seq<(SpecStr, SpecValue)>,
    keys: Seq<SpecStr>,
    val: SpecValue,
) -> Seq<(SpecStr, SpecValue)>
    decreases keys.len(),
{
    if keys.len() == 0 {
        m
    } else {
        insert_keys(insert_entry(m, keys[0], val), keys.subrange(1, keys.len() as int), val)
    }
}

/// Inserting under one more key is one more insertion.
pub proof fn lemma_insert_keys_snoc(
    m: Seq<(SpecStr, SpecValue)>,
    keys: Seq<SpecStr>,
    k: SpecStr,
    val: SpecValue,
)
    ensures
        insert_keys(m, keys.push(k), val) == insert_entry(insert_keys(m, keys, val), k, val),
    decreases keys.len(),
{
    let full = keys.push(k);
    if keys.len() == 0 {
        reveal_with_fuel(insert_keys, 3);
        assert(full.subrange(1, full.len() as int) =~= Seq::<SpecStr>::empty());
        assert(full[0] == k);
    } else {
        assert(full.subrange(1, full.len() as int) =~= keys.subrange(1, keys.len() as int).push(
            k,
        ));
        assert(full[0] == keys[0]);
        lemma_insert_keys_snoc(
            insert_entry(m, keys[0], val),
            keys.subrange(1, keys.len() as int),
            k,
            val,
        );
    }
}

/// All spans of a tree node lie within an input of `n` characters.
pub open spec fn value_ok(v: SpecValue, n: int) -> bool
    decreases v,
{
    match v {
        SpecValue::Str(ss) => str_ok(ss, n),
        SpecValue::Table(m) => entries_ok(m, n),
    }
}

/// All spans of a map's entries lie within an input of `n` characters.
pub open spec fn entries_ok(m: Seq<(SpecStr, SpecValue)>, n: int) -> bool
    decreases m,
{
    m.len() == 0 || (entries_ok(m.subrange(0, m.len() - 1), n) && str_ok(m[m.len() - 1].0, n)
        && value_ok(m[m.len() - 1].1, n))
}

/// Span validity of a map's entries is pointwise.
pub proof fn lemma_entries_ok(m: Seq<(SpecStr, SpecValue)>, n: int)
    ensures
        entries_ok(m, n) <==> (forall|i: int|
            0 <= i < m.len() ==> str_ok(#[trigger] m[i].0, n) && value_ok(m[i].1, n)),
    decreases m,
{
    if m.len() > 0 {
        let pre = m.subrange(0, m.len() - 1);
        lemma_entries_ok(pre, n);
        if entries_ok(m, n) {
            assert forall|i: int|
                0 <= i < m.len() implies str_ok(#[trigger] m[i].0, n) && value_ok(m[i].1, n) by {
                if i < m.len() - 1 {
                    assert(pre[i] == m[i]);
                    assert(str_ok(pre[i].0, n));
                    assert(value_ok(pre[i].1, n));
                }
            }
        }
        if forall|i: int| 0 <= i < m.len() ==> str_ok(#[trigger] m[i].0, n) && value_ok(m[i].1, n) {
            assert forall|i: int|
                0 <= i < pre.len() implies str_ok(#[trigger] pre[i].0, n) && value_ok(
                pre[i].1,
                n,
            ) by {
                assert(pre[i] == m[i]);
                assert(str_ok(m[i].0, n));
                assert(value_ok(m[i].1, n));
            }
            assert(entries_ok(pre, n));
            assert(str_ok(m[m.len() - 1].0, n));
            assert(value_ok(m[m.len() - 1].1, n));
        }
    }
}

/// Insertion preserves span validity.
pub proof fn lemma_insert_entry_ok(
    m: Seq<(SpecStr, SpecValue)>,
    key: SpecStr,
    val: SpecValue,
    n: int,
)
    requires
        entries_ok(m, n),
        str_ok(key, n),
        value_ok(val, n),
    ensures
        entries_ok(insert_entry(m, key, val), n),
{
    lemma_find_key(m, key.text);
    lemma_entries_ok(m, n);
    lemma_entries_ok(insert_entry(m, key, val), n);
}

/// Multi-key insertion preserves span validity.
pub proof fn lemma_insert_keys_ok(
    m: Seq<(SpecStr, SpecValue)>,
    keys: Seq<SpecStr>,
    val: SpecValue,
    n: int,
)
    requires
        entries_ok(m, n),
        forall|i: int| 0 <= i < keys.len() ==> str_ok(#[trigger] keys[i], n),
        value_ok(val, n),
    ensures
        entries_ok(insert_keys(m, keys, val), n),
    decreases keys.len(),
{
    if keys.len() > 0 {
        lemma_insert_entry_ok(m, keys[0], val, n);
        let tail = keys.subrange(1, keys.len() as int);
        assert(forall|i: int| 0 <= i < tail.len() ==> tail[i] == keys[i + 1]);
        lemma_insert_keys_ok(insert_entry(m, keys[0], val), tail, val, n);
    }
}

impl Value {
    /// Structural deep copy; the copy has the same view.
    pub fn duplicate(&self) -> (r: Value)
        ensures
            view_value(r) == view_value(*self),
        decreases *self,
    {
        match self {
            Value::Str(ss) => Value::Str(ss.duplicate()),
            Value::Table(es) => Value::Table(duplicate_entries(es)),
        }
    }
}

/// Structural deep copy of a map node's entries.
fn duplicate_entries(es: &Vec<MapEntry>) -> (r: Vec<MapEntry>)
    ensures
        view_entries(r@) == view_entries(es@),
    decreases es@,
{
    let mut out: Vec<MapEntry> = Vec::new();
    let mut i: usize = 0;
    while i < es.len()
        invariant
            i <= es.len(),
            view_entries(out@) == view_entries(es@.subrange(0, i as int)),
        decreases es@.len() - i,
    {
        proof {
            assert(decreases_to!(es@ => es@[i as int]));
            assert(decreases_to!(es@[i as int] => es@[i as int].val));
        }
        let key = es[i].key.duplicate();
        let val = es[i].val.duplicate();
        proof {
            let pre = es@.subrange(0, i as int);
            assert(es@.subrange(0, i + 1) =~= pre.push(es@[i as int]));
            lemma_view_entries_push(pre, es@[i as int]);
            lemma_view_entries_push(out@, MapEntry { key, val });
        }
        out.push(MapEntry { key, val });
        i = i + 1;
    }
    proof {
        assert(es@.subrange(0, es@.len() as int) =~= es@);
    }
    out
}

/// Find the index of the entry whose key text is `text`.
pub(crate) fn find_entry(entries: &Vec<MapEntry>, text: &String) -> (r: Option<usize>)
    ensures
        match r {
            Some(i) => find_key(view_entries(entries@), text@) == i && i < entries@.len(),
            None => find_key(view_entries(entries@), text@) == -1,
        },
{
    let ghost m0 = view_entries(entries@);
    let n = entries.len();
    let mut i: usize = 0;
    while i < n
        invariant
            i <= n,
            n == entries@.len(),
            m0 == view_entries(entries@),
            forall|j: int| 0 <= j < i ==> #[trigger] entries@[j].key.text@ != text@,
        decreases n - i,
    {
        if entries[i].key.text == *text {
            proof {
                lemma_view_entries(entries@);
                assert(m0[i as int].0.text == text@);
                assert forall|j: int| 0 <= j < i implies #[trigger] m0[j].0.text != text@ by {
                    assert(m0[j] == (entries@[j].key@, view_value(entries@[j].val)));
                }
                lemma_find_key(m0, text@);
            }
            return Some(i);
        }
        i = i + 1;
    }
    proof {
        lemma_view_entries(entries@);
        assert forall|j: int| 0 <= j < m0.len() implies #[trigger] m0[j].0.text != text@ by {
            assert(m0[j] == (entries@[j].key@, view_value(entries@[j].val)));
        }
        lemma_find_key(m0, text@);
    }
    None
}

/// Insert `val` under `key`: overwrite in place where the key text
/// already occurs (keeping the first key), append otherwise.
fn map_insert(entries: &mut Vec<MapEntry>, key: SourceString, val: Value)
    ensures
        view_entries(final(entries)@) == insert_entry(
            view_entries(old(entries)@),
            key@,
            view_value(val),
        ),
{
    proof {
        lemma_view_entries(old(entries)@);
    }
    match find_entry(entries, &key.text) {
        Some(i) => {
            let orig = entries[i].key.duplicate();
            let e = MapEntry { key: orig, val };
            proof {
                lemma_view_entries_update(entries@, i as int, e);
            }
            entries.set(i, e);
        },
        None => {
            let e = MapEntry { key, val };
            proof {
                lemma_view_entries_push(entries@, e);
            }
            entries.push(e);
        },
    }
}

/// Specification view of a sequence of parsed keys.
pub open spec fn keys_view(ks: Seq<SourceString>) -> Seq<SpecStr> {
    ks.map_values(|k: SourceString| k@)
}

/// Whether a keys-parse outcome agrees with its specification.
pub open spec fn keys_matches(r: Outcome<Vec<SourceString>>, m: SpecStep<Seq<SpecStr>>) -> bool {
    match (r, m) {
        (Outcome::Match(p, ks), SpecStep::Match { end, val }) => p as int == end && keys_view(ks@)
            == val,
        (Outcome::Soft, SpecStep::Soft) => true,
        (Outcome::Hard(e), SpecStep::Hard(se)) => e@ == se,
        _ => false,
    }
}

/// Whether a map-parse outcome agrees with its specification.
pub open spec fn table_matches(
    r: Outcome<Vec<MapEntry>>,
    m: SpecStep<Seq<(SpecStr, SpecValue)>>,
) -> bool {
    match (r, m) {
        (Outcome::Match(p, es), SpecStep::Match { end, val }) => p as int == end && view_entries(
            es@,
        ) == val,
        (Outcome::Soft, SpecStep::Soft) => true,
        (Outcome::Hard(e), SpecStep::Hard(se)) => e@ == se,
        _ => false,
    }
}

/// Whether a value-parse outcome agrees with its specification.
pub open spec fn value_matches(r: Outcome<Value>, m: SpecStep<SpecValue>) -> bool {
    match (r, m) {
        (Outcome::Match(p, v), SpecStep::Match { end, val }) => p as int == end && view_value(v)
            == val,
        (Outcome::Soft, SpecStep::Soft) => true,
        (Outcome::Hard(e), SpecStep::Hard(se)) => e@ == se,
        _ => false,
    }
}

/// Whether an entry-parse outcome agrees with its specification.
pub open spec fn entry_matches(
    r: Outcome<(Vec<SourceString>, Value)>,
    m: SpecStep<(Seq<SpecStr>, SpecValue)>,
) -> bool {
    match (r, m) {
        (Outcome::Match(p, kv), SpecStep::Match { end, val }) => p as int == end && keys_view(
            kv.0@,
        ) == val.0 && view_value(kv.1) == val.1,
        (Outcome::Soft, SpecStep::Soft) => true,
        (Outcome::Hard(e), SpecStep::Hard(se)) => e@ == se,
        _ => false,
    }
}

/// Further keys of a multi-key entry: a comma, optional horizontal
/// whitespace and a literal, repeated; a failing literal backtracks to
/// before its comma.
pub open spec fn spec_keys_more(s: Seq<char>, i: int, acc: Seq<SpecStr>) -> SpecStep<Seq<SpecStr>>
    decreases s.len() - i,
{
    if 0 <= i < s.len() && s[i] == ',' {
        let k = skip_spaces(s, i + 1);
        match spec_literal(s, k) {
            // a literal always consumes input; the bound keeps the
            // recursion well-founded
            SpecStep::Match { end: e, val: l } => if i < e <= s.len() {
                spec_keys_more(s, e, acc.push(l))
            } else {
                SpecStep::Match { end: i, val: acc }
            },
            SpecStep::Soft => SpecStep::Match { end: i, val: acc },
            SpecStep::Hard(h) => SpecStep::Hard(h),
        }
    } else {
        SpecStep::Match { end: i, val: acc }
    }
}

/// Specification of a multi-key entry head: one or more literals
/// separated by commas with optional trailing whitespace.
pub open spec fn spec_map_keys(s: Seq<char>, i: int) -> SpecStep<Seq<SpecStr>> {
    match spec_literal(s, i) {
        SpecStep::Match { end: j, val: l } => spec_keys_more(s, j, seq![l]),
        SpecStep::Soft => SpecStep::Soft,
        SpecStep::Hard(h) => SpecStep::Hard(h),
    }
}

/// Specification of a map at indentation level `lvl`, folding entries
/// into `acc`.  A soft entry mismatch ends the map; a hard failure
/// aborts.
pub open spec fn spec_map_acc(
    s: Seq<char>,
    i: int,
    lvl: nat,
    acc: Seq<(SpecStr, SpecValue)>,
) -> SpecStep<Seq<(SpecStr, SpecValue)>>
    decreases s.len() - i, 3int,
{
    match spec_entry(s, i, lvl) {
        SpecStep::Soft => SpecStep::Match { end: i, val: acc },
        SpecStep::Hard(h) => SpecStep::Hard(h),
        // an entry always consumes input; the bound keeps the recursion
        // well-founded
        SpecStep::Match { end: j, val: kv } => if i < j <= s.len() {
            spec_map_acc(s, j, lvl, insert_keys(acc, kv.0, kv.1))
        } else {
            SpecStep::Match { end: i, val: acc }
        },
    }
}

/// Specification of a map at indentation level `lvl`.
pub open spec fn spec_map(s: Seq<char>, i: int, lvl: nat) -> SpecStep<Seq<(SpecStr, SpecValue)>> {
    spec_map_acc(s, i, lvl, Seq::empty())
}

/// Specification of one map entry: indentation, keys, then the entry's
/// value.
pub open spec fn spec_entry(s: Seq<char>, i: int, lvl: nat) -> SpecStep<(Seq<SpecStr>, SpecValue)>
    decreases s.len() - i, 2int,
{
    match spec_indent(s, i, lvl) {
        None => SpecStep::Soft,
        Some(j) => match spec_map_keys(s, j) {
            SpecStep::Soft => SpecStep::Soft,
            SpecStep::Hard(h) => SpecStep::Hard(h),
            // keys end within the input; the bound keeps the recursion
            // well-founded
            SpecStep::Match { end: k, val: keys } => if i <= k <= s.len() {
                match spec_map_value(s, k, lvl) {
                    SpecStep::Soft => SpecStep::Soft,
                    SpecStep::Hard(h) => SpecStep::Hard(h),
                    SpecStep::Match { end: e, val: v } => SpecStep::Match {
                        end: e,
                        val: (keys, v),
                    },
                }
            } else {
                SpecStep::Soft
            },
        },
    }
}

/// Specification of a map entry's value.  A colon commits to a nested
/// block (a failing end of line is then a hard failure); otherwise an
/// inline scalar on the same line is tried, then a bare indented block.
pub open spec fn spec_map_value(s: Seq<char>, i: int, lvl: nat) -> SpecStep<SpecValue>
    decreases s.len() - i, 1int,
{
    if 0 <= i < s.len() && s[i] == ':' {
        match spec_blank_run(s, i + 1) {
            None => SpecStep::Hard(
                SpecSyntaxError { off: eol_unit_break_pos(s, i + 1), expected: Expected::LineBreak },
            ),
            // the colon was consumed; the bound keeps the recursion
            // well-founded
            Some(j) => if i < j <= s.len() {
                spec_multiline(s, j, (lvl + 1) as nat)
            } else {
                SpecStep::Soft
            },
        }
    } else {
        let j = skip_spaces(s, i);
        match spec_literal(s, j) {
            SpecStep::Hard(h) => SpecStep::Hard(h),
            SpecStep::Match { end: e, val: l } => match spec_blank_run(s, e) {
                Some(f) => SpecStep::Match { end: f, val: SpecValue::Str(l) },
                None => spec_map_value_block(s, i, lvl),
            },
            SpecStep::Soft => spec_map_value_block(s, i, lvl),
        }
    }
}

/// Specification of a bare-key block value: a blank run, then a nested
/// value one level deeper.  A blank run that consumes nothing marks end
/// of input, where the nested value is an empty map.
pub open spec fn spec_map_value_block(s: Seq<char>, i: int, lvl: nat) -> SpecStep<SpecValue>
    decreases s.len() - i, 0int,
{
    match spec_blank_run(s, i) {
        None => SpecStep::Soft,
        // a blank run that consumed nothing marks end of input, where a
        // nested value is an empty map; otherwise the bound keeps the
        // recursion well-founded
        Some(j) => if j == i {
            SpecStep::Match { end: i, val: SpecValue::Table(Seq::empty()) }
        } else if i < j <= s.len() {
            spec_multiline(s, j, (lvl + 1) as nat)
        } else {
            SpecStep::Soft
        },
    }
}

/// Specification of a value that follows a line break: a block-form
/// scalar (indentation, literal, blank run) or a nested map.
pub open spec fn spec_multiline(s: Seq<char>, i: int, lvl: nat) -> SpecStep<SpecValue>
    decreases s.len() - i, 4int,
{
    match spec_indent(s, i, lvl) {
        Some(j) => match spec_literal(s, j) {
            SpecStep::Hard(h) => SpecStep::Hard(h),
            SpecStep::Match { end: e, val: l } => match spec_blank_run(s, e) {
                Some(f) => SpecStep::Match { end: f, val: SpecValue::Str(l) },
                None => map_of(spec_map_acc(s, i, lvl, Seq::empty())),
            },
            SpecStep::Soft => map_of(spec_map_acc(s, i, lvl, Seq::empty())),
        },
        None => map_of(spec_map_acc(s, i, lvl, Seq::empty())),
    }
}

/// Wrap a map-parse step as a value-parse step.
pub open spec fn map_of(m: SpecStep<Seq<(SpecStr, SpecValue)>>) -> SpecStep<SpecValue> {
    match m {
        SpecStep::Match { end, val } => SpecStep::Match { end, val: SpecValue::Table(val) },
        SpecStep::Soft => SpecStep::Soft,
        SpecStep::Hard(h) => SpecStep::Hard(h),
    }
}

/// Parse the remaining keys of a multi-key entry.
fn keys_more(input: &str, pos: usize, acc: Vec<SourceString>) -> (r: Outcome<Vec<SourceString>>)
    requires
        pos <= input@.len(),
        forall|i: int| 0 <= i < acc@.len() ==> str_ok(#[trigger] acc@[i]@, input@.len() as int),
    ensures
        keys_matches(r, spec_keys_more(input@, pos as int, keys_view(acc@))),
        r matches Outcome::Match(p, ks) ==> pos <= p <= input@.len() && (forall|i: int|
            0 <= i < ks@.len() ==> str_ok(#[trigger] ks@[i]@, input@.len() as int)),
        r matches Outcome::Hard(e) ==> e.offset <= input@.len(),
    decreases input@.len() - pos,
{
    let n = input.unicode_len();
    if pos < n && input.get_char(pos) == ',' {
        let k = spaces_scan(input, pos + 1);
        match yarn_string(input, k) {
            Outcome::Match(e, l) => {
                let mut acc = acc;
                proof {
                    assert(keys_view(acc@.push(l)) =~= keys_view(acc@).push(l@));
                }
                acc.push(l);
                keys_more(input, e, acc)
            },
            Outcome::Soft => Outcome::Match(pos, acc),
            Outcome::Hard(h) => Outcome::Hard(h),
        }
    } else {
        Outcome::Match(pos, acc)
    }
}

/// Parse the keys of one map entry: one or more literals separated by
/// commas (a value may have several keys).
pub fn yarn_map_keys(input: &str, pos: usize) -> (r: Outcome<Vec<SourceString>>)
    requires
        pos <= input@.len(),
    ensures
        keys_matches(r, spec_map_keys(input@, pos as int)),
        r matches Outcome::Match(p, ks) ==> pos < p <= input@.len() && (forall|i: int|
            0 <= i < ks@.len() ==> str_ok(#[trigger] ks@[i]@, input@.len() as int)),
        r matches Outcome::Hard(e) ==> e.offset <= input@.len(),
{
    match yarn_string(input, pos) {
        Outcome::Soft => Outcome::Soft,
        Outcome::Hard(h) => Outcome::Hard(h),
        Outcome::Match(j, l) => {
            let mut ks: Vec<SourceString> = Vec::new();
            proof {
                assert(keys_view(ks@.push(l)) =~= seq![l@]);
            }
            ks.push(l);
            keys_more(input, j, ks)
        },
    }
}

/// Insert one shared value under each key in turn, one independent copy
/// per key.
fn insert_all(entries: &mut Vec<MapEntry>, keys: &Vec<SourceString>, val: Value)
    ensures
        view_entries(final(entries)@) == insert_keys(
            view_entries(old(entries)@),
            keys_view(keys@),
            view_value(val),
        ),
{
    let ghost m0 = view_entries(old(entries)@);
    let ghost vv = view_value(val);
    let mut i: usize = 0;
    while i < keys.len()
        invariant
            i <= keys@.len(),
            vv == view_value(val),
            view_entries(entries@) == insert_keys(
                m0,
                keys_view(keys@).subrange(0, i as int),
                vv,
            ),
        decreases keys@.len() - i,
    {
        let ghost kp = keys_view(keys@).subrange(0, i as int);
        let key = keys[i].duplicate();
        let copy = val.duplicate();
        map_insert(entries, key, copy);
        proof {
            lemma_insert_keys_snoc(m0, kp, keys@[i as int]@, vv);
            assert(keys_view(keys@).subrange(0, i + 1) =~= kp.push(keys@[i as int]@));
        }
        i = i + 1;
    }
    proof {
        assert(keys_view(keys@).subrange(0, keys@.len() as int) =~= keys_view(keys@));
    }
}

/// Parse one map entry: indentation, keys, then the entry's value.
fn entry_at(input: &str, pos: usize, lvl: usize) -> (r: Outcome<(Vec<SourceString>, Value)>)
    requires
        pos <= input@.len(),
    ensures
        entry_matches(r, spec_entry(input@, pos as int, lvl as nat)),
        r matches Outcome::Match(p, kv) ==> pos < p <= input@.len() && (forall|i: int|
            0 <= i < kv.0@.len() ==> str_ok(#[trigger] kv.0@[i]@, input@.len() as int))
            && value_ok(view_value(kv.1), input@.len() as int),
        r matches Outcome::Hard(e) ==> e.offset <= input@.len(),
    decreases input@.len() - pos, 2int,
{
    match yarn_indent(input, pos, lvl) {
        None => Outcome::Soft,
        Some(j) => {
            proof {
                // the matched indentation holds two characters per level,
                // so one more level is still representable
                assert(2 * (lvl as int) <= j as int);
                assert(lvl < usize::MAX);
            }
            match yarn_map_keys(input, j) {
                Outcome::Soft => Outcome::Soft,
                Outcome::Hard(h) => Outcome::Hard(h),
                Outcome::Match(k, keys) => match yarn_map_value(input, k, lvl) {
                    Outcome::Soft => Outcome::Soft,
                    Outcome::Hard(h) => Outcome::Hard(h),
                    Outcome::Match(e, v) => Outcome::Match(e, (keys, v)),
                },
            }
        },
    }
}

/// Parse map entries at indentation level `lvl`, folding them into
/// `acc`.
fn map_rec(input: &str, pos: usize, lvl: usize, acc: Vec<MapEntry>) -> (r: Outcome<Vec<MapEntry>>)
    requires
        pos <= input@.len(),
        entries_ok(view_entries(acc@), input@.len() as int),
    ensures
        table_matches(r, spec_map_acc(input@, pos as int, lvl as nat, view_entries(acc@))),
        r matches Outcome::Match(p, es) ==> pos <= p <= input@.len() && entries_ok(
            view_entries(es@),
            input@.len() as int,
        ),
        r matches Outcome::Hard(e) ==> e.offset <= input@.len(),
        !(r is Soft),
    decreases input@.len() - pos, 3int,
{
    match entry_at(input, pos, lvl) {
        Outcome::Soft => Outcome::Match(pos, acc),
        Outcome::Hard(h) => Outcome::Hard(h),
        Outcome::Match(j, kv) => {
            let (keys, v) = kv;
            let ghost n = input@.len() as int;
            let mut acc = acc;
            proof {
                lemma_insert_keys_ok(view_entries(acc@), keys_view(keys@), view_value(v), n);
            }
            insert_all(&mut acc, &keys, v);
            map_rec(input, j, lvl, acc)
        },
    }
}

/// Parse a map: a greedy repetition of zero or more entries, each with
/// exactly `indentation` pairs of leading spaces.
pub fn yarn_map(input: &str, pos: usize, indentation: usize) -> (r: Outcome<Vec<MapEntry>>)
    requires
        pos <= input@.len(),
    ensures
        table_matches(r, spec_map(input@, pos as int, indentation as nat)),
        r matches Outcome::Match(p, es) ==> pos <= p <= input@.len() && entries_ok(
            view_entries(es@),
            input@.len() as int,
        ),
        r matches Outcome::Hard(e) ==> e.offset <= input@.len(),
        !(r is Soft),
{
    let empty: Vec<MapEntry> = Vec::new();
    proof {
        assert(view_entries(empty@) =~= Seq::<(SpecStr, SpecValue)>::empty());
    }
    map_rec(input, pos, indentation, empty)
}

/// Parse a map entry's value, starting immediately after the keys.
///
/// The value of an entry at level `indentation` may open a block one
/// level deeper, so that next level must still be representable.
pub fn yarn_map_value(input: &str, pos: usize, indentation: usize) -> (r: Outcome<Value>)
    requires
        pos <= input@.len(),
        indentation < usize::MAX,
    ensures
        value_matches(r, spec_map_value(input@, pos as int, indentation as nat)),
        r matches Outcome::Match(p, v) ==> pos <= p <= input@.len() && value_ok(
            view_value(v),
            input@.len() as int,
        ),
        r matches Outcome::Hard(e) ==> e.offset <= input@.len(),
    decreases input@.len() - pos, 1int,
{
    let n = input.unicode_len();
    if pos < n && input.get_char(pos) == ':' {
        match yarn_line_ending(input, pos + 1) {
            None => {
                let off = eol_break_scan(input, pos + 1);
                Outcome::Hard(SyntaxError { offset: off, expected: Expected::LineBreak })
            },
            Some(j) => yarn_multiline_value(input, j, indentation + 1),
        }
    } else {
        let j = spaces_scan(input, pos);
        match yarn_string(input, j) {
            Outcome::Hard(h) => {
                return Outcome::Hard(h);
            },
            Outcome::Match(e, l) => {
                match yarn_line_ending(input, e) {
                    Some(f) => {
                        return Outcome::Match(f, Value::Str(l));
                    },
                    None => {},
                }
            },
            Outcome::Soft => {},
        }
        match yarn_line_ending(input, pos) {
            None => Outcome::Soft,
            Some(j2) => if j2 == pos {
                let empty: Vec<MapEntry> = Vec::new();
                proof {
                    assert(view_entries(empty@) =~= Seq::<(SpecStr, SpecValue)>::empty());
                }
                Outcome::Match(pos, Value::Table(empty))
            } else {
                yarn_multiline_value(input, j2, indentation + 1)
            },
        }
    }
}

/// Parse a value that follows a line break: a block-form scalar or a
/// nested map, at the given indentation level.
pub fn yarn_multiline_value(input: &str, pos: usize, indentation: usize) -> (r: Outcome<Value>)
    requires
        pos <= input@.len(),
    ensures
        value_matches(r, spec_multiline(input@, pos as int, indentation as nat)),
        r matches Outcome::Match(p, v) ==> pos <= p <= input@.len() && value_ok(
            view_value(v),
            input@.len() as int,
        ),
        r matches Outcome::Hard(e) ==> e.offset <= input@.len(),
        !(r is Soft),
    decreases input@.len() - pos, 4int,
{
    match yarn_indent(input, pos, indentation) {
        Some(j) => {
            match yarn_string(input, j) {
                Outcome::Hard(h) => {
                    return Outcome::Hard(h);
                },
                Outcome::Match(e, l) => {
                    match yarn_line_ending(input, e) {
                        Some(f) => {
                            return Outcome::Match(f, Value::Str(l));
                        },
                        None => {},
                    }
                },
                Outcome::Soft => {},
            }
        },
        None => {},
    }
    let empty: Vec<MapEntry> = Vec::new();
    proof {
        assert(view_entries(empty@) =~= Seq::<(SpecStr, SpecValue)>::empty());
    }
    match map_rec(input, pos, indentation, empty) {
        Outcome::Match(p, es) => Outcome::Match(p, Value::Table(es)),
        Outcome::Hard(h) => Outcome::Hard(h),
        Outcome::Soft => Outcome::Soft,
    }
}

} // verus!
