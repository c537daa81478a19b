//! JSON-compatible field values, an insertion-ordered field map, and exact
//! JSON rendering: decimal and fixed-width hex numerals, string escaping,
//! and one-line object serialization.

use vstd::prelude::*;
use crate::text::{push_str_chars, str_eq};

verus! {

/// A JSON-compatible field value carried by an event or a span.
#[derive(Debug)]
pub enum JsonValue {
    Null,
    Bool(bool),
    Int(i64),
    Uint(u64),
    Str(String),
}

/// The mathematical model of a [`JsonValue`]: signed and unsigned integers
/// collapse into one unbounded integer, strings into character sequences.
pub ghost enum JVal {
    Null,
    Bool(bool),
    Int(int),
    Str(Seq<char>),
}

impl JsonValue {
    /// The model of this value.
    pub open spec fn model(self) -> JVal {
        match self {
            JsonValue::Null => JVal::Null,
            JsonValue::Bool(b) => JVal::Bool(b),
            JsonValue::Int(i) => JVal::Int(i as int),
            JsonValue::Uint(u) => JVal::Int(u as int),
            JsonValue::Str(s) => JVal::Str(s@),
        }
    }

    /// A copy of this value with the same model.
    pub fn duplicate(&self) -> (r: JsonValue)
        ensures
            r.model() == self.model(),
    {
        match self {
            JsonValue::Null => JsonValue::Null,
            JsonValue::Bool(b) => JsonValue::Bool(*b),
            JsonValue::Int(i) => JsonValue::Int(*i),
            JsonValue::Uint(u) => JsonValue::Uint(*u),
            JsonValue::Str(s) => JsonValue::Str(s.clone()),
        }
    }
}

/// The decimal digit for `d` (0 to 9).
pub open spec fn digit_char(d: nat) -> char {
    if d == 0 { '0' } else if d == 1 { '1' } else if d == 2 { '2' }
    else if d == 3 { '3' } else if d == 4 { '4' } else if d == 5 { '5' }
    else if d == 6 { '6' } else if d == 7 { '7' } else if d == 8 { '8' }
    else { '9' }
}

/// The lowercase hex digit for `d` (0 to 15).
pub open spec fn hex_digit_char(d: nat) -> char {
    if d < 10 { digit_char(d) }
    else if d == 10 { 'a' } else if d == 11 { 'b' } else if d == 12 { 'c' }
    else if d == 13 { 'd' } else if d == 14 { 'e' } else { 'f' }
}

/// The decimal numeral of `n`, most significant digit first, no leading zeros.
pub open spec fn dec_nat(n: nat) -> Seq<char>
    decreases n,
{
    if n < 10 {
        seq![digit_char(n)]
    } else {
        dec_nat(n / 10).push(digit_char(n % 10))
    }
}

/// The decimal numeral of `i`, with a leading `-` when negative.
pub open spec fn dec_int(i: int) -> Seq<char> {
    if i < 0 {
        seq!['-'] + dec_nat((-i) as nat)
    } else {
        dec_nat(i as nat)
    }
}

/// The lowercase hex numeral of `n`, zero-padded to exactly `width` digits.
pub open spec fn hex_pad(n: nat, width: nat) -> Seq<char>
    decreases width,
{
    if width == 0 {
        Seq::empty()
    } else {
        hex_pad(n / 16, (width - 1) as nat).push(hex_digit_char(n % 16))
    }
}

/// How one character appears inside a JSON string: quote and backslash are
/// backslash-escaped, the named control characters use their short escapes,
/// the remaining control characters use `\u00..`, everything else stands as
/// itself.
pub open spec fn escape_char(c: char) -> Seq<char> {
    if c == '"' { seq!['\\', '"'] }
    else if c == '\\' { seq!['\\', '\\'] }
    else if c == '\u{8}' { seq!['\\', 'b'] }
    else if c == '\t' { seq!['\\', 't'] }
    else if c == '\n' { seq!['\\', 'n'] }
    else if c == '\u{c}' { seq!['\\', 'f'] }
    else if c == '\r' { seq!['\\', 'r'] }
    else if (c as u32) < 0x20 {
        seq!['\\', 'u', '0', '0',
            hex_digit_char((c as u32 / 16) as nat),
            hex_digit_char((c as u32 % 16) as nat)]
    } else {
        seq![c]
    }
}

/// The body of a JSON string: every character escaped per [`escape_char`].
pub open spec fn escape_seq(s: Seq<char>) -> Seq<char>
    decreases s.len(),
{
    if s.len() == 0 {
        Seq::empty()
    } else {
        escape_seq(s.drop_last()) + escape_char(s.last())
    }
}

/// A JSON string literal: quoted, escaped.
pub open spec fn json_string(s: Seq<char>) -> Seq<char> {
    seq!['"'] + escape_seq(s) + seq!['"']
}

/// The JSON rendering of one model value.
pub open spec fn render_jval(v: JVal) -> Seq<char> {
    match v {
        JVal::Null => "null"@,
        JVal::Bool(b) => if b { "true"@ } else { "false"@ },
        JVal::Int(i) => dec_int(i),
        JVal::Str(s) => json_string(s),
    }
}

/// One `"key":value` pair.
pub open spec fn render_entry(e: (Seq<char>, JVal)) -> Seq<char> {
    json_string(e.0) + seq![':'] + render_jval(e.1)
}

/// Comma-joined `"key":value` pairs, in sequence order.
pub open spec fn render_entries(m: Seq<(Seq<char>, JVal)>) -> Seq<char>
    decreases m.len(),
{
    if m.len() == 0 {
        Seq::empty()
    } else if m.len() == 1 {
        render_entry(m[0])
    } else {
        render_entries(m.drop_last()) + seq![','] + render_entry(m.last())
    }
}

/// A JSON object holding the entries of `m` in sequence order.
pub open spec fn render_object(m: Seq<(Seq<char>, JVal)>) -> Seq<char> {
    seq!['{'] + render_entries(m) + seq!['}']
}

/// The decimal digit character for `d`.
fn digit10(d: u64) -> (c: char)
    requires
        d < 10,
    ensures
        c == digit_char(d as nat),
{
    match d {
        0 => '0', 1 => '1', 2 => '2', 3 => '3', 4 => '4',
        5 => '5', 6 => '6', 7 => '7', 8 => '8', _ => '9',
    }
}

/// The lowercase hex digit character for `d`.
fn digit16(d: u64) -> (c: char)
    requires
        d < 16,
    ensures
        c == hex_digit_char(d as nat),
{
    if d < 10 {
        digit10(d)
    } else {
        match d {
            10 => 'a', 11 => 'b', 12 => 'c', 13 => 'd', 14 => 'e', _ => 'f',
        }
    }
}

/// The decimal numeral of `n`.
pub fn u64_dec_chars(n: u64) -> (v: Vec<char>)
    ensures
        v@ == dec_nat(n as nat),
    decreases n,
{
    if n < 10 {
        let mut v: Vec<char> = Vec::new();
        v.push(digit10(n));
        proof {
            assert(v@ =~= dec_nat(n as nat));
        }
        v
    } else {
        let mut v = u64_dec_chars(n / 10);
        v.push(digit10(n % 10));
        v
    }
}

/// The decimal numeral of `i`, with a leading `-` when negative.
pub fn i64_dec_chars(i: i64) -> (v: Vec<char>)
    ensures
        v@ == dec_int(i as int),
{
    if i >= 0 {
        u64_dec_chars(i as u64)
    } else {
        let wide: i128 = -(i as i128);
        let mag: u64 = wide as u64;
        let mut v: Vec<char> = Vec::new();
        v.push('-');
        let mut digits = u64_dec_chars(mag);
        v.append(&mut digits);
        proof {
            assert(v@ =~= dec_int(i as int));
        }
        v
    }
}

/// The lowercase hex numeral of `n`, zero-padded to `width` digits.
pub fn u128_hex_chars(n: u128, width: u64) -> (v: Vec<char>)
    ensures
        v@ == hex_pad(n as nat, width as nat),
    decreases width,
{
    if width == 0 {
        Vec::new()
    } else {
        let mut v = u128_hex_chars(n / 16, width - 1);
        let low: u64 = (n % 16) as u64;
        v.push(digit16(low));
        v
    }
}

/// Appends the escaped, quoted JSON string for `s` to `out`.
pub fn push_json_string(out: &mut Vec<char>, s: &str)
    ensures
        final(out)@ == old(out)@ + json_string(s@),
{
    out.push('"');
    let n = s.unicode_len();
    let mut i: usize = 0;
    while i < n
        invariant
            n == s@.len(),
            i <= n,
            out@ == old(out)@ + seq!['"'] + escape_seq(s@.take(i as int)),
        decreases n - i,
    {
        let c = s.get_char(i);
        let code: u32 = c as u32;
        if c == '"' {
            out.push('\\');
            out.push('"');
        } else if c == '\\' {
            out.push('\\');
            out.push('\\');
        } else if c == '\u{8}' {
            out.push('\\');
            out.push('b');
        } else if c == '\t' {
            out.push('\\');
            out.push('t');
        } else if c == '\n' {
            out.push('\\');
            out.push('n');
        } else if c == '\u{c}' {
            out.push('\\');
            out.push('f');
        } else if c == '\r' {
            out.push('\\');
            out.push('r');
        } else if code < 0x20 {
            out.push('\\');
            out.push('u');
            out.push('0');
            out.push('0');
            out.push(digit16((code / 16) as u64));
            out.push(digit16((code % 16) as u64));
        } else {
            out.push(c);
        }
        i = i + 1;
        proof {
            assert(s@.take(i as int).drop_last() =~= s@.take(i - 1));
            assert(s@.take(i as int).last() == s@[i - 1]);
            assert(out@ =~= old(out)@ + seq!['"'] + escape_seq(s@.take(i as int)));
        }
    }
    out.push('"');
    proof {
        assert(s@.take(n as int) =~= s@);
        assert(out@ =~= old(out)@ + json_string(s@));
    }
}

/// Appends the JSON rendering of `v` to `out`.
pub fn push_json_value(out: &mut Vec<char>, v: &JsonValue)
    ensures
        final(out)@ == old(out)@ + render_jval(v.model()),
{
    match v {
        JsonValue::Null => {
            push_str_chars(out, "null");
        },
        JsonValue::Bool(b) => {
            if *b {
                push_str_chars(out, "true");
            } else {
                push_str_chars(out, "false");
            }
        },
        JsonValue::Int(i) => {
            let mut digits = i64_dec_chars(*i);
            out.append(&mut digits);
        },
        JsonValue::Uint(u) => {
            let mut digits = u64_dec_chars(*u);
            out.append(&mut digits);
        },
        JsonValue::Str(s) => {
            push_json_string(out, s.as_str());
        },
    }
}

/// An insertion-ordered mapping from field names to values. Inserting an
/// already-present key overwrites the value in place, keeping the key's
/// original position.
#[derive(Debug)]
pub struct FieldMap {
    entries: Vec<(String, JsonValue)>,
}

impl View for FieldMap {
    type V = Seq<(Seq<char>, JVal)>;

    closed spec fn view(&self) -> Seq<(Seq<char>, JVal)> {
        self.entries@.map_values(|e: (String, JsonValue)| (e.0@, e.1.model()))
    }
}

/// The index of the first entry of `m` named `k` at or after `i`, or -1.
pub open spec fn find_key_from(m: Seq<(Seq<char>, JVal)>, k: Seq<char>, i: int) -> int
    decreases m.len() - i,
{
    if i < 0 || i >= m.len() {
        -1
    } else if m[i].0 == k {
        i
    } else {
        find_key_from(m, k, i + 1)
    }
}

/// The index of the first entry of `m` named `k`, or -1.
pub open spec fn find_key(m: Seq<(Seq<char>, JVal)>, k: Seq<char>) -> int {
    find_key_from(m, k, 0)
}

/// The value under `k` in `m`, if any.
pub open spec fn fm_lookup(m: Seq<(Seq<char>, JVal)>, k: Seq<char>) -> Option<JVal> {
    if find_key(m, k) >= 0 {
        Some(m[find_key(m, k)].1)
    } else {
        None
    }
}

/// `m` with `v` under `k`: overwrites in place when `k` is present, appends
/// otherwise.
pub open spec fn fm_insert(m: Seq<(Seq<char>, JVal)>, k: Seq<char>, v: JVal) -> Seq<
    (Seq<char>, JVal),
> {
    if find_key(m, k) >= 0 {
        m.update(find_key(m, k), (k, v))
    } else {
        m.push((k, v))
    }
}

/// `m` with `v` under `k` only when `k` is absent; an existing entry wins.
pub open spec fn fm_insert_soft(m: Seq<(Seq<char>, JVal)>, k: Seq<char>, v: JVal) -> Seq<
    (Seq<char>, JVal),
> {
    if find_key(m, k) >= 0 {
        m
    } else {
        m.push((k, v))
    }
}

/// What [`find_key_from`] finds: `-1` means no entry named `k` at or after
/// `i`; a hit is the first such entry.
pub proof fn lemma_find_key_from_props(m: Seq<(Seq<char>, JVal)>, k: Seq<char>, i: int)
    requires
        0 <= i,
    ensures
        find_key_from(m, k, i) == -1 || find_key_from(m, k, i) >= i,
        find_key_from(m, k, i) == -1 ==> forall|j: int|
            i <= j < m.len() ==> (#[trigger] m[j]).0 != k,
        find_key_from(m, k, i) >= 0 ==> {
            &&& i <= find_key_from(m, k, i) < m.len()
            &&& m[find_key_from(m, k, i)].0 == k
            &&& forall|j: int| i <= j < find_key_from(m, k, i) ==> (#[trigger] m[j]).0 != k
        },
    decreases m.len() - i,
{
    if i < 0 || i >= m.len() {
    } else if m[i].0 == k {
    } else {
        lemma_find_key_from_props(m, k, i + 1);
    }
}

/// Tables whose entries are named alike find the same index.
pub proof fn lemma_find_same_keys(
    m1: Seq<(Seq<char>, JVal)>,
    m2: Seq<(Seq<char>, JVal)>,
    k: Seq<char>,
    i: int,
)
    requires
        m1.len() == m2.len(),
        forall|j: int| 0 <= j < m1.len() ==> (#[trigger] m1[j]).0 == m2[j].0,
    ensures
        find_key_from(m1, k, i) == find_key_from(m2, k, i),
    decreases m1.len() - i,
{
    if 0 <= i < m1.len() {
        lemma_find_same_keys(m1, m2, k, i + 1);
    }
}

/// Finding in a table with one entry appended: an existing hit wins, else
/// the appended entry is found exactly when it is named `k`.
pub proof fn lemma_find_push_from(
    m: Seq<(Seq<char>, JVal)>,
    e: (Seq<char>, JVal),
    k: Seq<char>,
    i: int,
)
    requires
        0 <= i <= m.len(),
    ensures
        find_key_from(m.push(e), k, i) == if find_key_from(m, k, i) >= 0 {
            find_key_from(m, k, i)
        } else if e.0 == k {
            m.len() as int
        } else {
            -1
        },
    decreases m.len() - i,
{
    if i == m.len() {
        assert(m.push(e)[i] == e);
        if e.0 == k {
            assert(find_key_from(m.push(e), k, i) == i);
        } else {
            assert(find_key_from(m.push(e), k, i) == find_key_from(m.push(e), k, i + 1));
            assert(find_key_from(m.push(e), k, i + 1) == -1);
        }
    } else {
        assert(m.push(e)[i] == m[i]);
        lemma_find_push_from(m, e, k, i + 1);
    }
}

/// Looking up after an insert: the inserted key now maps to the new value,
/// and every other key is unchanged.
pub proof fn lemma_insert_lookup(m: Seq<(Seq<char>, JVal)>, k: Seq<char>, v: JVal, q: Seq<char>)
    ensures
        fm_lookup(fm_insert(m, k, v), q) == if q == k {
            Some(v)
        } else {
            fm_lookup(m, q)
        },
{
    lemma_find_key_from_props(m, k, 0);
    lemma_find_key_from_props(m, q, 0);
    let fi = find_key(m, k);
    if fi >= 0 {
        let u = m.update(fi, (k, v));
        assert(forall|j: int| 0 <= j < u.len() ==> (#[trigger] u[j]).0 == m[j].0);
        lemma_find_same_keys(u, m, q, 0);
        lemma_find_key_from_props(u, q, 0);
        if q != k {
            let fq = find_key(m, q);
            if fq >= 0 {
                assert(u[fq] == m[fq]);
            }
        }
    } else {
        lemma_find_push_from(m, (k, v), q, 0);
        if q != k {
            let fq = find_key(m, q);
            if fq >= 0 {
                assert(m.push((k, v))[fq] == m[fq]);
            }
        } else {
            assert(m.push((k, v))[m.len() as int] == (k, v));
        }
    }
}

/// Looking up after a soft insert: the key maps to the new value only when
/// it was absent; everything else is unchanged.
pub proof fn lemma_insert_soft_lookup(
    m: Seq<(Seq<char>, JVal)>,
    k: Seq<char>,
    v: JVal,
    q: Seq<char>,
)
    ensures
        fm_lookup(fm_insert_soft(m, k, v), q) == if q == k && fm_lookup(m, k) is None {
            Some(v)
        } else {
            fm_lookup(m, q)
        },
{
    if find_key(m, k) >= 0 {
    } else {
        lemma_find_push_from(m, (k, v), q, 0);
        lemma_find_key_from_props(m, q, 0);
        if q == k {
            assert(m.push((k, v))[m.len() as int] == (k, v));
        } else {
            let fq = find_key(m, q);
            if fq >= 0 {
                assert(m.push((k, v))[fq] == m[fq]);
            }
        }
    }
}

/// Swapping two adjacent entries with distinct names leaves every lookup
/// unchanged.
pub proof fn lemma_swap_lookup(f: Seq<(Seq<char>, JVal)>, i: int, q: Seq<char>)
    requires
        0 <= i,
        i + 1 < f.len(),
        f[i].0 != f[i + 1].0,
    ensures
        fm_lookup(f.update(i, f[i + 1]).update(i + 1, f[i]), q) == fm_lookup(f, q),
{
    let g = f.update(i, f[i + 1]).update(i + 1, f[i]);
    lemma_find_key_from_props(f, q, 0);
    lemma_find_key_from_props(g, q, 0);
    let rf = find_key(f, q);
    let rg = find_key(g, q);
    assert(forall|j: int| 0 <= j < f.len() && j != i && j != i + 1 ==> (#[trigger] g[j]) == f[j]);
    assert(g[i] == f[i + 1]);
    assert(g[i + 1] == f[i]);
    if rf == -1 {
        if rg >= 0 {
            assert(g[rg].0 == q);
            assert(false);
        }
    } else {
        if q == f[i].0 {
            if rf < i {
                assert(g[rf] == f[rf]);
                assert(rg == rf) by {
                    if rg == -1 {
                        assert(g[rf].0 == q);
                        assert(false);
                    } else if rg < rf {
                        assert(g[rg].0 == q);
                        assert(f[rg].0 == q);
                        assert(false);
                    } else if rg > rf {
                        assert(g[rf].0 != q);
                        assert(false);
                    }
                }
            } else {
                assert(rf == i);
                assert(g[i + 1].0 == q);
                assert(rg == i + 1) by {
                    if rg == -1 {
                        assert(false);
                    } else if rg < i + 1 {
                        assert(g[rg].0 == q);
                        if rg < i {
                            assert(f[rg].0 == q);
                        }
                        assert(false);
                    } else if rg > i + 1 {
                        assert(g[i + 1].0 != q);
                        assert(false);
                    }
                }
            }
        } else if q == f[i + 1].0 {
            if rf < i {
                assert(g[rf] == f[rf]);
                assert(rg == rf) by {
                    if rg == -1 {
                        assert(g[rf].0 == q);
                        assert(false);
                    } else if rg < rf {
                        assert(g[rg].0 == q);
                        assert(f[rg].0 == q);
                        assert(false);
                    } else if rg > rf {
                        assert(g[rf].0 != q);
                        assert(false);
                    }
                }
            } else {
                assert(rf == i + 1) by {
                    if rf == i {
                        assert(f[i].0 == q);
                        assert(false);
                    } else if rf > i + 1 {
                        assert(f[i + 1].0 != q);
                        assert(false);
                    }
                }
                assert(g[i].0 == q);
                assert(rg == i) by {
                    if rg == -1 {
                        assert(false);
                    } else if rg < i {
                        assert(g[rg].0 == q);
                        assert(f[rg].0 == q);
                        assert(false);
                    } else if rg > i {
                        assert(g[i].0 != q);
                        assert(false);
                    }
                }
            }
        } else {
            assert(rf != i && rf != i + 1);
            assert(g[rf] == f[rf]);
            assert(rg == rf) by {
                if rg == -1 {
                    assert(g[rf].0 == q);
                    assert(false);
                } else if rg < rf {
                    assert(g[rg].0 == q);
                    if rg != i && rg != i + 1 {
                        assert(f[rg].0 == q);
                    } else if rg == i {
                        assert(f[i + 1].0 == q);
                        assert(false);
                    } else {
                        assert(f[i].0 == q);
                        assert(false);
                    }
                    assert(false);
                } else if rg > rf {
                    assert(g[rf].0 != q);
                    assert(false);
                }
            }
        }
    }
}

impl FieldMap {
    /// An empty map.
    pub fn new() -> (r: FieldMap)
        ensures
            r@ == Seq::<(Seq<char>, JVal)>::empty(),
    {
        let r = FieldMap { entries: Vec::new() };
        proof {
            assert(r@ =~= Seq::<(Seq<char>, JVal)>::empty());
        }
        r
    }

    /// The number of entries.
    pub fn len(&self) -> (n: usize)
        ensures
            n == self@.len(),
    {
        self.entries.len()
    }

    /// The entry at position `i`, in insertion order.
    pub fn entry_at(&self, i: usize) -> (e: &(String, JsonValue))
        requires
            i < self@.len(),
        ensures
            (e.0@, e.1.model()) == self@[i as int],
    {
        &self.entries[i]
    }

    /// Finds the position of `key`, scanning from the front.
    fn position_of(&self, key: &str) -> (r: Option<usize>)
        ensures
            match r {
                Some(i) => i < self@.len() && find_key(self@, key@) == i as int,
                None => find_key(self@, key@) == -1,
            },
    {
        let n = self.entries.len();
        let mut i: usize = 0;
        while i < n
            invariant
                n == self@.len(),
                i <= n,
                find_key(self@, key@) == find_key_from(self@, key@, i as int),
            decreases n - i,
        {
            if str_eq(self.entries[i].0.as_str(), key) {
                return Some(i);
            }
            i = i + 1;
        }
        None
    }

    /// Inserts `value` under `key`: overwrites in place when the key is
    /// present, appends otherwise.
    pub fn insert(&mut self, key: String, value: JsonValue)
        ensures
            final(self)@ == fm_insert(old(self)@, key@, value.model()),
    {
        match self.position_of(key.as_str()) {
            Some(i) => {
                self.entries[i] = (key, value);
                proof {
                    assert(self@ =~= fm_insert(old(self)@, key@, value.model()));
                }
            },
            None => {
                self.entries.push((key, value));
                proof {
                    assert(self@ =~= fm_insert(old(self)@, key@, value.model()));
                }
            },
        }
    }

    /// Inserts `value` under `key` only when the key is absent; an existing
    /// entry wins.
    pub fn insert_if_absent(&mut self, key: String, value: JsonValue)
        ensures
            final(self)@ == fm_insert_soft(old(self)@, key@, value.model()),
    {
        match self.position_of(key.as_str()) {
            Some(_) => {},
            None => {
                self.entries.push((key, value));
                proof {
                    assert(self@ =~= fm_insert_soft(old(self)@, key@, value.model()));
                }
            },
        }
    }

    /// The value under `key`, if any.
    pub fn get(&self, key: &str) -> (r: Option<&JsonValue>)
        ensures
            match r {
                Some(v) => fm_lookup(self@, key@) == Some(v.model()),
                None => fm_lookup(self@, key@) is None,
            },
    {
        match self.position_of(key) {
            Some(i) => Some(&self.entries[i].1),
            None => None,
        }
    }

    /// A copy of this map with the same model.
    pub fn duplicate(&self) -> (r: FieldMap)
        ensures
            r@ == self@,
    {
        let mut entries: Vec<(String, JsonValue)> = Vec::new();
        let n = self.entries.len();
        let mut i: usize = 0;
        while i < n
            invariant
                n == self.entries.len(),
                i <= n,
                entries@.len() == i,
                forall|j: int|
                    0 <= j < i ==> (#[trigger] entries@[j].0@, entries@[j].1.model())
                        == self@[j],
            decreases n - i,
        {
            let name = self.entries[i].0.clone();
            let value = self.entries[i].1.duplicate();
            entries.push((name, value));
            i = i + 1;
        }
        let r = FieldMap { entries };
        proof {
            assert(r@ =~= self@);
        }
        r
    }

    /// Appends the JSON object rendering of this map to `out`.
    pub fn push_json_object(&self, out: &mut Vec<char>)
        ensures
            final(out)@ == old(out)@ + render_object(self@),
    {
        out.push('{');
        let n = self.entries.len();
        let mut i: usize = 0;
        while i < n
            invariant
                n == self@.len(),
                i <= n,
                out@ == old(out)@ + seq!['{'] + render_entries(self@.take(i as int)),
            decreases n - i,
        {
            if i > 0 {
                out.push(',');
            }
            push_json_string(out, self.entries[i].0.as_str());
            out.push(':');
            push_json_value(out, &self.entries[i].1);
            i = i + 1;
            proof {
                assert(self@.take(i as int).drop_last() =~= self@.take(i - 1));
                assert(self@.take(i as int).last() == self@[i - 1]);
                assert(out@ =~= old(out)@ + seq!['{'] + render_entries(self@.take(i as int)));
            }
        }
        out.push('}');
        proof {
            assert(self@.take(n as int) =~= self@);
            assert(out@ =~= old(out)@ + render_object(self@));
        }
    }
}

} // verus!
