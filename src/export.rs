//! The export engine: the discovery of dynamic columns over extractions'
//! structured data, the CSV document, and the layout of the Excel workbook.
use vstd::prelude::*;
use crate::confidence::{Confidence, ONE_BITS};
use crate::prompts::{decimal_of, digit, digit_of, push_decimal};
use crate::json::{cell_of, json_cell, json_field, json_object_keys, value_get, value_keys, JsonCell};
use crate::model::{Batch, Document, Extraction};
use crate::store::{
    batch_index, documents_of, extractions_wf, filtered, opt_str, BatchDao, DocumentDao,
    ExtractionDao, Store, StoreError,
};
use crate::text::{chars_of, is_text, push_all, push_str, same_chars, string_of};

verus! {

// ---------------------------------------------------------------------------
// Cells

/// The cell needs quoting: it holds a comma, a quote or a line break.
pub open spec fn needs_quotes(s: Seq<char>) -> bool {
    exists|i: int| 0 <= i < s.len() && (s[i] == ',' || s[i] == '"' || s[i] == '\n' || s[i] == '\r')
}

/// `s` with each quote doubled.
pub open spec fn double_quotes(s: Seq<char>) -> Seq<char>
    decreases s.len(),
{
    if s.len() == 0 {
        Seq::empty()
    } else if s.last() == '"' {
        double_quotes(s.drop_last()) + seq!['"', '"']
    } else {
        double_quotes(s.drop_last()).push(s.last())
    }
}

/// A CSV cell: quoted, with quotes doubled, where it needs quoting; as it
/// stands otherwise.
pub open spec fn csv_escape_spec(s: Seq<char>) -> Seq<char> {
    if needs_quotes(s) {
        seq!['"'] + double_quotes(s) + seq!['"']
    } else {
        s
    }
}

/// Appends `s` as a CSV cell.
fn push_escaped(out: &mut Vec<char>, s: &Vec<char>)
    ensures
        final(out)@ == old(out)@ + csv_escape_spec(s@),
{
    let mut quote = false;
    let mut i: usize = 0;
    while i < s.len()
        invariant
            i <= s@.len(),
            quote == exists|j: int| 0 <= j < i && (s@[j] == ',' || s@[j] == '"' || s@[j] == '\n'
                || s@[j] == '\r'),
        decreases s@.len() - i,
    {
        let c = s[i];
        if c == ',' || c == '"' || c == '\n' || c == '\r' {
            quote = true;
        }
        i = i + 1;
    }
    if !quote {
        push_all(out, s);
        return;
    }
    let ghost start = out@;
    out.push('"');
    let mut k: usize = 0;
    while k < s.len()
        invariant
            k <= s@.len(),
            out@ == start.push('"') + double_quotes(s@.subrange(0, k as int)),
        decreases s@.len() - k,
    {
        assert(s@.subrange(0, k + 1).drop_last() =~= s@.subrange(0, k as int));
        if s[k] == '"' {
            out.push('"');
            out.push('"');
        } else {
            out.push(s[k]);
        }
        k = k + 1;
        assert(out@ =~= start.push('"') + double_quotes(s@.subrange(0, k as int)));
    }
    assert(s@.subrange(0, s@.len() as int) =~= s@);
    out.push('"');
    assert(out@ =~= start + (seq!['"'] + double_quotes(s@) + seq!['"']));
}

/// Escape a text as a CSV cell (RFC 4180): where it holds a comma, a quote
/// or a line break, wrap it in quotes and double the quotes inside.
pub fn csv_escape(s: &str) -> (r: String)
    ensures
        r@ == csv_escape_spec(s@),
{
    let mut out: Vec<char> = Vec::new();
    push_escaped(&mut out, &chars_of(s));
    string_of(&out)
}

/// What `char::to_uppercase` gives for a character.
pub uninterp spec fn upper_of(c: char) -> Seq<char>;

/// Relies on `char::to_uppercase`: the result depends on the character alone.
#[verifier::external_body]
fn uppercase_char(c: char) -> (r: String)
    ensures
        r@ == upper_of(c),
{
    c.to_uppercase().collect()
}

/// What character `i` of `s` becomes in a title: `_` becomes a space, the
/// first character of each `_`-separated word is uppercased.
pub open spec fn title_piece(s: Seq<char>, i: int) -> Seq<char> {
    if s[i] == '_' {
        seq![' ']
    } else if i == 0 || s[i - 1] == '_' {
        upper_of(s[i])
    } else {
        seq![s[i]]
    }
}

/// The title of the first `n` characters of `s`.
pub open spec fn title_upto(s: Seq<char>, n: int) -> Seq<char>
    decreases n,
{
    if n <= 0 {
        Seq::empty()
    } else {
        title_upto(s, n - 1) + title_piece(s, n - 1)
    }
}

/// A document type as a title: words split at `_`, each with its first
/// character uppercased, joined by spaces.
pub open spec fn capitalize_spec(s: Seq<char>) -> Seq<char> {
    title_upto(s, s.len() as int)
}

/// Turn a document type into a title (`bank_statement` → `Bank Statement`).
pub fn capitalize(s: &str) -> (r: String)
    ensures
        r@ == capitalize_spec(s@),
{
    let c = chars_of(s);
    let mut out: Vec<char> = Vec::new();
    let mut i: usize = 0;
    while i < c.len()
        invariant
            i <= c@.len(),
            c@ == s@,
            out@ == title_upto(s@, i as int),
        decreases c@.len() - i,
    {
        if c[i] == '_' {
            out.push(' ');
        } else if i == 0 || c[i - 1] == '_' {
            let u = uppercase_char(c[i]);
            push_all(&mut out, &chars_of(u.as_str()));
        } else {
            out.push(c[i]);
        }
        i = i + 1;
        assert(out@ =~= title_upto(s@, i as int));
    }
    string_of(&out)
}

/// The longest sheet name Excel accepts, in characters.
pub const MAX_SHEET_NAME: usize = 31;

/// The sheet name of a document type: its title, cut to 31 characters.
pub open spec fn sheet_name_of(t: Seq<char>) -> Seq<char> {
    let c = capitalize_spec(t);
    if c.len() > MAX_SHEET_NAME {
        c.subrange(0, MAX_SHEET_NAME as int)
    } else {
        c
    }
}

/// The sheet name of a document type.
pub fn sheet_name(document_type: &str) -> (r: String)
    ensures
        r@ == sheet_name_of(document_type@),
{
    let c = chars_of(capitalize(document_type).as_str());
    if c.len() > MAX_SHEET_NAME {
        string_of(&crate::text::slice_chars(&c, 0, MAX_SHEET_NAME))
    } else {
        string_of(&c)
    }
}

// ---------------------------------------------------------------------------
// Scores as text

/// `2^n`.
pub open spec fn pow2(n: nat) -> nat
    decreases n,
{
    if n == 0 {
        1
    } else {
        2 * pow2((n - 1) as nat)
    }
}

/// The significand and the power of two of a score: its value is
/// `significand / 2^scale`.
pub open spec fn score_parts(bits: u64) -> (nat, nat) {
    let e = (bits / 0x10_0000_0000_0000) as nat;
    let f = (bits % 0x10_0000_0000_0000) as nat;
    if e == 0 {
        (f, 1074)
    } else {
        ((f + 0x10_0000_0000_0000) as nat, (1075 - e) as nat)
    }
}

/// `q` is `n / d` rounded to the nearest integer, ties to even.
pub open spec fn rounds_to(n: nat, d: nat, q: nat) -> bool {
    let diff = if n >= q * d { n - q * d } else { q * d - n };
    &&& 2 * diff <= d
    &&& 2 * diff == d ==> q % 2 == 0
}

/// A score in hundredths: `100 × value`, rounded to the nearest integer,
/// ties to even.
pub open spec fn hundredths_of(bits: u64, q: nat) -> bool {
    rounds_to(100 * score_parts(bits).0, pow2(score_parts(bits).1), q)
}

/// The text of a score with two decimals, from its value in hundredths.
pub open spec fn two_decimals(q: nat) -> Seq<char> {
    decimal_of(q / 100) + seq!['.', digit_of((q / 10) % 10), digit_of(q % 10)]
}

proof fn lemma_pow2_facts()
    ensures
        pow2(52) == 0x10_0000_0000_0000,
        pow2(53) == 0x20_0000_0000_0000,
        pow2(60) == 0x1000_0000_0000_0000,
        pow2(61) == 0x2000_0000_0000_0000,
{
    reveal_with_fuel(pow2, 62);
}

proof fn lemma_pow2_at_least(a: nat, b: nat)
    requires
        b <= a,
    ensures
        pow2(b) <= pow2(a),
    decreases a,
{
    if b < a {
        lemma_pow2_at_least((a - 1) as nat, b);
    }
}

proof fn lemma_significand_bound(bits: u64)
    requires
        bits <= ONE_BITS,
    ensures
        score_parts(bits).0 <= pow2(score_parts(bits).1),
        score_parts(bits).1 >= 52,
{
    lemma_pow2_facts();
    let e = (bits / 0x10_0000_0000_0000) as nat;
    let f = (bits % 0x10_0000_0000_0000) as nat;
    assert(e <= 1023);
    if e == 1023 {
        assert(f == 0);
    } else if e > 0 {
        lemma_pow2_at_least((1075 - e) as nat, 53);
    } else {
        lemma_pow2_at_least(1074, 53);
    }
}

proof fn lemma_rounding(n: nat, d: nat, q0: nat, r: nat, q: nat)
    requires
        d > 0,
        q0 == n / d,
        r == n % d,
        q == (if 2 * r > d || (2 * r == d && q0 % 2 == 1) { q0 + 1 } else { q0 }),
        n <= 100 * d,
    ensures
        rounds_to(n, d, q),
        q <= 100,
{
    assert(n == q0 * d + r) by (nonlinear_arith)
        requires q0 == n / d, r == n % d, d > 0;
    assert(r < d);
    if q == q0 + 1 {
        assert(q * d == q0 * d + d) by (nonlinear_arith)
            requires q == q0 + 1;
    }
    assert(q0 <= 100) by (nonlinear_arith)
        requires n == q0 * d + r, n <= 100 * d, d > 0;
    if q0 == 100 {
        assert(r == 0) by (nonlinear_arith)
            requires n == q0 * d + r, n <= 100 * d, q0 == 100;
    }
}

/// `2^s` for `s <= 60`.
fn pow2_exec(s: u64) -> (d: u64)
    requires
        s <= 60,
    ensures
        d == pow2(s as nat),
{
    proof {
        lemma_pow2_facts();
    }
    let mut d: u64 = 1;
    let mut k: u64 = 0;
    while k < s
        invariant
            k <= s <= 60,
            d == pow2(k as nat),
            pow2(60) == 0x1000_0000_0000_0000,
        decreases s - k,
    {
        proof {
            lemma_pow2_at_least(60, (k + 1) as nat);
        }
        d = d * 2;
        k = k + 1;
    }
    d
}

/// A score in hundredths.
fn hundredths(c: Confidence) -> (q: u64)
    requires
        c.wf(),
    ensures
        hundredths_of(c.bits, q as nat),
        q <= 100,
{
    let e = c.bits / 0x10_0000_0000_0000;
    let f = c.bits % 0x10_0000_0000_0000;
    let (m, s): (u64, u64) = if e == 0 {
        (f, 1074)
    } else {
        (f + 0x10_0000_0000_0000, 1075 - e)
    };
    proof {
        lemma_significand_bound(c.bits);
        lemma_pow2_facts();
        assert(score_parts(c.bits) == (m as nat, s as nat));
    }
    if s > 60 {
        proof {
            lemma_pow2_at_least(s as nat, 61);
            assert(m <= 0x20_0000_0000_0000);
            assert(rounds_to(100 * m as nat, pow2(s as nat), 0));
        }
        return 0;
    }
    proof {
        lemma_pow2_at_least(60, s as nat);
    }
    let n: u64 = m * 100;
    let d = pow2_exec(s);
    let q0 = n / d;
    let r = n % d;
    let q = if 2 * r > d || (2 * r == d && q0 % 2 == 1) {
        q0 + 1
    } else {
        q0
    };
    proof {
        lemma_rounding(n as nat, d as nat, q0 as nat, r as nat, q as nat);
    }
    q
}

/// Appends a score with two decimals.
fn push_score(out: &mut Vec<char>, c: Confidence)
    requires
        c.wf(),
    ensures
        exists|q: nat| hundredths_of(c.bits, q) && final(out)@ == old(out)@ + two_decimals(q),
{
    let q = hundredths(c);
    push_decimal(out, q / 100);
    out.push('.');
    out.push(digit(((q / 10) % 10) as usize));
    out.push(digit((q % 10) as usize));
    assert(out@ =~= old(out)@ + two_decimals(q as nat));
}

/// A score with two decimals (`0.90`).
pub fn score_text(c: Confidence) -> (r: String)
    requires
        c.wf(),
    ensures
        exists|q: nat| hundredths_of(c.bits, q) && r@ == two_decimals(q),
{
    let mut out: Vec<char> = Vec::new();
    push_score(&mut out, c);
    string_of(&out)
}

// ---------------------------------------------------------------------------
// Dynamic columns

/// `a` sorts before `b`: at the first position where they differ, `a` has
/// the smaller character, or `a` is a proper prefix of `b`. (For texts this
/// is the order of their UTF-8 bytes.)
#[verifier::opaque]
pub open spec fn text_lt(a: Seq<char>, b: Seq<char>) -> bool {
    exists|i: int|
        0 <= i <= a.len() && i <= b.len() && #[trigger] a.subrange(0, i) == b.subrange(0, i) && (
        (i == a.len() && i < b.len()) || (i < a.len() && i < b.len() && a[i] < b[i]))
}

/// The result of comparing two texts.
#[derive(Debug, Clone, Copy, PartialEq, Eq, Structural)]
pub enum TextOrder {
    Less,
    Equal,
    Greater,
}

/// Compare two texts.
pub fn compare_text(a: &Vec<char>, b: &Vec<char>) -> (r: TextOrder)
    ensures
        r == TextOrder::Less ==> text_lt(a@, b@),
        r == TextOrder::Equal ==> a@ == b@,
        r == TextOrder::Greater ==> text_lt(b@, a@),
{
    let mut i: usize = 0;
    while i < a.len() && i < b.len() && a[i] == b[i]
        invariant
            i <= a@.len(),
            i <= b@.len(),
            a@.subrange(0, i as int) == b@.subrange(0, i as int),
        decreases a@.len() - i,
    {
        assert(a@.subrange(0, i + 1) =~= a@.subrange(0, i as int).push(a@[i as int]));
        assert(b@.subrange(0, i + 1) =~= b@.subrange(0, i as int).push(b@[i as int]));
        i = i + 1;
    }
    let ghost w = i as int;
    reveal(text_lt);
    if i == a.len() && i == b.len() {
        assert(a@ =~= a@.subrange(0, w));
        assert(b@ =~= b@.subrange(0, w));
        TextOrder::Equal
    } else if i == a.len() {
        assert(a@.subrange(0, w) == b@.subrange(0, w));
        TextOrder::Less
    } else if i == b.len() {
        assert(b@.subrange(0, w) == a@.subrange(0, w));
        TextOrder::Greater
    } else if a[i] < b[i] {
        assert(a@.subrange(0, w) == b@.subrange(0, w));
        TextOrder::Less
    } else {
        assert(b@.subrange(0, w) == a@.subrange(0, w));
        TextOrder::Greater
    }
}

/// Each key sorts strictly before the next.
pub open spec fn sorted_keys(v: Seq<String>) -> bool {
    forall|i: int| 0 <= i < v.len() - 1 ==> text_lt(#[trigger] v[i]@, v[i + 1]@)
}

/// `x` is one of the keys.
pub open spec fn has_key(v: Seq<String>, x: Seq<char>) -> bool {
    exists|i: int| 0 <= i < v.len() && #[trigger] v[i]@ == x
}

/// Insert a key into a sorted key list, where it is not there yet.
fn insert_key(v: &mut Vec<String>, k: String)
    requires
        sorted_keys(old(v)@),
    ensures
        sorted_keys(final(v)@),
        has_key(final(v)@, k@),
        forall|j: int| 0 <= j < old(v)@.len() ==> has_key(final(v)@, #[trigger] old(v)@[j]@),
        forall|j: int| 0 <= j < final(v)@.len() ==> (#[trigger] final(v)@[j])@ == k@ || has_key(
            old(v)@,
            final(v)@[j]@,
        ),
{
    let kc = chars_of(k.as_str());
    let mut i: usize = 0;
    let mut found = false;
    let mut stop = false;
    while i < v.len() && !stop
        invariant
            v@ == old(v)@,
            i <= v@.len(),
            kc@ == k@,
            sorted_keys(v@),
            forall|j: int| 0 <= j < i ==> text_lt(#[trigger] v@[j]@, k@),
            found ==> stop,
            stop ==> i < v@.len(),
            found ==> v@[i as int]@ == k@,
            stop && !found ==> text_lt(k@, v@[i as int]@),
        decreases v@.len() - i + (if stop { 0int } else { 1int }),
    {
        let c = compare_text(&chars_of(v[i].as_str()), &kc);
        match c {
            TextOrder::Less => {
                i = i + 1;
            },
            TextOrder::Equal => {
                found = true;
                stop = true;
            },
            TextOrder::Greater => {
                stop = true;
            },
        }
    }
    if found {
        assert forall|j: int| 0 <= j < v@.len() implies has_key(v@, #[trigger] v@[j]@) by {}
        return;
    }
    let ghost before = v@;
    let ghost kk = k;
    v.insert(i, k);
    proof {
        lemma_insert_sorted(before, i as int, kk);
    }
}

proof fn lemma_insert_sorted(before: Seq<String>, i: int, k: String)
    requires
        sorted_keys(before),
        0 <= i <= before.len(),
        forall|j: int| 0 <= j < i ==> text_lt(#[trigger] before[j]@, k@),
        i < before.len() ==> text_lt(k@, before[i]@),
    ensures
        sorted_keys(before.insert(i, k)),
        has_key(before.insert(i, k), k@),
        forall|j: int| 0 <= j < before.len() ==> has_key(before.insert(i, k), #[trigger] before[j]@),
        forall|j: int|
            0 <= j < before.len() + 1 ==> (#[trigger] before.insert(i, k)[j])@ == k@ || has_key(
                before,
                before.insert(i, k)[j]@,
            ),
{
    lemma_insert_order(before, i, k);
    lemma_insert_members(before, i, k);
}

proof fn lemma_insert_order(before: Seq<String>, i: int, k: String)
    requires
        sorted_keys(before),
        0 <= i <= before.len(),
        forall|j: int| 0 <= j < i ==> text_lt(#[trigger] before[j]@, k@),
        i < before.len() ==> text_lt(k@, before[i]@),
    ensures
        sorted_keys(before.insert(i, k)),
{
    let v = before.insert(i, k);
    assert forall|j: int| 0 <= j < v.len() - 1 implies text_lt(#[trigger] v[j]@, v[j + 1]@) by {
        if j < i - 1 {
            assert(v[j] == before[j] && v[j + 1] == before[j + 1]);
        } else if j == i - 1 {
            assert(v[j] == before[j]);
        } else if j == i {
            assert(v[j + 1] == before[j]);
        } else {
            assert(v[j] == before[j - 1] && v[j + 1] == before[j]);
        }
    }
}

proof fn lemma_insert_members(before: Seq<String>, i: int, k: String)
    requires
        0 <= i <= before.len(),
    ensures
        has_key(before.insert(i, k), k@),
        forall|j: int| 0 <= j < before.len() ==> has_key(before.insert(i, k), #[trigger] before[j]@),
        forall|j: int|
            0 <= j < before.len() + 1 ==> (#[trigger] before.insert(i, k)[j])@ == k@ || has_key(
                before,
                before.insert(i, k)[j]@,
            ),
{
    let v = before.insert(i, k);
    assert(v[i]@ == k@);
    assert forall|j: int| 0 <= j < before.len() implies has_key(v, #[trigger] before[j]@) by {
        if j < i {
            assert(v[j] == before[j]);
        } else {
            assert(v[j + 1] == before[j]);
        }
    }
    assert forall|j: int| 0 <= j < v.len() implies (#[trigger] v[j])@ == k@ || has_key(
        before,
        v[j]@,
    ) by {
        if j < i {
            assert(v[j] == before[j]);
        } else if j > i {
            assert(v[j] == before[j - 1]);
        }
    }
}

/// A key the dynamic columns leave out: it is a base column already.
pub open spec fn is_base_key(x: Seq<char>) -> bool {
    x == "confidence"@ || x == "document_type"@
}

/// `x` is a key of one of the lists.
pub open spec fn in_some_list(lists: Seq<Vec<String>>, x: Seq<char>) -> bool {
    exists|i: int| 0 <= i < lists.len() && has_key(#[trigger] lists[i]@, x)
}

/// The dynamic columns over the key lists of several objects: every key of
/// any of them but `confidence` and `document_type`, once each, sorted.
pub fn discover_keys(lists: &Vec<Vec<String>>) -> (r: Vec<String>)
    ensures
        sorted_keys(r@),
        forall|m: int|
            0 <= m < r@.len() ==> in_some_list(lists@, (#[trigger] r@[m])@) && !is_base_key(
                r@[m]@,
            ),
        forall|i: int, j: int|
            0 <= i < lists@.len() && 0 <= j < lists@[i]@.len() && !is_base_key(
                (#[trigger] lists@[i]@[j])@,
            ) ==> has_key(r@, lists@[i]@[j]@),
{
    let mut r: Vec<String> = Vec::new();
    let mut i: usize = 0;
    while i < lists.len()
        invariant
            i <= lists@.len(),
            sorted_keys(r@),
            forall|m: int|
                0 <= m < r@.len() ==> in_some_list(lists@, (#[trigger] r@[m])@) && !is_base_key(
                    r@[m]@,
                ),
            forall|a: int, b: int|
                0 <= a < i && 0 <= b < lists@[a]@.len() && !is_base_key(
                    (#[trigger] lists@[a]@[b])@,
                ) ==> has_key(r@, lists@[a]@[b]@),
        decreases lists@.len() - i,
    {
        let list = &lists[i];
        let mut j: usize = 0;
        while j < list.len()
            invariant
                i < lists@.len(),
                *list == lists@[i as int],
                j <= list@.len(),
                sorted_keys(r@),
                forall|m: int|
                    0 <= m < r@.len() ==> in_some_list(lists@, (#[trigger] r@[m])@)
                        && !is_base_key(r@[m]@),
                forall|a: int, b: int|
                    0 <= a < i && 0 <= b < lists@[a]@.len() && !is_base_key(
                        (#[trigger] lists@[a]@[b])@,
                    ) ==> has_key(r@, lists@[a]@[b]@),
                forall|b: int|
                    0 <= b < j && !is_base_key((#[trigger] list@[b])@) ==> has_key(r@, list@[b]@),
            decreases list@.len() - j,
        {
            let key = &list[j];
            let kc = chars_of(key.as_str());
            let ghost before = r@;
            let skip = is_text(&kc, "confidence") || is_text(&kc, "document_type");
            if !skip {
                insert_key(&mut r, key.clone());
                proof {
                    assert(has_key(lists@[i as int]@, key@)) by {
                        assert(lists@[i as int]@[j as int] == *key);
                    }
                    assert forall|m: int| 0 <= m < r@.len() implies in_some_list(
                        lists@,
                        (#[trigger] r@[m])@,
                    ) && !is_base_key(r@[m]@) by {
                        if r@[m]@ != key@ {
                            let n = choose|n: int| 0 <= n < before.len() && #[trigger] before[n]@
                                == r@[m]@;
                            assert(in_some_list(lists@, before[n]@));
                        } else {
                            assert(in_some_list(lists@, key@)) by {
                                assert(has_key(lists@[i as int]@, key@));
                            }
                        }
                    }
                    assert forall|a: int, b: int|
                        0 <= a < i && 0 <= b < lists@[a]@.len() && !is_base_key(
                            (#[trigger] lists@[a]@[b])@,
                        ) implies has_key(r@, lists@[a]@[b]@) by {
                        let n = choose|n: int| 0 <= n < before.len() && #[trigger] before[n]@
                            == lists@[a]@[b]@;
                        assert(has_key(r@, before[n]@));
                    }
                    assert forall|b: int|
                        0 <= b < j + 1 && !is_base_key((#[trigger] list@[b])@) implies has_key(
                        r@,
                        list@[b]@,
                    ) by {
                        if b < j {
                            let n = choose|n: int| 0 <= n < before.len() && #[trigger] before[n]@
                                == list@[b]@;
                            assert(has_key(r@, before[n]@));
                        }
                    }
                }
            }
            j = j + 1;
        }
        i = i + 1;
    }
    r
}

/// The extraction has the given type, where one is given.
pub open spec fn type_matches(e: Extraction, t: Option<Seq<char>>) -> bool {
    t matches Some(x) ==> e.document_type@ == x
}

/// The top-level keys of an extraction's structured data.
pub open spec fn data_keys(e: Extraction) -> Set<Seq<char>> {
    match e.structured_data {
        Some(v) => value_keys(v),
        None => Set::empty(),
    }
}

/// `x` is a dynamic column over the extractions (of the given type, where
/// one is given): a top-level key of one's structured data other than
/// `confidence` and `document_type`.
pub open spec fn is_dynamic_key(exts: Seq<Extraction>, t: Option<Seq<char>>, x: Seq<char>) -> bool {
    &&& !is_base_key(x)
    &&& exists|i: int|
        0 <= i < exts.len() && type_matches(exts[i], t) && #[trigger] data_keys(exts[i]).contains(x)
}

/// The key list read from one extraction: its data's keys where it has the
/// type, none otherwise.
pub open spec fn list_ok(l: Seq<String>, e: Extraction, t: Option<Seq<char>>) -> bool {
    &&& forall|m: int|
        0 <= m < l.len() ==> type_matches(e, t) && data_keys(e).contains(#[trigger] l[m]@)
    &&& type_matches(e, t) ==> forall|x: Seq<char>| #[trigger]
        data_keys(e).contains(x) ==> has_key(l, x)
}

/// Whether an extraction has the given type, where one is given.
fn has_type(e: &Extraction, t: Option<&str>) -> (r: bool)
    ensures
        r == type_matches(*e, crate::store::opt_str(t)),
{
    match t {
        Some(x) => is_text(&chars_of(e.document_type.as_str()), x),
        None => true,
    }
}

/// The dynamic columns over the extractions of a type (or over all of them):
/// the top-level keys of their structured data but `confidence` and
/// `document_type`, once each, sorted.
pub fn dynamic_keys(extractions: &Vec<Extraction>, t: Option<&str>) -> (r: Vec<String>)
    ensures
        sorted_keys(r@),
        forall|x: Seq<char>|
            #[trigger] has_key(r@, x) <==> is_dynamic_key(
                extractions@,
                crate::store::opt_str(t),
                x,
            ),
{
    let ghost tt = crate::store::opt_str(t);
    let mut lists: Vec<Vec<String>> = Vec::new();
    let mut i: usize = 0;
    while i < extractions.len()
        invariant
            i <= extractions@.len(),
            lists@.len() == i,
            tt == crate::store::opt_str(t),
            forall|j: int| 0 <= j < i ==> list_ok(#[trigger] lists@[j]@, extractions@[j], tt),
        decreases extractions@.len() - i,
    {
        let e = &extractions[i];
        let keys = if has_type(e, t) {
            match &e.structured_data {
                Some(v) => json_object_keys(v),
                None => Vec::new(),
            }
        } else {
            Vec::new()
        };
        proof {
            if type_matches(*e, tt) && e.structured_data is Some {
                assert forall|x: Seq<char>| #[trigger] data_keys(*e).contains(x) implies has_key(
                    keys@,
                    x,
                ) by {
                    let k = choose|k: int| 0 <= k < keys@.len() && keys@[k]@ == x;
                    assert(keys@[k]@ == x);
                }
            }
        }
        lists.push(keys);
        i = i + 1;
    }
    let r = discover_keys(&lists);
    proof {
        assert forall|x: Seq<char>| #[trigger] has_key(r@, x) <==> is_dynamic_key(
            extractions@,
            tt,
            x,
        ) by {
            if has_key(r@, x) {
                let m = choose|m: int| 0 <= m < r@.len() && #[trigger] r@[m]@ == x;
                assert(in_some_list(lists@, r@[m]@) && !is_base_key(r@[m]@));
                let l = choose|l: int| 0 <= l < lists@.len() && has_key(#[trigger] lists@[l]@, x);
                let q = choose|q: int| 0 <= q < lists@[l]@.len() && #[trigger] lists@[l]@[q]@ == x;
                assert(list_ok(lists@[l]@, extractions@[l], tt));
                assert(data_keys(extractions@[l]).contains(lists@[l]@[q]@));
            }
            if is_dynamic_key(extractions@, tt, x) {
                let j = choose|j: int|
                    0 <= j < extractions@.len() && type_matches(extractions@[j], tt)
                        && #[trigger] data_keys(extractions@[j]).contains(x);
                assert(list_ok(lists@[j]@, extractions@[j], tt));
                assert(has_key(lists@[j]@, x));
                let q = choose|q: int| 0 <= q < lists@[j]@.len() && #[trigger] lists@[j]@[q]@ == x;
                assert(!is_base_key(lists@[j]@[q]@));
                assert(has_key(r@, lists@[j]@[q]@));
            }
        }
    }
    r
}

// ---------------------------------------------------------------------------
// CSV

/// Fields joined by commas, each escaped.
pub open spec fn csv_join(fs: Seq<Seq<char>>) -> Seq<char>
    decreases fs.len(),
{
    if fs.len() == 0 {
        Seq::empty()
    } else if fs.len() == 1 {
        csv_escape_spec(fs[0])
    } else {
        csv_join(fs.drop_last()) + seq![','] + csv_escape_spec(fs.last())
    }
}

/// One CSV line.
pub open spec fn csv_line(fs: Seq<Seq<char>>) -> Seq<char> {
    csv_join(fs).push('\n')
}

/// The lines of several rows.
pub open spec fn csv_lines(rows: Seq<Seq<Seq<char>>>) -> Seq<char>
    decreases rows.len(),
{
    if rows.len() == 0 {
        Seq::empty()
    } else {
        csv_lines(rows.drop_last()) + csv_line(rows.last())
    }
}

/// The texts of a list of fields.
pub open spec fn field_texts(fs: Seq<Vec<char>>) -> Seq<Seq<char>> {
    fs.map_values(|f: Vec<char>| f@)
}

/// Appends one CSV line.
fn push_line(out: &mut Vec<char>, fields: &Vec<Vec<char>>)
    ensures
        final(out)@ == old(out)@ + csv_line(field_texts(fields@)),
{
    let ghost start = out@;
    let mut i: usize = 0;
    while i < fields.len()
        invariant
            i <= fields@.len(),
            out@ == start + csv_join(field_texts(fields@.subrange(0, i as int))),
        decreases fields@.len() - i,
    {
        let ghost fs = field_texts(fields@.subrange(0, i + 1));
        assert(fs.drop_last() =~= field_texts(fields@.subrange(0, i as int)));
        assert(fs.last() == fields@[i as int]@);
        if i > 0 {
            out.push(',');
        }
        push_escaped(out, &fields[i]);
        i = i + 1;
        assert(out@ =~= start + csv_join(field_texts(fields@.subrange(0, i as int))));
    }
    assert(fields@.subrange(0, fields@.len() as int) =~= fields@);
    out.push('\n');
}

/// The base columns of the CSV export.
pub open spec fn csv_base_header() -> Seq<Seq<char>> {
    seq![
        "extraction_id"@,
        "document_id"@,
        "filename"@,
        "document_type"@,
        "confidence"@,
        "model_used"@,
        "processing_time_ms"@,
    ]
}

/// The number of base columns.
pub const BASE_COLUMNS: usize = 7;

/// The decimal text of an integer.
pub open spec fn int_text(n: int) -> Seq<char> {
    if n < 0 {
        seq!['-'] + decimal_of((-n) as nat)
    } else {
        decimal_of(n as nat)
    }
}

/// The decimal text of an `i64`.
fn i64_text(n: i64) -> (r: Vec<char>)
    ensures
        r@ == int_text(n as int),
{
    let mut out: Vec<char> = Vec::new();
    if n < 0 {
        out.push('-');
        let m: u64 = if n == i64::MIN {
            9223372036854775808u64
        } else {
            (-n) as u64
        };
        assert(m as int == -(n as int));
        push_decimal(&mut out, m);
    } else {
        push_decimal(&mut out, n as u64);
    }
    assert(out@ =~= int_text(n as int));
    out
}

/// The original name of the document with this id, empty where there is none.
pub open spec fn filename_of(docs: Seq<Document>, id: Seq<char>) -> Seq<char>
    decreases docs.len(),
{
    if docs.len() == 0 {
        Seq::empty()
    } else if docs.last().id@ == id {
        docs.last().original_name@
    } else {
        filename_of(docs.drop_last(), id)
    }
}

/// The original name of the document with this id.
fn lookup_filename(docs: &Vec<Document>, id: &String) -> (r: Vec<char>)
    ensures
        r@ == filename_of(docs@, id@),
{
    let idc = chars_of(id.as_str());
    let mut k: usize = docs.len();
    assert(docs@.subrange(0, docs@.len() as int) =~= docs@);
    while k > 0
        invariant
            k <= docs@.len(),
            idc@ == id@,
            filename_of(docs@, id@) == filename_of(docs@.subrange(0, k as int), id@),
        decreases k,
    {
        let ghost pre = docs@.subrange(0, k as int);
        assert(pre.drop_last() =~= docs@.subrange(0, k - 1));
        if same_chars(&chars_of(docs[k - 1].id.as_str()), &idc) {
            return chars_of(docs[k - 1].original_name.as_str());
        }
        k = k - 1;
    }
    Vec::new()
}

/// The base fields of an extraction's CSV row.
pub open spec fn base_row_ok(fs: Seq<Seq<char>>, e: Extraction, docs: Seq<Document>) -> bool {
    &&& fs.len() >= BASE_COLUMNS
    &&& fs[0] == e.id@
    &&& fs[1] == e.document_id@
    &&& fs[2] == filename_of(docs, e.document_id@)
    &&& fs[3] == e.document_type@
    &&& exists|q: nat| hundredths_of(e.confidence.bits, q) && fs[4] == two_decimals(q)
    &&& fs[5] == (match e.model_used {
        Some(m) => m@,
        None => Seq::empty(),
    })
    &&& fs[6] == int_text(e.processing_time_ms as int)
}

/// The CSV text of a value: strings as they stand, numbers and booleans in
/// their canonical form, null as nothing, arrays and objects as compact JSON.
pub open spec fn flatten_spec(c: JsonCell) -> Seq<char> {
    match c {
        JsonCell::Text(s) => s@,
        JsonCell::Number(t, _) => t@,
        JsonCell::Bool(b) => if b { "true"@ } else { "false"@ },
        JsonCell::Null => Seq::empty(),
        JsonCell::Nested(t) => t@,
    }
}

/// The CSV text of a value read as a cell.
pub fn flatten_cell(c: &JsonCell) -> (r: String)
    ensures
        r@ == flatten_spec(*c),
{
    match c {
        JsonCell::Text(s) => s.clone(),
        JsonCell::Number(t, _) => t.clone(),
        JsonCell::Bool(b) => String::from_str(if *b { "true" } else { "false" }),
        JsonCell::Null => string_of(&Vec::new()),
        JsonCell::Nested(t) => t.clone(),
    }
}

/// Flatten a JSON value to its CSV text: strings as they stand, numbers
/// and booleans in their canonical form, null as nothing, arrays and objects
/// as compact JSON.
pub fn flatten_json_value(v: &serde_json::Value) -> (r: String)
    ensures
        exists|c: JsonCell| r@ == flatten_spec(c),
{
    let c = json_cell(v);
    let r = flatten_cell(&c);
    assert(r@ == flatten_spec(c));
    r
}

/// The CSV text of a structured-data key: its value flattened, empty where
/// the key (or the data) is missing.
pub open spec fn key_text(data: Option<serde_json::Value>, key: Seq<char>) -> Seq<char> {
    match data {
        Some(v) => match value_get(v, key) {
            Some(f) => flatten_spec(cell_of(f)),
            None => Seq::empty(),
        },
        None => Seq::empty(),
    }
}

/// The cell of a structured-data key, as CSV text; empty where the key is missing.
fn key_cell(data: &Option<serde_json::Value>, key: &String) -> (r: Vec<char>)
    ensures
        r@ == key_text(*data, key@),
{
    match data {
        Some(v) => match json_field(v, key.as_str()) {
            Some(f) => chars_of(flatten_cell(&json_cell(&f)).as_str()),
            None => Vec::new(),
        },
        None => Vec::new(),
    }
}

/// The fields of one extraction's row.
fn csv_row(e: &Extraction, docs: &Vec<Document>, keys: &Vec<String>) -> (r: Vec<Vec<char>>)
    requires
        e.confidence.wf(),
    ensures
        r@.len() == BASE_COLUMNS + keys@.len(),
        base_row_ok(field_texts(r@), *e, docs@),
        forall|j: int|
            0 <= j < keys@.len() ==> #[trigger] field_texts(r@)[BASE_COLUMNS + j] == key_text(
                e.structured_data,
                keys@[j]@,
            ),
{
    let mut r: Vec<Vec<char>> = Vec::new();
    r.push(chars_of(e.id.as_str()));
    r.push(chars_of(e.document_id.as_str()));
    r.push(lookup_filename(docs, &e.document_id));
    r.push(chars_of(e.document_type.as_str()));
    let mut sc: Vec<char> = Vec::new();
    push_score(&mut sc, e.confidence);
    r.push(sc);
    r.push(
        match &e.model_used {
            Some(m) => chars_of(m.as_str()),
            None => Vec::new(),
        },
    );
    r.push(i64_text(e.processing_time_ms));
    let ghost base = r@;
    let mut k: usize = 0;
    while k < keys.len()
        invariant
            k <= keys@.len(),
            r@.len() == BASE_COLUMNS + k,
            r@.subrange(0, BASE_COLUMNS as int) == base,
            forall|j: int|
                0 <= j < k ==> #[trigger] r@[BASE_COLUMNS + j]@ == key_text(
                    e.structured_data,
                    keys@[j]@,
                ),
        decreases keys@.len() - k,
    {
        r.push(key_cell(&e.structured_data, &keys[k]));
        k = k + 1;
        assert(r@.subrange(0, BASE_COLUMNS as int) =~= base);
    }
    proof {
        let ft = field_texts(r@);
        assert forall|m: int| 0 <= m < BASE_COLUMNS implies ft[m] == base[m]@ by {
            assert(r@[m] == r@.subrange(0, BASE_COLUMNS as int)[m]);
        }
        assert forall|j: int| 0 <= j < keys@.len() implies #[trigger] ft[BASE_COLUMNS + j]
            == key_text(e.structured_data, keys@[j]@) by {
            assert(r@[BASE_COLUMNS + j]@ == key_text(e.structured_data, keys@[j]@));
        }
    }
    r
}

/// `text` is the CSV export of these extractions: a header of the base
/// columns and the dynamic columns (the extractions' top-level keys but the
/// base ones, sorted), then one row per extraction, in order, each with as
/// many fields as the header and, under each dynamic column, its value.
pub open spec fn csv_export_of(text: Seq<char>, extractions: Seq<Extraction>, documents: Seq<
    Document,
>) -> bool {
    exists|keys: Seq<String>, rows: Seq<Seq<Seq<char>>>|
        {
            &&& sorted_keys(keys)
            &&& (forall|x: Seq<char>| #[trigger]
                has_key(keys, x) <==> is_dynamic_key(extractions, None, x))
            &&& rows.len() == extractions.len()
            &&& forall|i: int| 0 <= i < rows.len() ==> (#[trigger] rows[i]).len() == BASE_COLUMNS
                + keys.len() && base_row_ok(rows[i], extractions[i], documents) && forall|j: int|
                0 <= j < keys.len() ==> rows[i][BASE_COLUMNS + j] == key_text(
                    extractions[i].structured_data,
                    keys[j]@,
                )
            &&& text == csv_line(csv_base_header() + keys.map_values(|k: String| k@)) + csv_lines(
                rows,
            )
        }
}

/// Export extractions as CSV: a header of the base columns and the dynamic
/// columns, then one row per extraction with the same number of fields.
pub fn to_csv_text(extractions: &Vec<Extraction>, documents: &Vec<Document>) -> (r: String)
    requires
        forall|i: int| 0 <= i < extractions@.len() ==> (#[trigger] extractions@[i]).confidence.wf(),
    ensures
        csv_export_of(r@, extractions@, documents@),
{
    let keys = dynamic_keys(extractions, None);
    let mut header: Vec<Vec<char>> = Vec::new();
    header.push(chars_of("extraction_id"));
    header.push(chars_of("document_id"));
    header.push(chars_of("filename"));
    header.push(chars_of("document_type"));
    header.push(chars_of("confidence"));
    header.push(chars_of("model_used"));
    header.push(chars_of("processing_time_ms"));
    let ghost base = header@;
    let mut k: usize = 0;
    while k < keys.len()
        invariant
            k <= keys@.len(),
            header@.len() == BASE_COLUMNS + k,
            header@.subrange(0, BASE_COLUMNS as int) == base,
            forall|m: int| 0 <= m < k ==> #[trigger] header@[BASE_COLUMNS + m]@ == keys@[m]@,
        decreases keys@.len() - k,
    {
        header.push(chars_of(keys[k].as_str()));
        k = k + 1;
        assert(header@.subrange(0, BASE_COLUMNS as int) =~= base);
    }
    proof {
        let want = csv_base_header() + keys@.map_values(|k: String| k@);
        assert forall|m: int| 0 <= m < BASE_COLUMNS implies field_texts(header@)[m] == want[m] by {
            assert(header@[m] == header@.subrange(0, BASE_COLUMNS as int)[m]);
        }
        assert forall|m: int| BASE_COLUMNS <= m < header@.len() implies field_texts(header@)[m]
            == want[m] by {
            assert(header@[BASE_COLUMNS + (m - BASE_COLUMNS)]@ == keys@[m - BASE_COLUMNS]@);
        }
        assert(field_texts(header@) =~= want);
    }
    let mut out: Vec<char> = Vec::new();
    push_line(&mut out, &header);
    let ghost head = out@;
    let ghost mut rows: Seq<Seq<Seq<char>>> = Seq::empty();
    let mut i: usize = 0;
    while i < extractions.len()
        invariant
            i <= extractions@.len(),
            rows.len() == i,
            forall|j: int| 0 <= j < extractions@.len() ==> (#[trigger] extractions@[j]).confidence.wf(),
            forall|j: int| 0 <= j < i ==> (#[trigger] rows[j]).len() == BASE_COLUMNS
                + keys@.len() && base_row_ok(rows[j], extractions@[j], documents@) && forall|q: int|
                0 <= q < keys@.len() ==> rows[j][BASE_COLUMNS + q] == key_text(
                    extractions@[j].structured_data,
                    keys@[q]@,
                ),
            out@ == head + csv_lines(rows),
        decreases extractions@.len() - i,
    {
        let fields = csv_row(&extractions[i], documents, &keys);
        push_line(&mut out, &fields);
        proof {
            let old_rows = rows;
            rows = rows.push(field_texts(fields@));
            assert(rows.drop_last() =~= old_rows);
        }
        i = i + 1;
    }
    let r = string_of(&out);
    assert(csv_export_of(r@, extractions@, documents@));
    r
}

// ---------------------------------------------------------------------------
// Reading a CSV record back

/// Where a CSV reader stands inside a field.
pub ghost enum CsvMode {
    /// In an unquoted field.
    Plain,
    /// Inside quotes.
    Quoted,
    /// Just after a quote inside quotes: a closing quote, or the first of a
    /// doubled one.
    QuoteSeen,
}

/// The state of an RFC 4180 reader over one record.
pub ghost struct CsvScan {
    pub fields: Seq<Seq<char>>,
    pub cur: Seq<char>,
    pub mode: CsvMode,
}

/// One character of the reader: a comma outside quotes ends the field; a
/// quote opens quoting at the start of a field; inside quotes a doubled
/// quote stands for one quote and a single one closes the quoting.
pub open spec fn csv_step(st: CsvScan, c: char) -> CsvScan {
    match st.mode {
        CsvMode::Plain => if c == ',' {
            CsvScan { fields: st.fields.push(st.cur), cur: Seq::empty(), mode: CsvMode::Plain }
        } else if c == '"' && st.cur.len() == 0 {
            CsvScan { mode: CsvMode::Quoted, ..st }
        } else {
            CsvScan { cur: st.cur.push(c), ..st }
        },
        CsvMode::Quoted => if c == '"' {
            CsvScan { mode: CsvMode::QuoteSeen, ..st }
        } else {
            CsvScan { cur: st.cur.push(c), ..st }
        },
        CsvMode::QuoteSeen => if c == '"' {
            CsvScan { cur: st.cur.push('"'), mode: CsvMode::Quoted, ..st }
        } else if c == ',' {
            CsvScan { fields: st.fields.push(st.cur), cur: Seq::empty(), mode: CsvMode::Plain }
        } else {
            CsvScan { cur: st.cur.push(c), mode: CsvMode::Plain, ..st }
        },
    }
}

/// The reader's state after the characters of `s`.
pub open spec fn csv_scan(st: CsvScan, s: Seq<char>) -> CsvScan
    decreases s.len(),
{
    if s.len() == 0 {
        st
    } else {
        csv_step(csv_scan(st, s.drop_last()), s.last())
    }
}

/// The reader at the start of a record.
pub open spec fn csv_start() -> CsvScan {
    CsvScan { fields: Seq::empty(), cur: Seq::empty(), mode: CsvMode::Plain }
}

/// The fields of one record (its text without the line break), unescaped.
pub open spec fn csv_fields(record: Seq<char>) -> Seq<Seq<char>> {
    let st = csv_scan(csv_start(), record);
    st.fields.push(st.cur)
}

proof fn lemma_scan_concat(st: CsvScan, a: Seq<char>, b: Seq<char>)
    ensures
        csv_scan(st, a + b) == csv_scan(csv_scan(st, a), b),
    decreases b.len(),
{
    if b.len() == 0 {
        assert(a + b =~= a);
    } else {
        lemma_scan_concat(st, a, b.drop_last());
        assert((a + b).drop_last() =~= a + b.drop_last());
        assert((a + b).last() == b.last());
    }
}

proof fn lemma_scan_one(st: CsvScan, c: char)
    ensures
        csv_scan(st, seq![c]) == csv_step(st, c),
{
    assert(seq![c].drop_last() =~= Seq::<char>::empty());
    assert(seq![c].last() == c);
    assert(csv_scan(st, Seq::<char>::empty()) == st);
}

proof fn lemma_scan_plain(st: CsvScan, f: Seq<char>)
    requires
        st.mode == CsvMode::Plain,
        !needs_quotes(f),
    ensures
        csv_scan(st, f) == (CsvScan { cur: st.cur + f, ..st }),
    decreases f.len(),
{
    if f.len() == 0 {
        assert(st.cur + f =~= st.cur);
    } else {
        assert(!needs_quotes(f.drop_last())) by {
            if needs_quotes(f.drop_last()) {
                let i = choose|i: int| 0 <= i < f.drop_last().len() && (f.drop_last()[i] == ','
                    || f.drop_last()[i] == '"' || f.drop_last()[i] == '\n' || f.drop_last()[i]
                    == '\r');
                assert(f[i] == f.drop_last()[i]);
            }
        }
        lemma_scan_plain(st, f.drop_last());
        assert(f.last() == f[f.len() - 1]);
        assert((st.cur + f.drop_last()).push(f.last()) =~= st.cur + f);
    }
}

proof fn lemma_scan_quoted(st: CsvScan, f: Seq<char>)
    requires
        st.mode == CsvMode::Quoted,
    ensures
        csv_scan(st, double_quotes(f)) == (CsvScan { cur: st.cur + f, ..st }),
    decreases f.len(),
{
    if f.len() == 0 {
        assert(st.cur + f =~= st.cur);
    } else {
        lemma_scan_quoted(st, f.drop_last());
        let mid = CsvScan { cur: st.cur + f.drop_last(), ..st };
        if f.last() == '"' {
            let piece = seq!['"', '"'];
            lemma_scan_concat(st, double_quotes(f.drop_last()), piece);
            assert(piece =~= seq!['"'] + seq!['"']);
            lemma_scan_concat(mid, seq!['"'], seq!['"']);
            lemma_scan_one(mid, '"');
            lemma_scan_one(csv_step(mid, '"'), '"');
        } else {
            let piece = seq![f.last()];
            lemma_scan_concat(st, double_quotes(f.drop_last()), piece);
            lemma_scan_one(mid, f.last());
            assert(double_quotes(f) == double_quotes(f.drop_last()).push(f.last()));
            assert(double_quotes(f.drop_last()).push(f.last()) =~= double_quotes(f.drop_last())
                + piece);
        }
        assert((st.cur + f.drop_last()).push(f.last()) =~= st.cur + f);
    }
}

proof fn lemma_scan_field(st: CsvScan, f: Seq<char>)
    requires
        st.mode == CsvMode::Plain,
        st.cur.len() == 0,
    ensures
        csv_scan(st, csv_escape_spec(f)).fields == st.fields,
        csv_scan(st, csv_escape_spec(f)).cur == f,
        csv_scan(st, csv_escape_spec(f)).mode != CsvMode::Quoted,
{
    if needs_quotes(f) {
        let open = seq!['"'];
        lemma_scan_one(st, '"');
        let after_open = csv_scan(st, open);
        assert(after_open == (CsvScan { mode: CsvMode::Quoted, ..st }));
        lemma_scan_quoted(after_open, f);
        lemma_scan_concat(st, open, double_quotes(f));
        lemma_scan_concat(st, open + double_quotes(f), seq!['"']);
        let body = csv_scan(st, open + double_quotes(f));
        lemma_scan_one(body, '"');
        assert(st.cur + f =~= f);
    } else {
        lemma_scan_plain(st, f);
        assert(st.cur + f =~= f);
    }
}

proof fn lemma_scan_join(fs: Seq<Seq<char>>)
    requires
        fs.len() >= 1,
    ensures
        csv_scan(csv_start(), csv_join(fs)).fields == fs.drop_last(),
        csv_scan(csv_start(), csv_join(fs)).cur == fs.last(),
        csv_scan(csv_start(), csv_join(fs)).mode != CsvMode::Quoted,
    decreases fs.len(),
{
    if fs.len() == 1 {
        lemma_scan_field(csv_start(), fs[0]);
        assert(fs.drop_last() =~= Seq::<Seq<char>>::empty());
    } else {
        let pre = fs.drop_last();
        lemma_scan_join(pre);
        let st = csv_scan(csv_start(), csv_join(pre));
        lemma_scan_concat(csv_start(), csv_join(pre), seq![',']);
        lemma_scan_one(st, ',');
        let after = csv_scan(st, seq![',']);
        lemma_scan_field(after, fs.last());
        lemma_scan_concat(csv_start(), csv_join(pre) + seq![','], csv_escape_spec(fs.last()));
        assert(pre.drop_last().push(pre.last()) =~= pre);
    }
}

/// Reading a record back with an RFC 4180 reader gives exactly the fields
/// that were escaped and joined into it.
pub proof fn lemma_csv_record_round_trip(fs: Seq<Seq<char>>)
    requires
        fs.len() >= 1,
    ensures
        csv_fields(csv_join(fs)) == fs,
{
    lemma_scan_join(fs);
    assert(fs.drop_last().push(fs.last()) =~= fs);
}

/// In a CSV export, the header read back is the base columns followed by
/// the dynamic keys in order, and every row read back gives back its fields,
/// exactly as many as the header has.
pub proof fn lemma_csv_export_widths(
    text: Seq<char>,
    extractions: Seq<Extraction>,
    documents: Seq<Document>,
)
    requires
        csv_export_of(text, extractions, documents),
    ensures
        exists|keys: Seq<String>, rows: Seq<Seq<Seq<char>>>|
            #![trigger sorted_keys(keys), csv_lines(rows)]
            {
                &&& sorted_keys(keys)
                &&& (forall|x: Seq<char>| #[trigger]
                    has_key(keys, x) <==> is_dynamic_key(extractions, None, x))
                &&& text == csv_line(csv_base_header() + keys.map_values(|k: String| k@))
                    + csv_lines(rows)
                &&& rows.len() == extractions.len()
                &&& csv_fields(csv_join(csv_base_header() + keys.map_values(|k: String| k@)))
                    == csv_base_header() + keys.map_values(|k: String| k@)
                &&& forall|i: int| 0 <= i < rows.len() ==> #[trigger] csv_fields(
                    csv_join(rows[i]),
                ) == rows[i] && rows[i].len() == BASE_COLUMNS + keys.len()
            },
{
    let (keys, rows) = choose|keys: Seq<String>, rows: Seq<Seq<Seq<char>>>|
        {
            &&& sorted_keys(keys)
            &&& (forall|x: Seq<char>| #[trigger]
                has_key(keys, x) <==> is_dynamic_key(extractions, None, x))
            &&& rows.len() == extractions.len()
            &&& forall|i: int| 0 <= i < rows.len() ==> (#[trigger] rows[i]).len() == BASE_COLUMNS
                + keys.len() && base_row_ok(rows[i], extractions[i], documents) && forall|j: int|
                0 <= j < keys.len() ==> rows[i][BASE_COLUMNS + j] == key_text(
                    extractions[i].structured_data,
                    keys[j]@,
                )
            &&& text == csv_line(csv_base_header() + keys.map_values(|k: String| k@)) + csv_lines(
                rows,
            )
        };
    let header = csv_base_header() + keys.map_values(|k: String| k@);
    lemma_csv_record_round_trip(header);
    assert forall|i: int| 0 <= i < rows.len() implies #[trigger] csv_fields(csv_join(rows[i]))
        == rows[i] && rows[i].len() == BASE_COLUMNS + keys.len() by {
        lemma_csv_record_round_trip(rows[i]);
    }
}

// ---------------------------------------------------------------------------
// Excel

/// What one cell of the workbook holds.
pub enum CellValue {
    /// A bold label.
    Label(String),
    Text(String),
    Int(i64),
    Score(Confidence),
    /// A boolean cell.
    Bool(bool),
    /// A JSON number: its canonical text and, where it has one, the bit
    /// pattern of its value as a double (written as a number cell).
    Number(String, Option<u64>),
}

/// One cell write.
pub struct CellWrite {
    pub row: u32,
    pub col: u16,
    pub value: CellValue,
}

/// One sheet of the workbook.
pub struct SheetPlan {
    pub name: String,
    pub cells: Vec<CellWrite>,
}

/// The layout of the Excel export.
pub struct WorkbookPlan {
    pub sheets: Vec<SheetPlan>,
}

/// The longest text a cell holds before it is cut.
pub const MAX_CELL_TEXT: usize = 32767;

/// Where a text that is too long for a cell is cut.
pub const CELL_CUT: usize = 32760;

/// A compact JSON text as a cell: cut at 32 760 characters and marked with
/// `...` where it is longer than 32 767.
pub open spec fn cell_text_of(t: Seq<char>) -> Seq<char> {
    if t.len() > MAX_CELL_TEXT {
        t.subrange(0, CELL_CUT as int) + "..."@
    } else {
        t
    }
}

/// A compact JSON text as a cell.
pub fn cell_text(t: &String) -> (r: String)
    ensures
        r@ == cell_text_of(t@),
{
    let c = chars_of(t.as_str());
    if c.len() > MAX_CELL_TEXT {
        let mut out = crate::text::slice_chars(&c, 0, CELL_CUT);
        push_str(&mut out, "...");
        string_of(&out)
    } else {
        string_of(&c)
    }
}

/// The cell a JSON value becomes: strings as text, numbers as numbers,
/// booleans as booleans, arrays and objects as cut compact JSON; null as no cell.
pub open spec fn json_cell_value_ok(c: JsonCell, v: Option<CellValue>) -> bool {
    match c {
        JsonCell::Text(s) => v matches Some(CellValue::Text(t)) && t@ == s@,
        JsonCell::Number(t, b) => v matches Some(CellValue::Number(u, d)) && u@ == t@ && d == b,
        JsonCell::Bool(b) => v matches Some(CellValue::Bool(x)) && x == b,
        JsonCell::Null => v is None,
        JsonCell::Nested(t) => v matches Some(CellValue::Text(u)) && u@ == cell_text_of(t@),
    }
}

/// The cell a JSON value becomes.
pub fn json_cell_value(c: JsonCell) -> (r: Option<CellValue>)
    ensures
        json_cell_value_ok(c, r),
{
    match c {
        JsonCell::Text(s) => Some(CellValue::Text(s)),
        JsonCell::Number(t, b) => Some(CellValue::Number(t, b)),
        JsonCell::Bool(b) => Some(CellValue::Bool(b)),
        JsonCell::Null => None,
        JsonCell::Nested(t) => Some(CellValue::Text(cell_text(&t))),
    }
}

/// A cell that holds this text in bold.
pub open spec fn is_label(w: CellWrite, row: u32, col: u16, text: Seq<char>) -> bool {
    &&& w.row == row
    &&& w.col == col
    &&& (w.value matches CellValue::Label(t) && t@ == text)
}

/// A cell that holds this text.
pub open spec fn is_text_cell(w: CellWrite, row: u32, col: u16, text: Seq<char>) -> bool {
    &&& w.row == row
    &&& w.col == col
    &&& (w.value matches CellValue::Text(t) && t@ == text)
}

fn label(row: u32, col: u16, text: &str) -> (r: CellWrite)
    ensures
        is_label(r, row, col, text@),
{
    CellWrite { row, col, value: CellValue::Label(String::from_str(text)) }
}

fn text_cell(row: u32, col: u16, text: &str) -> (r: CellWrite)
    ensures
        is_text_cell(r, row, col, text@),
{
    CellWrite { row, col, value: CellValue::Text(String::from_str(text)) }
}

/// The summary sheet of a batch: label and value pairs, the model only where
/// the batch names one.
pub open spec fn summary_ok(r: SheetPlan, batch: Batch) -> bool {
    &&& (r.name@ == "Summary"@)
    &&& (r.cells@.len() == (if batch.model_name is Some { 16int } else { 14int }))
    &&& (is_label(r.cells@[0], 0, 0, "Batch ID"@) && is_text_cell(r.cells@[1], 0, 1, batch.id@))
    &&& (is_label(r.cells@[2], 1, 0, "Batch Name"@) && is_text_cell(r.cells@[3], 1, 1, batch.name@))
    &&& (is_label(r.cells@[4], 2, 0, "Status"@) && is_text_cell(r.cells@[5], 2, 1, batch.status@))
    &&& (is_label(r.cells@[6], 3, 0, "Created"@) && is_text_cell(r.cells@[7], 3, 1, batch.created_at@))
    &&& (is_label(r.cells@[8], 4, 0, "Total Files"@) && r.cells@[9].row == 4 && r.cells@[9].col == 1 && r.cells@[9].value == CellValue::Int(batch.total_files as i64))
    &&& (is_label(r.cells@[10], 5, 0, "Processed"@) && r.cells@[11].row == 5 && r.cells@[11].col == 1 && r.cells@[11].value == CellValue::Int(batch.processed_files as i64))
    &&& (is_label(r.cells@[12], 6, 0, "Failed"@) && r.cells@[13].row == 6 && r.cells@[13].col == 1 && r.cells@[13].value == CellValue::Int(batch.failed_files as i64))
    &&& (batch.model_name matches Some(m) ==> (is_label(r.cells@[14], 7, 0, "Model"@)
        && is_text_cell(r.cells@[15], 7, 1, m@)))
}

/// The summary sheet: label and value pairs for the batch, the model only
/// where the batch names one.
pub fn summary_sheet(batch: &Batch) -> (r: SheetPlan)
    ensures
        summary_ok(r, *batch),
{
    let mut c: Vec<CellWrite> = Vec::new();
    c.push(label(0, 0, "Batch ID"));
    c.push(text_cell(0, 1, batch.id.as_str()));
    c.push(label(1, 0, "Batch Name"));
    c.push(text_cell(1, 1, batch.name.as_str()));
    c.push(label(2, 0, "Status"));
    c.push(text_cell(2, 1, batch.status.as_str()));
    c.push(label(3, 0, "Created"));
    c.push(text_cell(3, 1, batch.created_at.as_str()));
    c.push(label(4, 0, "Total Files"));
    c.push(CellWrite { row: 4, col: 1, value: CellValue::Int(batch.total_files as i64) });
    c.push(label(5, 0, "Processed"));
    c.push(CellWrite { row: 5, col: 1, value: CellValue::Int(batch.processed_files as i64) });
    c.push(label(6, 0, "Failed"));
    c.push(CellWrite { row: 6, col: 1, value: CellValue::Int(batch.failed_files as i64) });
    if let Some(m) = &batch.model_name {
        c.push(label(7, 0, "Model"));
        c.push(text_cell(7, 1, m.as_str()));
    }
    SheetPlan { name: String::from_str("Summary"), cells: c }
}

/// The value a row shows under a key: the data's value there, unless it is
/// missing or null.
pub open spec fn key_value(data: Option<serde_json::Value>, key: Seq<char>) -> Option<JsonCell> {
    match data {
        Some(v) => match value_get(v, key) {
            Some(f) => if cell_of(f) is Null {
                None
            } else {
                Some(cell_of(f))
            },
            None => None,
        },
        None => None,
    }
}

/// The key cells of a row: one per key that has a value, in key order, in
/// that key's column.
pub open spec fn key_cells_ok(
    c: Seq<CellWrite>,
    data: Option<serde_json::Value>,
    keys: Seq<String>,
    row: u32,
    first_col: int,
) -> bool
    decreases keys.len(),
{
    if keys.len() == 0 {
        c.len() == 0
    } else {
        match key_value(data, keys.last()@) {
            Some(jc) => {
                &&& c.len() > 0
                &&& key_cells_ok(c.drop_last(), data, keys.drop_last(), row, first_col)
                &&& c.last().row == row
                &&& c.last().col as int == first_col + keys.len() - 1
                &&& json_cell_value_ok(jc, Some(c.last().value))
            },
            None => key_cells_ok(c, data, keys.drop_last(), row, first_col),
        }
    }
}

/// The key cells of one row.
fn key_cells(data: &Option<serde_json::Value>, keys: &Vec<String>, row: u32, first_col: u16) -> (r:
    Vec<CellWrite>)
    requires
        first_col as int + keys@.len() <= u16::MAX,
    ensures
        key_cells_ok(r@, *data, keys@, row, first_col as int),
{
    let mut r: Vec<CellWrite> = Vec::new();
    let mut k: usize = 0;
    assert(keys@.subrange(0, 0) =~= Seq::<String>::empty());
    while k < keys.len()
        invariant
            k <= keys@.len(),
            first_col as int + keys@.len() <= u16::MAX,
            key_cells_ok(r@, *data, keys@.subrange(0, k as int), row, first_col as int),
        decreases keys@.len() - k,
    {
        let ghost before = r@;
        let ghost ks = keys@.subrange(0, k + 1);
        assert(ks.drop_last() =~= keys@.subrange(0, k as int));
        assert(ks.last() == keys@[k as int]);
        if let Some(v) = data {
            if let Some(f) = json_field(v, keys[k].as_str()) {
                if let Some(value) = json_cell_value(json_cell(&f)) {
                    r.push(CellWrite { row, col: first_col + k as u16, value });
                    assert(r@.drop_last() =~= before);
                }
            }
        }
        k = k + 1;
    }
    assert(keys@.subrange(0, keys@.len() as int) =~= keys@);
    r
}

/// The cells of several rows, one after another.
pub open spec fn concat_cells(segs: Seq<Seq<CellWrite>>) -> Seq<CellWrite>
    decreases segs.len(),
{
    if segs.len() == 0 {
        Seq::empty()
    } else {
        concat_cells(segs.drop_last()) + segs.last()
    }
}

/// A header row: the base labels, then one label per key, all bold, in order.
pub open spec fn header_ok(h: Seq<CellWrite>, base: Seq<Seq<char>>, keys: Seq<String>) -> bool {
    &&& h.len() == base.len() + keys.len()
    &&& forall|i: int| 0 <= i < base.len() ==> is_label(#[trigger] h[i], 0, i as u16, base[i])
    &&& forall|j: int|
        0 <= j < keys.len() ==> is_label(
            #[trigger] h[base.len() + j],
            0,
            (base.len() + j) as u16,
            keys[j]@,
        )
}

/// The header labels of the sheet of all extractions.
pub open spec fn extraction_labels() -> Seq<Seq<char>> {
    seq!["Extraction ID"@, "Filename"@, "Document Type"@, "Confidence"@, "Model"@, "Time (ms)"@]
}

/// The header labels of a per-type sheet.
pub open spec fn type_labels() -> Seq<Seq<char>> {
    seq!["Filename"@, "Confidence"@, "Model"@]
}

/// The model of an extraction as text, empty where it has none.
pub open spec fn model_text(e: Extraction) -> Seq<char> {
    match e.model_used {
        Some(m) => m@,
        None => Seq::empty(),
    }
}

/// A row of the sheet of all extractions.
pub open spec fn extraction_row_ok(
    c: Seq<CellWrite>,
    e: Extraction,
    docs: Seq<Document>,
    keys: Seq<String>,
    row: u32,
) -> bool {
    &&& c.len() >= 6
    &&& is_text_cell(c[0], row, 0, e.id@)
    &&& is_text_cell(c[1], row, 1, filename_of(docs, e.document_id@))
    &&& is_text_cell(c[2], row, 2, e.document_type@)
    &&& c[3].row == row && c[3].col == 3 && c[3].value == CellValue::Score(e.confidence)
    &&& is_text_cell(c[4], row, 4, model_text(e))
    &&& c[5].row == row && c[5].col == 5 && c[5].value == CellValue::Int(e.processing_time_ms)
    &&& key_cells_ok(c.subrange(6, c.len() as int), e.structured_data, keys, row, 6)
}

/// A row of a per-type sheet.
pub open spec fn type_row_ok(
    c: Seq<CellWrite>,
    e: Extraction,
    docs: Seq<Document>,
    keys: Seq<String>,
    row: u32,
) -> bool {
    &&& c.len() >= 3
    &&& is_text_cell(c[0], row, 0, filename_of(docs, e.document_id@))
    &&& c[1].row == row && c[1].col == 1 && c[1].value == CellValue::Score(e.confidence)
    &&& is_text_cell(c[2], row, 2, model_text(e))
    &&& key_cells_ok(c.subrange(3, c.len() as int), e.structured_data, keys, row, 3)
}

/// A sheet made of a header and then one row per extraction, row `i + 1`
/// describing extraction `i`.
pub open spec fn rows_sheet_ok(
    cells: Seq<CellWrite>,
    base: Seq<Seq<char>>,
    exts: Seq<Extraction>,
    docs: Seq<Document>,
    keys: Seq<String>,
    per_type: bool,
) -> bool {
    let hl = base.len() + keys.len();
    &&& cells.len() >= hl
    &&& header_ok(cells.subrange(0, hl as int), base, keys)
    &&& exists|segs: Seq<Seq<CellWrite>>|
        {
            &&& segs.len() == exts.len()
            &&& cells.subrange(hl as int, cells.len() as int) == concat_cells(segs)
            &&& forall|i: int|
                0 <= i < segs.len() ==> if per_type {
                    type_row_ok(#[trigger] segs[i], exts[i], docs, keys, (i + 1) as u32)
                } else {
                    extraction_row_ok(#[trigger] segs[i], exts[i], docs, keys, (i + 1) as u32)
                }
        }
}

/// Appends the base labels of a header.
fn push_labels(c: &mut Vec<CellWrite>, per_type: bool)
    requires
        old(c)@.len() == 0,
    ensures
        final(c)@.len() == (if per_type { type_labels() } else { extraction_labels() }).len(),
        forall|i: int|
            0 <= i < final(c)@.len() ==> is_label(
                #[trigger] final(c)@[i],
                0,
                i as u16,
                (if per_type { type_labels() } else { extraction_labels() })[i],
            ),
{
    if per_type {
        c.push(label(0, 0, "Filename"));
        c.push(label(0, 1, "Confidence"));
        c.push(label(0, 2, "Model"));
    } else {
        c.push(label(0, 0, "Extraction ID"));
        c.push(label(0, 1, "Filename"));
        c.push(label(0, 2, "Document Type"));
        c.push(label(0, 3, "Confidence"));
        c.push(label(0, 4, "Model"));
        c.push(label(0, 5, "Time (ms)"));
    }
}

/// The header of a sheet.
fn header_cells(keys: &Vec<String>, per_type: bool) -> (r: Vec<CellWrite>)
    requires
        keys@.len() + 6 <= u16::MAX,
    ensures
        header_ok(r@, if per_type { type_labels() } else { extraction_labels() }, keys@),
{
    let ghost base = if per_type { type_labels() } else { extraction_labels() };
    let mut c: Vec<CellWrite> = Vec::new();
    push_labels(&mut c, per_type);
    let nb = c.len();
    let mut k: usize = 0;
    while k < keys.len()
        invariant
            k <= keys@.len(),
            keys@.len() + 6 <= u16::MAX,
            nb == base.len() <= 6,
            c@.len() == nb + k,
            forall|i: int| 0 <= i < nb ==> is_label(#[trigger] c@[i], 0, i as u16, base[i]),
            forall|j: int| 0 <= j < k ==> is_label(#[trigger] c@[nb + j], 0, (nb + j) as u16, keys@[j]@),
        decreases keys@.len() - k,
    {
        c.push(CellWrite { row: 0, col: (nb + k) as u16, value: CellValue::Label(keys[k].clone()) });
        k = k + 1;
    }
    c
}

/// The cells of one row.
fn row_cells(e: &Extraction, documents: &Vec<Document>, keys: &Vec<String>, row: u32, per_type: bool) -> (r:
    Vec<CellWrite>)
    requires
        keys@.len() + 6 <= u16::MAX,
    ensures
        per_type ==> type_row_ok(r@, *e, documents@, keys@, row),
        !per_type ==> extraction_row_ok(r@, *e, documents@, keys@, row),
{
    let mut c: Vec<CellWrite> = Vec::new();
    let model = match &e.model_used {
        Some(m) => m.clone(),
        None => string_of(&Vec::new()),
    };
    let filename = string_of(&lookup_filename(documents, &e.document_id));
    let first: u16 = if per_type { 3 } else { 6 };
    if per_type {
        c.push(CellWrite { row, col: 0, value: CellValue::Text(filename) });
        c.push(CellWrite { row, col: 1, value: CellValue::Score(e.confidence) });
        c.push(CellWrite { row, col: 2, value: CellValue::Text(model) });
    } else {
        c.push(CellWrite { row, col: 0, value: CellValue::Text(e.id.clone()) });
        c.push(CellWrite { row, col: 1, value: CellValue::Text(filename) });
        c.push(CellWrite { row, col: 2, value: CellValue::Text(e.document_type.clone()) });
        c.push(CellWrite { row, col: 3, value: CellValue::Score(e.confidence) });
        c.push(CellWrite { row, col: 4, value: CellValue::Text(model) });
        c.push(CellWrite { row, col: 5, value: CellValue::Int(e.processing_time_ms) });
    }
    let ghost base = c@;
    let mut kc = key_cells(&e.structured_data, keys, row, first);
    let ghost ks = kc@;
    c.append(&mut kc);
    assert(c@.subrange(first as int, c@.len() as int) =~= ks);
    assert(c@.subrange(0, first as int) =~= base);
    assert(c@[0] == base[0] && c@[1] == base[1] && c@[2] == base[2]);
    if !per_type {
        assert(c@[3] == base[3] && c@[4] == base[4] && c@[5] == base[5]);
    }
    c
}

/// A sheet of a header and one row per extraction.
fn rows_sheet(
    name: String,
    extractions: &Vec<Extraction>,
    documents: &Vec<Document>,
    keys: &Vec<String>,
    per_type: bool,
) -> (r: SheetPlan)
    requires
        extractions@.len() < u32::MAX,
        keys@.len() + 6 <= u16::MAX,
    ensures
        r.name == name,
        rows_sheet_ok(
            r.cells@,
            if per_type { type_labels() } else { extraction_labels() },
            extractions@,
            documents@,
            keys@,
            per_type,
        ),
{
    let ghost base = if per_type { type_labels() } else { extraction_labels() };
    let mut c = header_cells(keys, per_type);
    let ghost h = c@;
    let ghost mut segs: Seq<Seq<CellWrite>> = Seq::empty();
    let mut i: usize = 0;
    while i < extractions.len()
        invariant
            i <= extractions@.len() < u32::MAX,
            keys@.len() + 6 <= u16::MAX,
            h.len() == base.len() + keys@.len(),
            segs.len() == i,
            c@ == h + concat_cells(segs),
            forall|j: int|
                0 <= j < i ==> if per_type {
                    type_row_ok(#[trigger] segs[j], extractions@[j], documents@, keys@, (j + 1) as u32)
                } else {
                    extraction_row_ok(#[trigger] segs[j], extractions@[j], documents@, keys@, (j + 1) as u32)
                },
        decreases extractions@.len() - i,
    {
        let mut row = row_cells(&extractions[i], documents, keys, (i + 1) as u32, per_type);
        let ghost rv = row@;
        c.append(&mut row);
        proof {
            let old_segs = segs;
            segs = segs.push(rv);
            assert(segs.drop_last() =~= old_segs);
            assert(c@ =~= h + concat_cells(segs));
        }
        i = i + 1;
    }
    proof {
        let hl = base.len() + keys@.len();
        assert(c@.subrange(0, hl as int) =~= h);
        assert(c@.subrange(hl as int, c@.len() as int) =~= concat_cells(segs));
    }
    SheetPlan { name, cells: c }
}

/// The sheet of all extractions with these dynamic columns.
pub open spec fn extractions_sheet_ok(
    sh: SheetPlan,
    exts: Seq<Extraction>,
    docs: Seq<Document>,
    keys: Seq<String>,
) -> bool {
    &&& sh.name@ == "Extractions"@
    &&& rows_sheet_ok(sh.cells@, extraction_labels(), exts, docs, keys, false)
}

/// The sheet of all extractions: a bold header of the base columns and the
/// dynamic columns, then one row per extraction.
pub fn extractions_sheet(
    extractions: &Vec<Extraction>,
    documents: &Vec<Document>,
    keys: &Vec<String>,
) -> (r: SheetPlan)
    requires
        extractions@.len() < u32::MAX,
        keys@.len() + 6 <= u16::MAX,
    ensures
        extractions_sheet_ok(r, extractions@, documents@, keys@),
{
    rows_sheet(String::from_str("Extractions"), extractions, documents, keys, false)
}

/// `t` is the document type of one of the extractions.
pub open spec fn is_some_type(exts: Seq<Extraction>, t: Seq<char>) -> bool {
    exists|i: int| 0 <= i < exts.len() && (#[trigger] exts[i]).document_type@ == t
}

/// The distinct document types among the extractions, sorted.
pub fn document_types(extractions: &Vec<Extraction>) -> (r: Vec<String>)
    ensures
        sorted_keys(r@),
        forall|m: int| 0 <= m < r@.len() ==> is_some_type(extractions@, (#[trigger] r@[m])@),
        forall|i: int| 0 <= i < extractions@.len() ==> has_key(
            r@,
            (#[trigger] extractions@[i]).document_type@,
        ),
{
    let mut r: Vec<String> = Vec::new();
    let mut i: usize = 0;
    while i < extractions.len()
        invariant
            i <= extractions@.len(),
            sorted_keys(r@),
            forall|m: int| 0 <= m < r@.len() ==> is_some_type(extractions@, (#[trigger] r@[m])@),
            forall|j: int| 0 <= j < i ==> has_key(r@, (#[trigger] extractions@[j]).document_type@),
        decreases extractions@.len() - i,
    {
        let ghost before = r@;
        insert_key(&mut r, extractions[i].document_type.clone());
        proof {
            assert forall|m: int| 0 <= m < r@.len() implies is_some_type(
                extractions@,
                (#[trigger] r@[m])@,
            ) by {
                if r@[m]@ != extractions@[i as int].document_type@ {
                    let n = choose|n: int| 0 <= n < before.len() && #[trigger] before[n]@ == r@[m]@;
                    assert(is_some_type(extractions@, before[n]@));
                } else {
                    assert(extractions@[i as int].document_type@ == r@[m]@);
                }
            }
            assert forall|j: int| 0 <= j < i + 1 implies has_key(
                r@,
                (#[trigger] extractions@[j]).document_type@,
            ) by {
                if j < i {
                    let n = choose|n: int| 0 <= n < before.len() && #[trigger] before[n]@
                        == extractions@[j].document_type@;
                    assert(has_key(r@, before[n]@));
                }
            }
        }
        i = i + 1;
    }
    r
}

/// The extractions of a type, in order.
pub open spec fn of_type(exts: Seq<Extraction>, t: Seq<char>) -> Seq<Extraction>
    decreases exts.len(),
{
    if exts.len() == 0 {
        Seq::empty()
    } else if exts.last().document_type@ == t {
        of_type(exts.drop_last(), t).push(exts.last())
    } else {
        of_type(exts.drop_last(), t)
    }
}

/// The sheet of one document type: named after the type, with `Filename`,
/// `Confidence`, `Model` and the type's dynamic columns, and one row per
/// extraction of that type.
pub open spec fn type_sheet_ok(sh: SheetPlan, t: Seq<char>, exts: Seq<Extraction>, docs: Seq<Document>) -> bool {
    &&& sh.name@ == sheet_name_of(t)
    &&& exists|keys: Seq<String>|
        {
            &&& sorted_keys(keys)
            &&& (forall|x: Seq<char>| #[trigger]
                has_key(keys, x) <==> is_dynamic_key(exts, Some(t), x))
            &&& rows_sheet_ok(sh.cells@, type_labels(), of_type(exts, t), docs, keys, true)
        }
}

/// The extractions of a type.
fn extractions_of_type(extractions: &Vec<Extraction>, t: &String) -> (r: Vec<Extraction>)
    ensures
        r@ == of_type(extractions@, t@),
{
    let tc = chars_of(t.as_str());
    let mut r: Vec<Extraction> = Vec::new();
    let mut i: usize = 0;
    while i < extractions.len()
        invariant
            i <= extractions@.len(),
            tc@ == t@,
            r@ == of_type(extractions@.subrange(0, i as int), t@),
        decreases extractions@.len() - i,
    {
        assert(extractions@.subrange(0, i + 1).drop_last() =~= extractions@.subrange(0, i as int));
        if same_chars(&chars_of(extractions[i].document_type.as_str()), &tc) {
            r.push(crate::store::copy_extraction(&extractions[i]));
        }
        i = i + 1;
    }
    assert(extractions@.subrange(0, extractions@.len() as int) =~= extractions@);
    r
}

/// `keys` are the dynamic columns over the extractions (of the given type),
/// and a sheet with them would have more columns than a cell position holds.
pub open spec fn too_wide(exts: Seq<Extraction>, t: Option<Seq<char>>, keys: Seq<String>) -> bool {
    &&& forall|x: Seq<char>| #[trigger] has_key(keys, x) <==> is_dynamic_key(exts, t, x)
    &&& keys.len() + 6 > u16::MAX
}

/// Why the Excel export could not be laid out.
#[derive(Debug, Clone, Copy, PartialEq, Eq, Structural)]
pub enum ExcelError {
    /// A sheet would need more rows or columns than a cell position holds.
    TooLarge,
}

/// The sheet of the extractions of one document type.
pub fn type_sheet(
    document_type: &String,
    extractions: &Vec<Extraction>,
    documents: &Vec<Document>,
) -> (r: Result<SheetPlan, ExcelError>)
    requires
        extractions@.len() < u32::MAX,
    ensures
        r matches Ok(sh) ==> type_sheet_ok(sh, document_type@, extractions@, documents@),
        r is Err ==> exists|keys: Seq<String>| #[trigger]
            too_wide(extractions@, Some(document_type@), keys),
{
    let keys = dynamic_keys(extractions, Some(document_type.as_str()));
    if keys.len() > (u16::MAX as usize) - 6 {
        assert(too_wide(extractions@, Some(document_type@), keys@));
        return Err(ExcelError::TooLarge);
    }
    let typed = extractions_of_type(extractions, document_type);
    proof {
        lemma_of_type_len(extractions@, document_type@);
    }
    let sh = rows_sheet(sheet_name(document_type.as_str()), &typed, documents, &keys, true);
    Ok(sh)
}

proof fn lemma_of_type_len(exts: Seq<Extraction>, t: Seq<char>)
    ensures
        of_type(exts, t).len() <= exts.len(),
    decreases exts.len(),
{
    if exts.len() > 0 {
        lemma_of_type_len(exts.drop_last(), t);
    }
}

/// The workbook of a batch: the summary sheet, the sheet of all extractions
/// with the batch's dynamic columns, then one sheet per document type
/// present, in the order of the types.
pub open spec fn workbook_ok(p: WorkbookPlan, batch: Batch, exts: Seq<Extraction>, docs: Seq<Document>) -> bool {
    &&& p.sheets@.len() >= 2
    &&& summary_ok(p.sheets@[0], batch)
    &&& exists|keys: Seq<String>|
        {
            &&& sorted_keys(keys)
            &&& (forall|x: Seq<char>| #[trigger] has_key(keys, x) <==> is_dynamic_key(exts, None, x))
            &&& extractions_sheet_ok(p.sheets@[1], exts, docs, keys)
        }
    &&& exists|types: Seq<String>|
        {
            &&& sorted_keys(types)
            &&& p.sheets@.len() == 2 + types.len()
            &&& (forall|i: int| 0 <= i < exts.len() ==> has_key(types, (#[trigger] exts[i]).document_type@))
            &&& (forall|m: int| 0 <= m < types.len() ==> is_some_type(exts, (#[trigger] types[m])@))
            &&& forall|m: int|
                0 <= m < types.len() ==> type_sheet_ok(#[trigger] p.sheets@[2 + m], types[m]@, exts, docs)
        }
}

/// The layout of the Excel export of a batch. Fails only where a sheet would
/// be too large for cell positions.
pub fn excel_plan(batch: &Batch, extractions: &Vec<Extraction>, documents: &Vec<Document>) -> (r: Result<
    WorkbookPlan,
    ExcelError,
>)
    ensures
        r matches Ok(p) ==> workbook_ok(p, *batch, extractions@, documents@),
        r is Err ==> extractions@.len() >= u32::MAX || exists|keys: Seq<String>, t: Option<Seq<char>>|
            #[trigger] too_wide(extractions@, t, keys),
{
    if extractions.len() >= u32::MAX as usize {
        return Err(ExcelError::TooLarge);
    }
    let keys = dynamic_keys(extractions, None);
    if keys.len() > (u16::MAX as usize) - 6 {
        assert(too_wide(extractions@, None, keys@));
        return Err(ExcelError::TooLarge);
    }
    let mut sheets: Vec<SheetPlan> = Vec::new();
    sheets.push(summary_sheet(batch));
    sheets.push(extractions_sheet(extractions, documents, &keys));
    let types = document_types(extractions);
    let mut t: usize = 0;
    while t < types.len()
        invariant
            t <= types@.len(),
            extractions@.len() < u32::MAX,
            sheets@.len() == 2 + t,
            summary_ok(sheets@[0], *batch),
            extractions_sheet_ok(sheets@[1], extractions@, documents@, keys@),
            forall|m: int|
                0 <= m < t ==> type_sheet_ok(#[trigger] sheets@[2 + m], types@[m]@, extractions@, documents@),
        decreases types@.len() - t,
    {
        match type_sheet(&types[t], extractions, documents) {
            Ok(sh) => sheets.push(sh),
            Err(e) => {
                proof {
                    let k = choose|k: Seq<String>| too_wide(extractions@, Some(types@[t as int]@), k);
                    assert(too_wide(extractions@, Some(types@[t as int]@), k));
                }
                return Err(e);
            },
        }
        t = t + 1;
    }
    let p = WorkbookPlan { sheets };
    assert(workbook_ok(p, *batch, extractions@, documents@));
    Ok(p)
}

// ---------------------------------------------------------------------------
// JSON records

/// The last document with this id, if any (a later row wins, as in a map
/// built from the rows in order).
pub open spec fn document_of(docs: Seq<Document>, id: Seq<char>) -> Option<Document>
    decreases docs.len(),
{
    if docs.len() == 0 {
        None
    } else if docs.last().id@ == id {
        Some(docs.last())
    } else {
        document_of(docs.drop_last(), id)
    }
}

/// One record of the JSON export: the extraction's fields with its
/// document's name, type and size (empty or zero where the document is
/// missing); the structured data is laid flat into the record when written.
pub struct ExportRecord {
    pub extraction_id: String,
    pub document_type: String,
    pub confidence: Confidence,
    pub model_used: Option<String>,
    pub processing_time_ms: i64,
    pub document_id: String,
    pub original_name: String,
    pub content_type: String,
    pub file_size: i64,
    pub structured_data: Option<serde_json::Value>,
    pub raw_text: Option<String>,
}

/// The export record of an extraction.
pub open spec fn record_ok(r: ExportRecord, e: Extraction, docs: Seq<Document>) -> bool {
    &&& r.extraction_id == e.id
    &&& r.document_type == e.document_type
    &&& r.confidence == e.confidence
    &&& r.model_used == e.model_used
    &&& r.processing_time_ms == e.processing_time_ms
    &&& r.document_id == e.document_id
    &&& r.structured_data == e.structured_data
    &&& r.raw_text == e.raw_text
    &&& match document_of(docs, e.document_id@) {
        Some(d) => r.original_name == d.original_name && r.content_type == d.content_type
            && r.file_size == d.file_size,
        None => r.original_name@.len() == 0 && r.content_type@.len() == 0 && r.file_size == 0,
    }
}

/// The position of the document `document_of` gives.
fn find_document_last(docs: &Vec<Document>, id: &String) -> (r: Option<usize>)
    ensures
        r matches Some(k) ==> k < docs@.len() && document_of(docs@, id@) == Some(docs@[k as int]),
        r is None ==> document_of(docs@, id@) is None,
{
    let idc = chars_of(id.as_str());
    let mut k: usize = docs.len();
    assert(docs@.subrange(0, docs@.len() as int) =~= docs@);
    while k > 0
        invariant
            k <= docs@.len(),
            idc@ == id@,
            document_of(docs@, id@) == document_of(docs@.subrange(0, k as int), id@),
        decreases k,
    {
        let ghost pre = docs@.subrange(0, k as int);
        assert(pre.drop_last() =~= docs@.subrange(0, k - 1));
        if same_chars(&chars_of(docs[k - 1].id.as_str()), &idc) {
            return Some(k - 1);
        }
        k = k - 1;
    }
    None
}

/// The records of the JSON export, one per extraction, in order.
pub fn export_records(extractions: &Vec<Extraction>, documents: &Vec<Document>) -> (r: Vec<
    ExportRecord,
>)
    ensures
        r@.len() == extractions@.len(),
        forall|i: int| 0 <= i < r@.len() ==> record_ok(#[trigger] r@[i], extractions@[i], documents@),
{
    let mut r: Vec<ExportRecord> = Vec::new();
    let mut i: usize = 0;
    while i < extractions.len()
        invariant
            i <= extractions@.len(),
            r@.len() == i,
            forall|j: int| 0 <= j < i ==> record_ok(#[trigger] r@[j], extractions@[j], documents@),
        decreases extractions@.len() - i,
    {
        let e = crate::store::copy_extraction(&extractions[i]);
        let (name, ctype, size) = match find_document_last(documents, &e.document_id) {
            Some(k) => (
                documents[k].original_name.clone(),
                documents[k].content_type.clone(),
                documents[k].file_size,
            ),
            None => (string_of(&Vec::new()), string_of(&Vec::new()), 0),
        };
        r.push(
            ExportRecord {
                extraction_id: e.id,
                document_type: e.document_type,
                confidence: e.confidence,
                model_used: e.model_used,
                processing_time_ms: e.processing_time_ms,
                document_id: e.document_id,
                original_name: name,
                content_type: ctype,
                file_size: size,
                structured_data: e.structured_data,
                raw_text: e.raw_text,
            },
        );
        i = i + 1;
    }
    r
}

// ---------------------------------------------------------------------------
// The service

/// Which extractions an export covers.
pub struct ExportFilter {
    pub document_type: Option<String>,
    /// The least score, as the bit pattern of a double.
    pub min_confidence_bits: Option<u64>,
}

/// The type of a filter as a borrowed text.
fn filter_type(f: &ExportFilter) -> (r: Option<&str>)
    ensures
        opt_str(r) == crate::text::opt_text(f.document_type),
{
    match &f.document_type {
        Some(t) => Some(t.as_str()),
        None => None,
    }
}

/// The exports of a batch.
pub struct ExportService;

impl ExportService {
    /// The CSV export of the extractions of a batch that pass the filter.
    pub fn to_csv(store: &Store, batch_id: &str, filter: &ExportFilter) -> (r: String)
        requires
            extractions_wf(store.extractions@),
        ensures
            csv_export_of(
                r@,
                filtered(
                    store.extractions@,
                    batch_id@,
                    crate::text::opt_text(filter.document_type),
                    filter.min_confidence_bits,
                ),
                documents_of(store.documents@, batch_id@),
            ),
    {
        let exts = ExtractionDao::list_by_batch_filtered(
            store,
            batch_id,
            filter_type(filter),
            filter.min_confidence_bits,
        );
        let docs = DocumentDao::list_by_batch(store, batch_id);
        to_csv_text(&exts, &docs)
    }

    /// The batch and the records of the JSON export of its extractions that
    /// pass the filter; fails where the batch does not exist.
    pub fn json_records(store: &Store, batch_id: &str, filter: &ExportFilter) -> (r: Result<
        (Batch, Vec<ExportRecord>),
        ExportError,
    >)
        requires
            extractions_wf(store.extractions@),
        ensures
            batch_index(store.batches@, batch_id@) == -1 <==> r is Err,
            r is Err ==> r == Err::<(Batch, Vec<ExportRecord>), ExportError>(ExportError::NotFound),
            r matches Ok((b, recs)) ==> {
                let exts = filtered(
                    store.extractions@,
                    batch_id@,
                    crate::text::opt_text(filter.document_type),
                    filter.min_confidence_bits,
                );
                &&& b == store.batches@[batch_index(store.batches@, batch_id@)]
                &&& recs@.len() == exts.len()
                &&& forall|i: int| 0 <= i < recs@.len() ==> record_ok(
                    #[trigger] recs@[i],
                    exts[i],
                    documents_of(store.documents@, batch_id@),
                )
            },
    {
        let batch = match BatchDao::get_by_id(store, batch_id) {
            Ok(b) => b,
            Err(_) => return Err(ExportError::NotFound),
        };
        let exts = ExtractionDao::list_by_batch_filtered(
            store,
            batch_id,
            filter_type(filter),
            filter.min_confidence_bits,
        );
        let docs = DocumentDao::list_by_batch(store, batch_id);
        Ok((batch, export_records(&exts, &docs)))
    }

    /// The Excel layout of the extractions of a batch that pass the filter;
    /// fails where the batch does not exist, or where a sheet would be too
    /// large for cell positions.
    pub fn excel_plan(store: &Store, batch_id: &str, filter: &ExportFilter) -> (r: Result<
        WorkbookPlan,
        ExportError,
    >)
        requires
            extractions_wf(store.extractions@),
        ensures
            batch_index(store.batches@, batch_id@) == -1 <==> r == Err::<WorkbookPlan, ExportError>(
                ExportError::NotFound,
            ),
            r matches Ok(p) ==> workbook_ok(
                p,
                store.batches@[batch_index(store.batches@, batch_id@)],
                filtered(
                    store.extractions@,
                    batch_id@,
                    crate::text::opt_text(filter.document_type),
                    filter.min_confidence_bits,
                ),
                documents_of(store.documents@, batch_id@),
            ),
    {
        let batch = match BatchDao::get_by_id(store, batch_id) {
            Ok(b) => b,
            Err(_) => return Err(ExportError::NotFound),
        };
        let exts = ExtractionDao::list_by_batch_filtered(
            store,
            batch_id,
            filter_type(filter),
            filter.min_confidence_bits,
        );
        let docs = DocumentDao::list_by_batch(store, batch_id);
        match excel_plan(&batch, &exts, &docs) {
            Ok(p) => Ok(p),
            Err(_) => Err(ExportError::TooLarge),
        }
    }
}

/// Why an export failed.
#[derive(Debug, Clone, Copy, PartialEq, Eq, Structural)]
pub enum ExportError {
    /// The batch does not exist.
    NotFound,
    /// A sheet would be too large for cell positions.
    TooLarge,
}

} // verus!
