//! Egress secret filter: the inventory of protected secret renderings and the
//! fail-closed scan of provider output for any of them.

use vstd::prelude::*;
use vstd::string::StringExecFns;
use vstd::utf8::encode_utf8;
use aho_corasick::{AhoCorasick, BuildError};

use crate::encoding::{
    base64_standard, base64_url_safe_no_pad, encode_base64_standard, encode_base64_url_safe_no_pad,
};
use crate::lexical::{insert_sorted, sort_unique};
use crate::config::{PostgresConfig, SecretFilterConfig};
use crate::matcher::{
    ac_builds, ac_find, ac_patterns, ac_standard, build_matcher, find_first, occurs_at, occurs_in,
};
use crate::text::{
    law_trim_idempotent,
    chars_of, push_char, string_from_chars, strip_ascii_whitespace, strip_ascii_ws, trim,
    trim_str,
};

verus! {

/// Shortest rendering (in bytes) that is kept as a pattern.
pub const MIN_SECRET_LEN: usize = 8;

/// Secrets at least this long (in bytes) also contribute overlapping fragments.
pub const MIN_FRAGMENT_LEN: usize = 16;

/// Secret files larger than this are left out of the inventory.
pub const MAX_SECRET_FILE_BYTES: u64 = 64 * 1024;

/// How many trailing characters the streaming scanner carries between chunks.
pub const STREAM_TAIL_BYTES: usize = 256;

// ---------------------------------------------------------------------------
// Percent encoding
// ---------------------------------------------------------------------------

/// Bytes that percent encoding leaves as they are: ASCII letters and digits
/// and `-`, `_`, `.`, `~`.
pub open spec fn is_unreserved(b: u8) -> bool {
    ||| 0x30 <= b <= 0x39
    ||| 0x41 <= b <= 0x5a
    ||| 0x61 <= b <= 0x7a
    ||| b == 0x2d
    ||| b == 0x5f
    ||| b == 0x2e
    ||| b == 0x7e
}

/// Upper-case hexadecimal digit for `d < 16`.
pub open spec fn hex_upper(d: u8) -> char {
    if d < 10 {
        (0x30 + d) as char
    } else {
        (0x41 + d - 10) as char
    }
}

/// The rendering of one byte: itself, or `%` and two upper-case hex digits.
pub open spec fn percent_byte(b: u8) -> Seq<char> {
    if is_unreserved(b) {
        seq![b as char]
    } else {
        seq!['%', hex_upper(b / 16), hex_upper(b % 16)]
    }
}

/// Percent encoding of a byte string, byte by byte.
pub open spec fn percent_encoded(bytes: Seq<u8>) -> Seq<char>
    decreases bytes.len(),
{
    if bytes.len() == 0 {
        seq![]
    } else {
        percent_encoded(bytes.drop_last()) + percent_byte(bytes.last())
    }
}

fn hex_digit(d: u8) -> (c: char)
    requires
        d < 16,
    ensures
        c == hex_upper(d),
{
    if d < 10 {
        (0x30 + d) as char
    } else {
        (0x41 + d - 10) as char
    }
}

fn unreserved(b: u8) -> (res: bool)
    ensures
        res == is_unreserved(b),
{
    (0x30 <= b && b <= 0x39) || (0x41 <= b && b <= 0x5a) || (0x61 <= b && b <= 0x7a) || b == 0x2d
        || b == 0x5f || b == 0x2e || b == 0x7e
}

/// Percent-encodes the UTF-8 bytes of `value`.
pub fn percent_encode(value: &str) -> (res: String)
    ensures
        res@ == percent_encoded(encode_utf8(value@)),
{
    let bytes = value.as_bytes();
    let mut res = String::new();
    let mut i: usize = 0;
    while i < bytes.len()
        invariant
            i <= bytes@.len(),
            bytes@ == encode_utf8(value@),
            res@ == percent_encoded(bytes@.take(i as int)),
        decreases bytes@.len() - i,
    {
        let b = bytes[i];
        assert(bytes@.take(i + 1).drop_last() =~= bytes@.take(i as int));
        if unreserved(b) {
            push_char(&mut res, b as char);
            assert(res@ =~= percent_encoded(bytes@.take(i + 1)));
        } else {
            push_char(&mut res, '%');
            push_char(&mut res, hex_digit(b / 16));
            push_char(&mut res, hex_digit(b % 16));
            assert(res@ =~= percent_encoded(bytes@.take(i + 1)));
        }
        i += 1;
    }
    assert(bytes@.take(bytes@.len() as int) =~= bytes@);
    res
}

// ---------------------------------------------------------------------------
// Sliding fragments
// ---------------------------------------------------------------------------

/// How many windows of `size` characters, stepped by `size / 2`, fit in a
/// sequence of `len` characters.
pub open spec fn window_count(len: nat, size: nat) -> nat {
    if len < size || size < 2 {
        0
    } else {
        ((len - size) as nat / (size / 2) + 1) as nat
    }
}

/// The windows of `size` characters of `s`, starting every `size / 2`
/// characters from the front, the last one ending at or before the end.
pub open spec fn sliding_windows(s: Seq<char>, size: nat) -> Seq<Seq<char>> {
    Seq::new(
        window_count(s.len(), size),
        |k: int| s.subrange(k * (size / 2) as int, k * (size / 2) as int + size),
    )
}

proof fn lemma_window_count(d: int, step: int, k: int)
    requires
        step > 0,
        k > 0,
        0 <= d,
        (k - 1) * step <= d < k * step,
    ensures
        d / step == k - 1,
{
    vstd::arithmetic::div_mod::lemma_fundamental_div_mod(d, step);
    let q = d / step;
    let r = d % step;
    assert(0 <= r < step);
    if q < k - 1 {
        vstd::arithmetic::mul::lemma_mul_inequality(q + 1, k - 1, step);
        assert((q + 1) * step == q * step + step) by (nonlinear_arith);
        assert(step * q == q * step) by (nonlinear_arith);
    } else if q > k - 1 {
        vstd::arithmetic::mul::lemma_mul_inequality(k, q, step);
        assert(step * q == q * step) by (nonlinear_arith);
    }
}

/// Copies `chars[start..end]` into a new string.
pub fn substring(chars: &Vec<char>, start: usize, end: usize) -> (res: String)
    requires
        start <= end <= chars.len(),
    ensures
        res@ == chars@.subrange(start as int, end as int),
{
    let mut res = String::new();
    let mut i = start;
    while i < end
        invariant
            start <= i <= end <= chars.len(),
            res@ =~= chars@.subrange(start as int, i as int),
        decreases end - i,
    {
        push_char(&mut res, chars[i]);
        i += 1;
    }
    res
}

/// Overlapping windows of `size` characters, stepped by `size / 2`.
pub fn sliding_fragments(value: &str, size: usize) -> (res: Vec<String>)
    requires
        size >= 2,
    ensures
        res@.map_values(|f: String| f@) == sliding_windows(value@, size as nat),
{
    let chars = chars_of(value);
    let mut res: Vec<String> = Vec::new();
    if chars.len() < size {
        assert(res@.map_values(|f: String| f@) =~= sliding_windows(value@, size as nat));
        return res;
    }
    let step = size / 2;
    let last = chars.len() - size;
    let mut pos: usize = 0;
    assert(res.len() * step == 0) by (nonlinear_arith)
        requires res.len() == 0;
    while pos <= last
        invariant
            chars@ == value@,
            step == size / 2,
            step >= 1,
            last == chars.len() - size,
            pos == res.len() * step,
            pos <= last + step,
            res.len() > 0 ==> (res.len() - 1) * step <= last,
            forall|k: int|
                0 <= k < res.len() ==> (#[trigger] res@[k])@ == value@.subrange(
                    k * step,
                    k * step + size,
                ),
        decreases last + step - pos,
    {
        let fragment = substring(&chars, pos, pos + size);
        let ghost k = res.len();
        res.push(fragment);
        assert((k + 1) * step == k * step + step) by (nonlinear_arith);
        pos += step;
    }
    proof {
        let k = res.len() as int;
        if k == 0 {
            assert(k * step == 0) by (nonlinear_arith)
                requires k == 0;
        }
        lemma_window_count(last as int, step as int, k);
        assert(res@.map_values(|f: String| f@) =~= sliding_windows(value@, size as nat));
    }
    res
}

// ---------------------------------------------------------------------------
// Renderings of one secret
// ---------------------------------------------------------------------------

/// The renderings of a trimmed secret `t` that the filter looks for, before
/// duplicates are dropped: the value itself, without ASCII whitespace, both
/// base64 forms and the percent encoding of its bytes, and, for values of at
/// least `MIN_FRAGMENT_LEN` bytes, its overlapping fragments.
pub open spec fn variant_candidates(t: Seq<char>) -> Seq<Seq<char>> {
    let b = encode_utf8(t);
    seq![
        t,
        strip_ascii_ws(t),
        base64_standard(b),
        base64_url_safe_no_pad(b),
        percent_encoded(b),
    ] + if b.len() >= MIN_FRAGMENT_LEN {
        sliding_windows(t, MIN_FRAGMENT_LEN as nat)
    } else {
        seq![]
    }
}

/// The distinct renderings of `secret`, in sorted order; nothing for a secret
/// that is blank once trimmed.
pub open spec fn secret_variant_set(secret: Seq<char>) -> Seq<Seq<char>> {
    let t = trim(secret);
    if t.len() == 0 {
        seq![]
    } else {
        sort_unique(variant_candidates(t))
    }
}

proof fn lemma_sort_unique_step(s: Seq<Seq<char>>, i: int)
    requires
        0 <= i < s.len(),
    ensures
        sort_unique(s.take(i + 1)) == crate::lexical::sorted_insert(sort_unique(s.take(i)), s[i]),
{
    assert(s.take(i + 1).drop_last() =~= s.take(i));
}

fn chars_of_string(s: &String) -> (res: Vec<char>)
    ensures
        res@ == s@,
{
    chars_of(s.as_str())
}

/// All renderings of `secret` that the filter protects, sorted and without
/// repetition.
pub fn secret_variants(secret: &str) -> (res: Vec<String>)
    ensures
        res@.map_values(|v: String| v@) == secret_variant_set(secret@),
{
    let trimmed = trim_str(secret);
    if trimmed.as_str().is_empty() {
        let res: Vec<String> = Vec::new();
        assert(res@.map_values(|v: String| v@) =~= secret_variant_set(secret@));
        return res;
    }
    let ghost t = trimmed@;
    let ghost cands = variant_candidates(t);
    let bytes = trimmed.as_str().as_bytes();
    let mut values: Vec<Vec<char>> = Vec::new();
    assert(values@.map_values(|e: Vec<char>| e@) =~= sort_unique(cands.take(0)));

    let ghost b = encode_utf8(t);
    assert(bytes@ == b);
    assert(cands[0] == t && cands[1] == strip_ascii_ws(t) && cands[2] == base64_standard(b)
        && cands[3] == base64_url_safe_no_pad(b) && cands[4] == percent_encoded(b));
    assert(cands.len() >= 5);
    insert_sorted(&mut values, chars_of_string(&trimmed));
    proof { lemma_sort_unique_step(cands, 0); }
    insert_sorted(&mut values, chars_of_string(&strip_ascii_whitespace(trimmed.as_str())));
    proof { lemma_sort_unique_step(cands, 1); }
    insert_sorted(&mut values, chars_of_string(&encode_base64_standard(bytes)));
    proof { lemma_sort_unique_step(cands, 2); }
    insert_sorted(&mut values, chars_of_string(&encode_base64_url_safe_no_pad(bytes)));
    proof { lemma_sort_unique_step(cands, 3); }
    insert_sorted(&mut values, chars_of_string(&percent_encode(trimmed.as_str())));
    proof { lemma_sort_unique_step(cands, 4); }

    if bytes.len() >= MIN_FRAGMENT_LEN {
        let fragments = sliding_fragments(trimmed.as_str(), MIN_FRAGMENT_LEN);
        let mut j: usize = 0;
        while j < fragments.len()
            invariant
                j <= fragments.len(),
                fragments@.map_values(|f: String| f@) == sliding_windows(t, MIN_FRAGMENT_LEN as nat),
                cands == variant_candidates(t),
                encode_utf8(t).len() >= MIN_FRAGMENT_LEN,
                cands.len() == 5 + fragments.len(),
                values@.map_values(|e: Vec<char>| e@) == sort_unique(cands.take(5 + j)),
            decreases fragments.len() - j,
        {
            let piece = chars_of_string(&fragments[j]);
            assert(cands[5 + j] == fragments@[j as int]@);
            insert_sorted(&mut values, piece);
            proof { lemma_sort_unique_step(cands, 5 + j); }
            j += 1;
        }
    } else {
        assert(cands =~= seq![t, strip_ascii_ws(t), base64_standard(b), base64_url_safe_no_pad(b), percent_encoded(b)]);
    }
    assert(cands.take(cands.len() as int) =~= cands);
    let mut res: Vec<String> = Vec::new();
    let mut k: usize = 0;
    while k < values.len()
        invariant
            k <= values.len(),
            res.len() == k,
            forall|i: int| 0 <= i < k ==> (#[trigger] res@[i])@ == values@[i]@,
        decreases values.len() - k,
    {
        res.push(string_from_chars(&values[k]));
        k += 1;
    }
    assert(res@.map_values(|v: String| v@) =~= values@.map_values(|e: Vec<char>| e@));
    res
}

// ---------------------------------------------------------------------------
// The filter
// ---------------------------------------------------------------------------

/// Declares `std::io::Error`, carried unchanged inside error values.
#[verifier::external_type_specification]
#[verifier::external_body]
pub struct ExIoError(std::io::Error);

/// A protected rendering, seen as `(label, value)`.
pub type PatternView = (Seq<char>, Seq<char>);

/// Which protected secret was seen; never the secret itself.
#[derive(Debug, Clone, PartialEq, Eq)]
pub struct SecretDetection {
    pub label: String,
}

#[derive(Debug)]
pub enum SecretFilterError {
    ReadSecretFile { path: String, source: std::io::Error },
    BuildMatcher(BuildError),
}

#[derive(Debug)]
struct SecretPattern {
    label: String,
    value: String,
}

impl Clone for SecretPattern {
    fn clone(&self) -> (res: Self)
        ensures
            res == *self,
    {
        SecretPattern { label: self.label.clone(), value: self.value.clone() }
    }
}

/// The inventory of protected renderings together with the automaton that
/// searches for them.
#[derive(Debug)]
pub struct SecretFilter {
    matcher: Option<AhoCorasick>,
    patterns: Vec<SecretPattern>,
}

impl Clone for SecretFilter {
    /// A filter with the same inventory and the same automaton.
    fn clone(&self) -> (res: Self)
        ensures
            res@ == self@,
    {
        proof {
            use_type_invariant(self);
        }
        let matcher = match &self.matcher {
            Some(m) => Some(m.clone()),
            None => None,
        };
        let mut patterns: Vec<SecretPattern> = Vec::new();
        let mut k: usize = 0;
        while k < self.patterns.len()
            invariant
                k <= self.patterns.len(),
                patterns@ == self.patterns@.take(k as int),
            decreases self.patterns.len() - k,
        {
            patterns.push(self.patterns[k].clone());
            assert(self.patterns@.take(k + 1) =~= self.patterns@.take(k as int).push(self.patterns@[k as int]));
            k += 1;
        }
        assert(self.patterns@.take(self.patterns.len() as int) =~= self.patterns@);
        SecretFilter { matcher, patterns }
    }
}

/// Adds one `(label, rendering)` pair unless it is too short or already there.
pub open spec fn add_pattern(acc: Seq<PatternView>, e: PatternView) -> Seq<PatternView> {
    if encode_utf8(e.1).len() < MIN_SECRET_LEN || acc.contains(e) {
        acc
    } else {
        acc.push(e)
    }
}

/// Adds the renderings `vs` of one secret, in order, under `label`.
pub open spec fn add_variants(acc: Seq<PatternView>, label: Seq<char>, vs: Seq<Seq<char>>) -> Seq<
    PatternView,
>
    decreases vs.len(),
{
    if vs.len() == 0 {
        acc
    } else {
        add_pattern(add_variants(acc, label, vs.drop_last()), (label, vs.last()))
    }
}

/// The inventory built from `(label, secret)` pairs: for each secret in
/// turn, each of its distinct renderings of at least `MIN_SECRET_LEN` bytes,
/// first occurrences of each `(label, rendering)` pair only.
pub open spec fn filter_patterns(secrets: Seq<PatternView>) -> Seq<PatternView>
    decreases secrets.len(),
{
    if secrets.len() == 0 {
        seq![]
    } else {
        add_variants(
            filter_patterns(secrets.drop_last()),
            secrets.last().0,
            secret_variant_set(secrets.last().1),
        )
    }
}

/// Some protected rendering occurs, byte for byte, in `text`.
pub open spec fn detects(patterns: Seq<PatternView>, text: Seq<char>) -> bool {
    exists|i: int|
        0 <= i < patterns.len() && occurs_in(encode_utf8(#[trigger] patterns[i].1), encode_utf8(text))
}

/// `label` is the label of a protected rendering that occurs in `text`.
pub open spec fn detected_label(patterns: Seq<PatternView>, text: Seq<char>, label: Seq<char>) -> bool {
    exists|i: int|
        0 <= i < patterns.len() && occurs_in(encode_utf8(#[trigger] patterns[i].1), encode_utf8(text))
            && patterns[i].0 == label
}

/// What a full scan reports: nothing exactly when no rendering occurs in the
/// text nor in the text without its ASCII whitespace.
pub open spec fn scan_outcome(
    patterns: Seq<PatternView>,
    text: Seq<char>,
    res: Option<SecretDetection>,
) -> bool {
    &&& res is None <==> (!detects(patterns, text) && !detects(patterns, strip_ascii_ws(text)))
    &&& res matches Some(d) ==> (detected_label(patterns, text, d.label@) || detected_label(
        patterns,
        strip_ascii_ws(text),
        d.label@,
    ))
}


/// The renderings of an inventory as the automaton holds them.
pub open spec fn pattern_bytes(patterns: Seq<PatternView>) -> Seq<Seq<u8>> {
    patterns.map_values(|e: PatternView| encode_utf8(e.1))
}

/// A filter for this inventory can be built: it is empty, or the automaton
/// for its renderings builds.
pub open spec fn inventory_builds(patterns: Seq<PatternView>) -> bool {
    patterns.len() == 0 || ac_builds(pattern_bytes(patterns))
}

/// The label a scan of `text` as it is reports: that of the rendering the
/// automaton's search finds, nothing for an empty inventory.
pub open spec fn raw_label(patterns: Seq<PatternView>, text: Seq<char>) -> Option<Seq<char>> {
    if patterns.len() == 0 {
        None
    } else {
        match ac_find(pattern_bytes(patterns), encode_utf8(text)) {
            Some(m) => Some(patterns[m.0 as int].0),
            None => None,
        }
    }
}

/// The label a full scan reports: from the text as it is, else from the
/// text without its ASCII whitespace.
pub open spec fn scan_label(patterns: Seq<PatternView>, text: Seq<char>) -> Option<Seq<char>> {
    match raw_label(patterns, text) {
        Some(l) => Some(l),
        None => raw_label(patterns, strip_ascii_ws(text)),
    }
}

/// The filter reports something for `text`: a rendering occurs in it as it
/// is or with its ASCII whitespace removed.
pub open spec fn scan_finds(patterns: Seq<PatternView>, text: Seq<char>) -> bool {
    detects(patterns, text) || detects(patterns, strip_ascii_ws(text))
}

/// A detection, seen as the label it carries.
pub open spec fn detection_label(res: Option<SecretDetection>) -> Option<Seq<char>> {
    match res {
        Some(d) => Some(d.label@),
        None => None,
    }
}

impl View for SecretFilter {
    type V = Seq<PatternView>;

    closed spec fn view(&self) -> Seq<PatternView> {
        self.patterns@.map_values(|p: SecretPattern| (p.label@, p.value@))
    }
}

fn contains_pattern(patterns: &Vec<SecretPattern>, label: &String, value: &String) -> (res: bool)
    ensures
        res == patterns@.map_values(|p: SecretPattern| (p.label@, p.value@)).contains(
            (label@, value@),
        ),
{
    let ghost pv = patterns@.map_values(|p: SecretPattern| (p.label@, p.value@));
    let mut k: usize = 0;
    while k < patterns.len()
        invariant
            k <= patterns.len(),
            pv == patterns@.map_values(|p: SecretPattern| (p.label@, p.value@)),
            forall|j: int| 0 <= j < k ==> pv[j] != (label@, value@),
        decreases patterns.len() - k,
    {
        if patterns[k].label == *label && patterns[k].value == *value {
            assert(pv[k as int] == (label@, value@));
            return true;
        }
        k += 1;
    }
    false
}

impl SecretFilter {
    /// The automaton searches for exactly the inventory's renderings.
    #[verifier::type_invariant]
    spec fn inv(self) -> bool {
        match self.matcher {
            None => self.patterns.len() == 0,
            Some(m) => ac_standard(m) && ac_patterns(m) == self.patterns@.map_values(
                |p: SecretPattern| encode_utf8(p.value@),
            ),
        }
    }

    /// Builds the filter for the given `(label, secret)` pairs. It fails
    /// only when the automaton for a non-empty inventory cannot be built.
    pub fn new(secrets: Vec<(String, String)>) -> (res: Result<Self, SecretFilterError>)
        ensures
            res matches Ok(f) ==> f@ == filter_patterns(crate::text::pairs_view(secrets@)),
            res is Ok <==> inventory_builds(filter_patterns(crate::text::pairs_view(secrets@))),
            res matches Err(e) ==> e is BuildMatcher,
    {
        let ghost sv = crate::text::pairs_view(secrets@);
        let mut patterns: Vec<SecretPattern> = Vec::new();
        let mut i: usize = 0;
        while i < secrets.len()
            invariant
                i <= secrets.len(),
                sv == crate::text::pairs_view(secrets@),
                patterns@.map_values(|p: SecretPattern| (p.label@, p.value@)) == filter_patterns(
                    sv.take(i as int),
                ),
            decreases secrets.len() - i,
        {
            let label = &secrets[i].0;
            let variants = secret_variants(secrets[i].1.as_str());
            let ghost before = patterns@.map_values(|p: SecretPattern| (p.label@, p.value@));
            let ghost vs = secret_variant_set(secrets@[i as int].1@);
            let mut j: usize = 0;
            while j < variants.len()
                invariant
                    j <= variants.len(),
                    variants@.map_values(|v: String| v@) == vs,
                    patterns@.map_values(|p: SecretPattern| (p.label@, p.value@)) == add_variants(
                        before,
                        label@,
                        vs.take(j as int),
                    ),
                decreases variants.len() - j,
            {
                let v = &variants[j];
                let ghost pv = patterns@.map_values(|p: SecretPattern| (p.label@, p.value@));
                assert(vs.take(j + 1).drop_last() =~= vs.take(j as int));
                assert(vs.take(j + 1).last() == v@);
                if v.as_str().as_bytes().len() >= MIN_SECRET_LEN && !contains_pattern(
                    &patterns,
                    label,
                    v,
                ) {
                    patterns.push(SecretPattern { label: label.clone(), value: v.clone() });
                    assert(patterns@.map_values(|p: SecretPattern| (p.label@, p.value@)) =~= pv.push(
                        (label@, v@),
                    ));
                }
                j += 1;
            }
            assert(vs.take(vs.len() as int) =~= vs);
            assert(sv.take(i + 1).drop_last() =~= sv.take(i as int));
            assert(sv.take(i + 1).last() == (secrets@[i as int].0@, secrets@[i as int].1@));
            i += 1;
        }
        assert(sv.take(secrets.len() as int) =~= sv);
        if patterns.len() == 0 {
            let f = SecretFilter { matcher: None, patterns };
            return Ok(f);
        }
        let mut values: Vec<String> = Vec::new();
        let mut k: usize = 0;
        while k < patterns.len()
            invariant
                k <= patterns.len(),
                values.len() == k,
                forall|j: int| 0 <= j < k ==> (#[trigger] values@[j])@ == patterns@[j].value@,
            decreases patterns.len() - k,
        {
            values.push(patterns[k].value.clone());
            k += 1;
        }
        assert(values@.map_values(|p: String| encode_utf8(p@)) =~= patterns@.map_values(
            |p: SecretPattern| encode_utf8(p.value@),
        ));
        assert(pattern_bytes(patterns@.map_values(|p: SecretPattern| (p.label@, p.value@)))
            =~= values@.map_values(|p: String| encode_utf8(p@)));
        match build_matcher(&values) {
            Ok(m) => Ok(SecretFilter { matcher: Some(m), patterns }),
            Err(e) => Err(SecretFilterError::BuildMatcher(e)),
        }
    }

    /// Looks for the protected renderings in `text` as it is.
    pub fn scan_raw(&self, text: &str) -> (res: Option<SecretDetection>)
        ensures
            res is None <==> !detects(self@, text@),
            res matches Some(d) ==> detected_label(self@, text@, d.label@),
            detection_label(res) == raw_label(self@, text@),
    {
        proof {
            use_type_invariant(self);
        }
        let ghost pats = self@;
        match &self.matcher {
            None => {
                assert(!detects(pats, text@));
                None
            },
            Some(m) => {
                assert forall|i: int| 0 <= i < pats.len() implies encode_utf8(#[trigger] pats[i].1)
                    == ac_patterns(*m)[i] by {}
                assert(pattern_bytes(pats) =~= ac_patterns(*m));
                match find_first(m, text) {
                    None => {
                        assert(!detects(pats, text@));
                        None
                    },
                    Some((p, start, _end)) => {
                        let label = self.patterns[p].label.clone();
                        assert(occurs_in(encode_utf8(pats[p as int].1), encode_utf8(text@)));
                        Some(SecretDetection { label })
                    },
                }
            },
        }
    }

    /// Looks for the protected renderings in `text`, and again in `text`
    /// with its ASCII whitespace removed, so that a secret split by inserted
    /// spaces or line breaks is still caught.
    pub fn scan_text(&self, text: &str) -> (res: Option<SecretDetection>)
        ensures
            scan_outcome(self@, text@, res),
            detection_label(res) == scan_label(self@, text@),
    {
        match self.scan_raw(text) {
            Some(d) => Some(d),
            None => {
                let stripped = strip_ascii_whitespace(text);
                self.scan_raw(stripped.as_str())
            },
        }
    }
}

/// The text a streaming scanner carries, with everything it has scanned
/// (ghost): the carried text is always the last `STREAM_TAIL_BYTES`
/// characters of that history.
struct StreamCarry {
    tail: String,
    seen: Ghost<Seq<char>>,
}

impl StreamCarry {
    #[verifier::type_invariant]
    spec fn inv(self) -> bool {
        self.tail@ == crate::text::tail_chars(self.seen@, STREAM_TAIL_BYTES as nat)
    }
}

/// Incremental scanner for provider streams where a secret may cross chunk
/// boundaries: it keeps the last `STREAM_TAIL_BYTES` characters it has seen.
pub struct StreamingSecretScanner {
    filter: SecretFilter,
    carry: StreamCarry,
}

impl StreamingSecretScanner {
    /// The inventory this scanner looks for.
    pub closed spec fn patterns(&self) -> Seq<PatternView> {
        self.filter@
    }

    /// Every chunk scanned so far, joined.
    pub closed spec fn history(&self) -> Seq<char> {
        self.carry.seen@
    }

    /// The characters carried over from earlier chunks.
    pub closed spec fn carried(&self) -> Seq<char> {
        self.carry.tail@
    }

    pub fn new(filter: SecretFilter) -> (res: Self)
        ensures
            res.patterns() == filter@,
            res.history() == Seq::<char>::empty(),
            res.carried() == Seq::<char>::empty(),
    {
        let carry = StreamCarry { tail: String::new(), seen: Ghost(Seq::empty()) };
        StreamingSecretScanner { filter, carry }
    }

    /// Scans the carried tail followed by `chunk`, then keeps the last
    /// `STREAM_TAIL_BYTES` characters of that text for the next chunk. The
    /// carried tail is always the last `STREAM_TAIL_BYTES` characters of all
    /// earlier chunks, so the result is what a full scan of those characters
    /// followed by `chunk` reports.
    pub fn scan_chunk(&mut self, chunk: &str) -> (res: Option<SecretDetection>)
        ensures
            final(self).patterns() == old(self).patterns(),
            final(self).history() == old(self).history() + chunk@,
            old(self).carried() == crate::text::tail_chars(
                old(self).history(),
                STREAM_TAIL_BYTES as nat,
            ),
            final(self).carried() == crate::text::tail_chars(
                final(self).history(),
                STREAM_TAIL_BYTES as nat,
            ),
            scan_outcome(
                old(self).patterns(),
                crate::text::tail_chars(old(self).history(), STREAM_TAIL_BYTES as nat) + chunk@,
                res,
            ),
            detection_label(res) == scan_label(
                old(self).patterns(),
                crate::text::tail_chars(old(self).history(), STREAM_TAIL_BYTES as nat) + chunk@,
            ),
    {
        proof {
            use_type_invariant(&self.carry);
            law_stream_tail(self.carry.seen@, chunk@);
        }
        let mut combined = self.carry.tail.clone();
        combined.append(chunk);
        let detection = self.filter.scan_text(combined.as_str());
        let tail = crate::text::retain_tail(combined.as_str(), STREAM_TAIL_BYTES);
        let ghost seen = self.carry.seen@ + chunk@;
        self.carry = StreamCarry { tail, seen: Ghost(seen) };
        proof {
            use_type_invariant(&self.carry);
        }
        detection
    }
}

impl Clone for StreamingSecretScanner {
    /// A scanner with the same inventory, carried text and history.
    fn clone(&self) -> (res: Self)
        ensures
            res.patterns() == self.patterns(),
            res.history() == self.history(),
            res.carried() == self.carried(),
    {
        proof {
            use_type_invariant(&self.carry);
        }
        let carry = StreamCarry { tail: self.carry.tail.clone(), seen: Ghost(self.carry.seen@) };
        StreamingSecretScanner { filter: self.filter.clone(), carry }
    }
}

// ---------------------------------------------------------------------------
// Secret files
// ---------------------------------------------------------------------------

/// Characters that may make up a secret-looking token: ASCII letters and
/// digits and `-`, `_`, `.`, `/`, `+`, `=`.
pub open spec fn is_token_char(c: char) -> bool {
    ||| 'a' <= c <= 'z'
    ||| 'A' <= c <= 'Z'
    ||| '0' <= c <= '9'
    ||| c == '-'
    ||| c == '_'
    ||| c == '.'
    ||| c == '/'
    ||| c == '+'
    ||| c == '='
}

fn token_char(c: char) -> (res: bool)
    ensures
        res == is_token_char(c),
{
    ('a' <= c && c <= 'z') || ('A' <= c && c <= 'Z') || ('0' <= c && c <= '9') || c == '-' || c
        == '_' || c == '.' || c == '/' || c == '+' || c == '='
}

/// The pieces of `s` between characters that are not token characters, as
/// `str::split` yields them (empty pieces included).
pub open spec fn split_pieces(s: Seq<char>) -> Seq<Seq<char>>
    decreases s.len(),
{
    if s.len() == 0 {
        seq![seq![]]
    } else {
        let p = split_pieces(s.drop_last());
        if is_token_char(s.last()) {
            p.update(p.len() - 1, p.last().push(s.last()))
        } else {
            p.push(seq![])
        }
    }
}

/// A piece is kept when it has at least `MIN_SECRET_LEN` characters (all
/// token characters are ASCII, so this is its byte length too) and at least
/// six distinct characters.
pub open spec fn keeps_token(t: Seq<char>) -> bool {
    t.len() >= MIN_SECRET_LEN && t.to_set().len() >= 6
}

/// The secret-looking tokens of a file's content, in order.
pub open spec fn token_candidates(s: Seq<char>) -> Seq<Seq<char>> {
    split_pieces(s).filter(|t: Seq<char>| keeps_token(t))
}

proof fn lemma_split_pieces_nonempty(s: Seq<char>)
    ensures
        split_pieces(s).len() >= 1,
    decreases s.len(),
{
    if s.len() > 0 {
        lemma_split_pieces_nonempty(s.drop_last());
    }
}

/// The number of distinct characters of `t`.
fn distinct_chars(t: &Vec<char>) -> (res: usize)
    ensures
        res == t@.to_set().len(),
{
    let mut seen: Vec<char> = Vec::new();
    let mut i: usize = 0;
    while i < t.len()
        invariant
            i <= t.len(),
            seen@.no_duplicates(),
            seen@.to_set() == t@.take(i as int).to_set(),
            seen.len() <= i,
        decreases t.len() - i,
    {
        let c = t[i];
        let mut found = false;
        let mut k: usize = 0;
        while k < seen.len()
            invariant
                k <= seen.len(),
                found == exists|j: int| 0 <= j < k && seen@[j] == c,
            decreases seen.len() - k,
        {
            if seen[k] == c {
                found = true;
            }
            k += 1;
        }
        proof {
            assert(t@.take(i + 1) =~= t@.take(i as int) + seq![c]);
            Seq::lemma_to_set_insert_commutes(t@.take(i as int), c);
        }
        if !found {
            proof {
                Seq::lemma_to_set_insert_commutes(seen@, c);
                assert(seen@.push(c) =~= seen@ + seq![c]);
            }
            seen.push(c);
        } else {
            assert(seen@.to_set().contains(c));
            assert(t@.take(i + 1).to_set() =~= t@.take(i as int).to_set());
        }
        i += 1;
    }
    proof {
        assert(t@.take(t.len() as int) =~= t@);
        seen@.unique_seq_to_set();
    }
    seen.len()
}

fn keep_token(t: &Vec<char>) -> (res: bool)
    ensures
        res == keeps_token(t@),
{
    t.len() >= MIN_SECRET_LEN && distinct_chars(t) >= 6
}

/// The secret-looking tokens of `content`: maximal runs of token characters
/// of at least `MIN_SECRET_LEN` characters with at least six distinct ones.
pub fn extract_token_candidates(content: &str) -> (res: Vec<String>)
    ensures
        res@.map_values(|t: String| t@) == token_candidates(content@),
{
    let chars = chars_of(content);
    let mut res: Vec<String> = Vec::new();
    let mut cur: Vec<char> = Vec::new();
    let mut i: usize = 0;
    assert(chars@.take(0) =~= Seq::<char>::empty());
    while i < chars.len()
        invariant
            i <= chars.len(),
            chars@ == content@,
            res@.map_values(|t: String| t@) == split_pieces(chars@.take(i as int)).drop_last().filter(
                |t: Seq<char>| keeps_token(t),
            ),
            cur@ == split_pieces(chars@.take(i as int)).last(),
        decreases chars.len() - i,
    {
        let c = chars[i];
        let ghost pre = chars@.take(i as int);
        let ghost p = split_pieces(pre);
        proof {
            lemma_split_pieces_nonempty(pre);
            assert(chars@.take(i + 1).drop_last() =~= pre);
            assert(chars@.take(i + 1).last() == c);
        }
        if token_char(c) {
            cur.push(c);
            assert(p.update(p.len() - 1, p.last().push(c)).drop_last() =~= p.drop_last());
        } else {
            proof {
                reveal_with_fuel(Seq::<_>::filter, 1);
                assert(p.push(seq![]).drop_last() =~= p);
                assert(p =~= p.drop_last().push(p.last()));
            }
            if keep_token(&cur) {
                let ghost before = res@.map_values(|t: String| t@);
                res.push(string_from_chars(&cur));
                assert(res@.map_values(|t: String| t@) =~= before.push(cur@));
            }
            cur = Vec::new();
        }
        i += 1;
    }
    proof {
        let p = split_pieces(chars@);
        assert(chars@.take(chars.len() as int) =~= chars@);
        lemma_split_pieces_nonempty(chars@);
        reveal_with_fuel(Seq::<_>::filter, 1);
        assert(p =~= p.drop_last().push(p.last()));
    }
    if keep_token(&cur) {
        let ghost before = res@.map_values(|t: String| t@);
        res.push(string_from_chars(&cur));
        assert(res@.map_values(|t: String| t@) =~= before.push(cur@));
    }
    res
}

/// The label of the candidates drawn from the file shown as `path`.
pub open spec fn file_label(path: Seq<char>) -> Seq<char> {
    "secret-file:"@ + path
}

/// The candidates one secret file contributes: its whole trimmed content
/// when that is between `MIN_SECRET_LEN` and 512 bytes long, then each
/// secret-looking token, labelled with its position.
pub open spec fn secret_file_entries(path: Seq<char>, content: Seq<char>) -> Seq<PatternView> {
    let prefix = file_label(path);
    let t = trim(content);
    let n = encode_utf8(t).len();
    let whole: Seq<PatternView> = if MIN_SECRET_LEN <= n <= 512 {
        seq![(prefix, t)]
    } else {
        seq![]
    };
    whole + token_candidates(content).map(|i: int, tok: Seq<char>| token_entry(prefix, i, tok))
}

/// The `i`-th token of a file, labelled `<prefix>:<i>`.
pub open spec fn token_entry(prefix: Seq<char>, i: int, tok: Seq<char>) -> PatternView {
    (prefix + ":"@ + crate::text::decimal(i as nat), tok)
}

/// A secret file of `len` bytes is read into the inventory; larger ones are
/// skipped.
pub fn secret_file_within_limit(len: u64) -> (res: bool)
    ensures
        res == (len <= MAX_SECRET_FILE_BYTES),
{
    len <= MAX_SECRET_FILE_BYTES
}

/// The `(label, secret)` candidates drawn from the content of the secret
/// file shown as `path`.
pub fn secret_file_candidates(path: &str, content: &str) -> (res: Vec<(String, String)>)
    ensures
        crate::text::pairs_view(res@) == secret_file_entries(path@, content@),
{
    let mut prefix = String::from_str("secret-file:");
    prefix.append(path);
    let mut res: Vec<(String, String)> = Vec::new();
    let trimmed = trim_str(content);
    let n = trimmed.as_str().as_bytes().len();
    if MIN_SECRET_LEN <= n && n <= 512 {
        res.push((prefix.clone(), trimmed));
    }
    let ghost whole = crate::text::pairs_view(res@);
    let tokens = extract_token_candidates(content);
    let ghost toks = token_candidates(content@);
    let mut index: usize = 0;
    while index < tokens.len()
        invariant
            index <= tokens.len(),
            tokens@.map_values(|t: String| t@) == toks,
            prefix@ == file_label(path@),
            crate::text::pairs_view(res@) == whole + toks.take(index as int).map(
                |i: int, tok: Seq<char>| token_entry(file_label(path@), i, tok),
            ),
        decreases tokens.len() - index,
    {
        let mut label = prefix.clone();
        label.append(":");
        let number = crate::text::decimal_string(index as u64);
        label.append(number.as_str());
        let ghost before = crate::text::pairs_view(res@);
        let token = tokens[index].clone();
        assert(token@ == toks[index as int]);
        assert(label@ == file_label(path@) + ":"@ + crate::text::decimal(index as nat));
        res.push((label, token));
        assert(crate::text::pairs_view(res@) =~= before.push(token_entry(file_label(path@), index as int, toks[index as int])));
        assert(toks.take(index + 1).map(|i: int, tok: Seq<char>| token_entry(file_label(path@), i, tok))
            =~= toks.take(index as int).map(|i: int, tok: Seq<char>| token_entry(file_label(path@), i, tok)).push(
                token_entry(file_label(path@), index as int, toks[index as int])));
        index += 1;
    }
    assert(toks.take(tokens.len() as int) =~= toks);
    res
}

// ---------------------------------------------------------------------------
// Inventory from configuration
// ---------------------------------------------------------------------------

/// The candidates of several secret files, file after file.
pub open spec fn files_entries(files: Seq<PatternView>) -> Seq<PatternView>
    decreases files.len(),
{
    if files.len() == 0 {
        seq![]
    } else {
        files_entries(files.drop_last()) + secret_file_entries(files.last().0, files.last().1)
    }
}

/// The `i`-th canary secret, labelled `canary.<i>`.
pub open spec fn canary_entry(i: int, secret: Seq<char>) -> PatternView {
    ("canary."@ + crate::text::decimal(i as nat), secret)
}

/// Everything the configured inventory protects, in order: the database
/// password, the canary secrets, then the candidates of each secret file
/// (given as `(shown path, content)`).
pub open spec fn config_secrets(
    canaries: Seq<Seq<char>>,
    db_password: Option<Seq<char>>,
    files: Seq<PatternView>,
) -> Seq<PatternView> {
    let db: Seq<PatternView> = match db_password {
        Some(p) => seq![("postgres.password"@, p)],
        None => seq![],
    };
    db + canaries.map(|i: int, c: Seq<char>| canary_entry(i, c)) + files_entries(files)
}

impl SecretFilter {
    /// Builds the filter from the configuration: the database password (when
    /// a database is configured), each canary secret, and the candidates of
    /// each secret file. `secret_files` holds, for each configured file that
    /// is within `MAX_SECRET_FILE_BYTES`, its shown path and its content.
    pub fn from_config(
        config: &SecretFilterConfig,
        database: Option<&PostgresConfig>,
        secret_files: &Vec<(String, String)>,
    ) -> (res: Result<Self, SecretFilterError>)
        ensures
            ({
                let all = config_secrets(
                    config.canary_secrets@.map_values(|c: String| c@),
                    match database {
                        Some(d) => Some(d.password@),
                        None => None,
                    },
                    crate::text::pairs_view(secret_files@),
                );
                &&& res matches Ok(f) ==> f@ == filter_patterns(all)
                &&& res is Ok <==> inventory_builds(filter_patterns(all))
                &&& res matches Err(e) ==> e is BuildMatcher
            }),
    {
        let ghost canaries = config.canary_secrets@.map_values(|c: String| c@);
        let ghost files = crate::text::pairs_view(secret_files@);
        let mut candidates: Vec<(String, String)> = Vec::new();
        if let Some(db) = database {
            candidates.push((String::from_str("postgres.password"), db.password.clone()));
        }
        let ghost db_part = crate::text::pairs_view(candidates@);
        let ghost dbopt = match database {
            Some(d) => Some(d.password@),
            None => None,
        };
        assert(db_part =~= match dbopt {
            Some(p) => seq![("postgres.password"@, p)],
            None => Seq::<PatternView>::empty(),
        });
        let mut index: usize = 0;
        while index < config.canary_secrets.len()
            invariant
                index <= config.canary_secrets.len(),
                canaries == config.canary_secrets@.map_values(|c: String| c@),
                crate::text::pairs_view(candidates@) == db_part + canaries.take(index as int).map(
                    |i: int, c: Seq<char>| canary_entry(i, c),
                ),
            decreases config.canary_secrets.len() - index,
        {
            let mut label = String::from_str("canary.");
            let number = crate::text::decimal_string(index as u64);
            label.append(number.as_str());
            let secret = config.canary_secrets[index].clone();
            let ghost before = crate::text::pairs_view(candidates@);
            candidates.push((label, secret));
            assert(crate::text::pairs_view(candidates@) =~= before.push(canary_entry(index as int, canaries[index as int])));
            assert(canaries.take(index + 1).map(|i: int, c: Seq<char>| canary_entry(i, c)) =~= canaries.take(
                index as int,
            ).map(|i: int, c: Seq<char>| canary_entry(i, c)).push(canary_entry(index as int, canaries[index as int])));
            index += 1;
        }
        assert(canaries.take(canaries.len() as int) =~= canaries);
        let ghost head = crate::text::pairs_view(candidates@);
        let mut k: usize = 0;
        assert(files.take(0) =~= Seq::<PatternView>::empty());
        assert(head + files_entries(files.take(0)) =~= head);
        while k < secret_files.len()
            invariant
                k <= secret_files.len(),
                files == crate::text::pairs_view(secret_files@),
                crate::text::pairs_view(candidates@) == head + files_entries(files.take(k as int)),
            decreases secret_files.len() - k,
        {
            let entries = secret_file_candidates(secret_files[k].0.as_str(), secret_files[k].1.as_str());
            let ghost before = crate::text::pairs_view(candidates@);
            let ghost ev = crate::text::pairs_view(entries@);
            let mut j: usize = 0;
            while j < entries.len()
                invariant
                    j <= entries.len(),
                    ev == crate::text::pairs_view(entries@),
                    crate::text::pairs_view(candidates@) == before + ev.take(j as int),
                decreases entries.len() - j,
            {
                let e = (entries[j].0.clone(), entries[j].1.clone());
                let ghost prev = crate::text::pairs_view(candidates@);
                candidates.push(e);
                assert(crate::text::pairs_view(candidates@) =~= prev.push(ev[j as int]));
                assert(ev.take(j + 1) =~= ev.take(j as int).push(ev[j as int]));
                j += 1;
            }
            assert(ev.take(ev.len() as int) =~= ev);
            assert(files.take(k + 1).drop_last() =~= files.take(k as int));
            assert(files.take(k + 1).last() == files[k as int]);
            k += 1;
        }
        assert(files.take(files.len() as int) =~= files);
        assert(crate::text::pairs_view(candidates@) =~= config_secrets(canaries, dbopt, files));
        SecretFilter::new(candidates)
    }
}

// ---------------------------------------------------------------------------
// Laws
// ---------------------------------------------------------------------------

pub proof fn lemma_encode_utf8_concat(a: Seq<char>, b: Seq<char>)
    ensures
        encode_utf8(a + b) == encode_utf8(a) + encode_utf8(b),
    decreases a.len(),
{
    if a.len() == 0 {
        assert(a + b =~= b);
        assert(encode_utf8(a) + encode_utf8(b) =~= encode_utf8(b));
    } else {
        assert((a + b).drop_first() =~= a.drop_first() + b);
        assert((a + b)[0] == a[0]);
        lemma_encode_utf8_concat(a.drop_first(), b);
        assert(encode_utf8(a + b) =~= encode_utf8(a) + encode_utf8(b));
    }
}

/// A character sequence that occurs in a text also occurs, as UTF-8 bytes,
/// in the text's bytes.
pub proof fn lemma_occurs_in_bytes(needle: Seq<char>, hay: Seq<char>)
    requires
        occurs_in(needle, hay),
    ensures
        occurs_in(encode_utf8(needle), encode_utf8(hay)),
{
    let i = choose|i: int| occurs_at(needle, hay, i);
    let pre = hay.subrange(0, i);
    let post = hay.subrange(i + needle.len(), hay.len() as int);
    assert(hay =~= pre + needle + post);
    lemma_encode_utf8_concat(pre + needle, post);
    lemma_encode_utf8_concat(pre, needle);
    let bytes = encode_utf8(hay);
    let bi = encode_utf8(pre).len() as int;
    assert(bytes =~= encode_utf8(pre) + encode_utf8(needle) + encode_utf8(post));
    assert(bytes.subrange(bi, bi + encode_utf8(needle).len()) =~= encode_utf8(needle));
    assert(occurs_at(encode_utf8(needle), bytes, bi));
}

proof fn lemma_add_variants(acc: Seq<PatternView>, label: Seq<char>, vs: Seq<Seq<char>>)
    ensures
        forall|e: PatternView| acc.contains(e) ==> #[trigger] add_variants(acc, label, vs).contains(e),
        forall|v: Seq<char>|
            #![trigger vs.contains(v)]
            vs.contains(v) && encode_utf8(v).len() >= MIN_SECRET_LEN ==> add_variants(
                acc,
                label,
                vs,
            ).contains((label, v)),
    decreases vs.len(),
{
    if vs.len() > 0 {
        let prev = vs.drop_last();
        lemma_add_variants(acc, label, prev);
        let mid = add_variants(acc, label, prev);
        let e = (label, vs.last());
        assert forall|x: PatternView| mid.contains(x) implies #[trigger] add_pattern(mid, e).contains(x) by {
            if !(encode_utf8(e.1).len() < MIN_SECRET_LEN || mid.contains(e)) {
                let k = choose|k: int| 0 <= k < mid.len() && mid[k] == x;
                assert(mid.push(e)[k] == x);
            }
        }
        assert forall|v: Seq<char>|
            #![trigger vs.contains(v)]
            vs.contains(v) && encode_utf8(v).len() >= MIN_SECRET_LEN implies add_variants(
                acc,
                label,
                vs,
            ).contains((label, v)) by {
            let k = choose|k: int| 0 <= k < vs.len() && vs[k] == v;
            if k < vs.len() - 1 {
                assert(prev[k] == v);
                assert(prev.contains(v));
            } else {
                if !mid.contains(e) {
                    assert(mid.push(e)[mid.len() as int] == e);
                }
            }
        }
    }
}

proof fn lemma_filter_patterns_has(secrets: Seq<PatternView>, k: int, v: Seq<char>)
    requires
        0 <= k < secrets.len(),
        secret_variant_set(secrets[k].1).contains(v),
        encode_utf8(v).len() >= MIN_SECRET_LEN,
    ensures
        filter_patterns(secrets).contains((secrets[k].0, v)),
    decreases secrets.len(),
{
    let prev = secrets.drop_last();
    let last = secrets.last();
    lemma_add_variants(filter_patterns(prev), last.0, secret_variant_set(last.1));
    if k < secrets.len() - 1 {
        assert(prev[k] == secrets[k]);
        lemma_filter_patterns_has(prev, k, v);
    }
}

proof fn lemma_variant_set_has(secret: Seq<char>, j: int)
    requires
        trim(secret).len() > 0,
        0 <= j < variant_candidates(trim(secret)).len(),
    ensures
        secret_variant_set(secret).contains(variant_candidates(trim(secret))[j]),
{
    let c = variant_candidates(trim(secret));
    crate::lexical::lemma_sort_unique(c);
    assert(c.to_set().contains(c[j]));
    assert(sort_unique(c).to_set().contains(c[j]));
}

/// A protected secret whose trimmed value is at least `MIN_SECRET_LEN`
/// bytes long is detected by the filter built from it wherever that value
/// appears verbatim in a text: the scan reports a detection.
pub proof fn law_exact_secret_detected(secrets: Seq<PatternView>, k: int, text: Seq<char>)
    requires
        0 <= k < secrets.len(),
        encode_utf8(trim(secrets[k].1)).len() >= MIN_SECRET_LEN,
        occurs_in(trim(secrets[k].1), text),
    ensures
        detects(filter_patterns(secrets), text),
        forall|res: Option<SecretDetection>|
            scan_outcome(filter_patterns(secrets), text, res) ==> #[trigger] res.is_some(),
{
    let t = trim(secrets[k].1);
    assert(t.len() > 0) by {
        if t.len() == 0 {
            assert(t =~= Seq::<char>::empty());
        }
    }
    assert(variant_candidates(t)[0] == t);
    lemma_variant_set_has(secrets[k].1, 0);
    lemma_filter_patterns_has(secrets, k, t);
    let pats = filter_patterns(secrets);
    let i = choose|i: int| 0 <= i < pats.len() && pats[i] == (secrets[k].0, t);
    lemma_occurs_in_bytes(t, text);
    assert(occurs_in(encode_utf8(pats[i].1), encode_utf8(text)));
}

/// A protected secret that reaches a text with ASCII whitespace inserted
/// (spaces, tabs, line breaks) is still detected, provided its value without
/// whitespace is at least `MIN_SECRET_LEN` bytes long.
pub proof fn law_spaced_secret_detected(secrets: Seq<PatternView>, k: int, text: Seq<char>)
    requires
        0 <= k < secrets.len(),
        encode_utf8(strip_ascii_ws(trim(secrets[k].1))).len() >= MIN_SECRET_LEN,
        occurs_in(strip_ascii_ws(trim(secrets[k].1)), strip_ascii_ws(text)),
    ensures
        detects(filter_patterns(secrets), strip_ascii_ws(text)),
        forall|res: Option<SecretDetection>|
            scan_outcome(filter_patterns(secrets), text, res) ==> #[trigger] res.is_some(),
{
    let t = trim(secrets[k].1);
    let st = strip_ascii_ws(t);
    assert(t.len() > 0) by {
        if t.len() == 0 {
            assert(t =~= Seq::<char>::empty());
            reveal_with_fuel(Seq::<_>::filter, 1);
            assert(st =~= Seq::<char>::empty());
        }
    }
    assert(variant_candidates(t)[1] == st);
    lemma_variant_set_has(secrets[k].1, 1);
    lemma_filter_patterns_has(secrets, k, st);
    let pats = filter_patterns(secrets);
    let i = choose|i: int| 0 <= i < pats.len() && pats[i] == (secrets[k].0, st);
    lemma_occurs_in_bytes(st, strip_ascii_ws(text));
    assert(occurs_in(encode_utf8(pats[i].1), encode_utf8(strip_ascii_ws(text))));
}

/// The streaming scanner's carried text is always the last
/// `STREAM_TAIL_BYTES` characters of everything scanned so far: carrying
/// the tail of a history and adding a chunk gives the tail of the history
/// followed by the chunk.
pub proof fn law_stream_tail(history: Seq<char>, chunk: Seq<char>)
    ensures
        crate::text::tail_chars(crate::text::tail_chars(history, STREAM_TAIL_BYTES as nat) + chunk, STREAM_TAIL_BYTES as nat)
            == crate::text::tail_chars(history + chunk, STREAM_TAIL_BYTES as nat),
{
    let n = STREAM_TAIL_BYTES as int;
    let t = crate::text::tail_chars(history, n as nat);
    let a = t + chunk;
    let b = history + chunk;
    if b.len() <= n {
        assert(t =~= history);
    } else if history.len() <= n {
        assert(t =~= history);
    } else {
        assert(t.len() == n);
        if a.len() <= n {
            assert(chunk.len() == 0);
            assert(a =~= t);
            assert(b =~= history);
        } else {
            assert(a.subrange(a.len() - n, a.len() as int) =~= b.subrange(b.len() - n, b.len() as int));
        }
    }
}

/// A protected rendering of at most `STREAM_TAIL_BYTES + 1` characters that
/// crosses into the chunk being scanned (it ends inside the chunk) is found
/// in the carried tail followed by that chunk, so the streaming scan
/// detects it even though no single chunk holds it.
pub proof fn law_stream_boundary_detected(
    patterns: Seq<PatternView>,
    p: int,
    history: Seq<char>,
    chunk: Seq<char>,
    i: int,
)
    requires
        0 <= p < patterns.len(),
        patterns[p].1.len() <= STREAM_TAIL_BYTES + 1,
        occurs_at(patterns[p].1, history + chunk, i),
        i + patterns[p].1.len() > history.len(),
    ensures
        detects(patterns, crate::text::tail_chars(history, STREAM_TAIL_BYTES as nat) + chunk),
        forall|res: Option<SecretDetection>|
            scan_outcome(
                patterns,
                crate::text::tail_chars(history, STREAM_TAIL_BYTES as nat) + chunk,
                res,
            ) ==> #[trigger] res.is_some(),
{
    let n = STREAM_TAIL_BYTES as int;
    let needle = patterns[p].1;
    let t = crate::text::tail_chars(history, n as nat);
    let b = history + chunk;
    let a = t + chunk;
    let shift = history.len() - t.len();
    assert(shift >= 0);
    assert(i >= shift) by {
        if history.len() > n {
            assert(t.len() == n);
        }
    }
    assert(a =~= b.subrange(shift, b.len() as int)) by {
        if history.len() > n {
            assert(t =~= history.subrange(shift, history.len() as int));
        } else {
            assert(t =~= history);
        }
    }
    assert(a.subrange(i - shift, i - shift + needle.len()) =~= b.subrange(i, i + needle.len()));
    assert(occurs_at(needle, a, i - shift));
    lemma_occurs_in_bytes(needle, a);
}

/// The renderings of a secret are sorted, each appears once, and they are
/// exactly its candidate renderings.
pub proof fn law_variants_sorted_unique(secret: Seq<char>)
    ensures
        crate::lexical::strictly_sorted(secret_variant_set(secret)),
        trim(secret).len() > 0 ==> secret_variant_set(secret).to_set() == variant_candidates(
            trim(secret),
        ).to_set(),
        trim(secret).len() == 0 ==> secret_variant_set(secret).len() == 0,
{
    let t = trim(secret);
    if t.len() > 0 {
        crate::lexical::lemma_sort_unique(variant_candidates(t));
    }
}

proof fn lemma_add_variants_inv(acc: Seq<PatternView>, label: Seq<char>, vs: Seq<Seq<char>>)
    requires
        acc.no_duplicates(),
        forall|i: int| 0 <= i < acc.len() ==> encode_utf8((#[trigger] acc[i]).1).len() >= MIN_SECRET_LEN,
    ensures
        add_variants(acc, label, vs).no_duplicates(),
        forall|i: int|
            0 <= i < add_variants(acc, label, vs).len() ==> encode_utf8(
                (#[trigger] add_variants(acc, label, vs)[i]).1,
            ).len() >= MIN_SECRET_LEN,
    decreases vs.len(),
{
    if vs.len() > 0 {
        lemma_add_variants_inv(acc, label, vs.drop_last());
        let mid = add_variants(acc, label, vs.drop_last());
        let e = (label, vs.last());
        if !(encode_utf8(e.1).len() < MIN_SECRET_LEN || mid.contains(e)) {
            let r = mid.push(e);
            assert forall|i: int, j: int| 0 <= i < r.len() && 0 <= j < r.len() && i != j implies r[i]
                != r[j] by {
                if i == mid.len() as int {
                    assert(r[j] == mid[j]);
                } else if j == mid.len() as int {
                    assert(r[i] == mid[i]);
                } else {
                    assert(r[i] == mid[i] && r[j] == mid[j]);
                }
            }
            assert forall|i: int| 0 <= i < r.len() implies encode_utf8((#[trigger] r[i]).1).len()
                >= MIN_SECRET_LEN by {
                if i < mid.len() {
                    assert(r[i] == mid[i]);
                }
            }
        }
    }
}

/// The inventory holds each `(label, rendering)` pair once, and every
/// rendering in it is at least `MIN_SECRET_LEN` bytes long.
pub proof fn law_patterns_unique_and_long(secrets: Seq<PatternView>)
    ensures
        filter_patterns(secrets).no_duplicates(),
        forall|i: int|
            0 <= i < filter_patterns(secrets).len() ==> encode_utf8(
                (#[trigger] filter_patterns(secrets)[i]).1,
            ).len() >= MIN_SECRET_LEN,
    decreases secrets.len(),
{
    if secrets.len() > 0 {
        law_patterns_unique_and_long(secrets.drop_last());
        lemma_add_variants_inv(
            filter_patterns(secrets.drop_last()),
            secrets.last().0,
            secret_variant_set(secrets.last().1),
        );
    }
}


proof fn lemma_add_variants_member(acc: Seq<PatternView>, label: Seq<char>, vs: Seq<Seq<char>>, e: PatternView)
    requires
        add_variants(acc, label, vs).contains(e),
    ensures
        acc.contains(e) || (e.0 == label && vs.contains(e.1) && encode_utf8(e.1).len() >= MIN_SECRET_LEN),
    decreases vs.len(),
{
    if vs.len() > 0 {
        let prev = vs.drop_last();
        let mid = add_variants(acc, label, prev);
        let x = (label, vs.last());
        if mid.contains(e) {
            lemma_add_variants_member(acc, label, prev, e);
            if !acc.contains(e) {
                let j = choose|j: int| 0 <= j < prev.len() && prev[j] == e.1;
                assert(vs[j] == e.1);
            }
        } else {
            let r = add_pattern(mid, x);
            let i = choose|i: int| 0 <= i < r.len() && r[i] == e;
            assert(r =~= mid.push(x));
            assert(e == x);
            assert(vs[vs.len() - 1] == e.1);
        }
    }
}

proof fn lemma_filter_patterns_member(secrets: Seq<PatternView>, e: PatternView)
    requires
        filter_patterns(secrets).contains(e),
    ensures
        exists|k: int|
            0 <= k < secrets.len() && (#[trigger] secrets[k]).0 == e.0 && secret_variant_set(
                secrets[k].1,
            ).contains(e.1) && encode_utf8(e.1).len() >= MIN_SECRET_LEN,
    decreases secrets.len(),
{
    let prev = secrets.drop_last();
    let last = secrets.last();
    lemma_add_variants_member(filter_patterns(prev), last.0, secret_variant_set(last.1), e);
    if filter_patterns(prev).contains(e) {
        lemma_filter_patterns_member(prev, e);
        let k = choose|k: int|
            0 <= k < prev.len() && (#[trigger] prev[k]).0 == e.0 && secret_variant_set(
                prev[k].1,
            ).contains(e.1) && encode_utf8(e.1).len() >= MIN_SECRET_LEN;
        assert(secrets[k] == prev[k]);
    } else {
        assert(secrets[secrets.len() - 1] == last);
    }
}

/// A secret that is blank once trimmed adds nothing to the inventory, so
/// the filter scans exactly as it would without it.
pub proof fn law_blank_secret_adds_nothing(secrets: Seq<PatternView>, label: Seq<char>, secret: Seq<char>)
    requires
        trim(secret).len() == 0,
    ensures
        filter_patterns(secrets.push((label, secret))) == filter_patterns(secrets),
        forall|text: Seq<char>|
            scan_label(filter_patterns(secrets.push((label, secret))), text) == #[trigger] scan_label(
                filter_patterns(secrets),
                text,
            ),
{
    assert(secrets.push((label, secret)).drop_last() =~= secrets);
    assert(secret_variant_set(secret) =~= Seq::<Seq<char>>::empty());
}

/// A filter built from no secrets has an empty inventory and finds
/// nothing in any text.
pub proof fn law_empty_inventory_detects_nothing(text: Seq<char>)
    ensures
        filter_patterns(Seq::<PatternView>::empty()) == Seq::<PatternView>::empty(),
        !scan_finds(Seq::<PatternView>::empty(), text),
        scan_label(Seq::<PatternView>::empty(), text) is None,
        forall|res: Option<SecretDetection>|
            scan_outcome(Seq::<PatternView>::empty(), text, res) ==> #[trigger] res.is_none(),
{
}

/// No false alarm: a label that a scan may report (a rendering under it
/// occurs in the text, as it is or without ASCII whitespace) is the label
/// of a configured secret one of whose renderings of at least
/// `MIN_SECRET_LEN` bytes occurs there.
pub proof fn law_no_false_alarm(secrets: Seq<PatternView>, text: Seq<char>, label: Seq<char>)
    requires
        detected_label(filter_patterns(secrets), text, label) || detected_label(
            filter_patterns(secrets),
            strip_ascii_ws(text),
            label,
        ),
    ensures
        exists|k: int, v: Seq<char>|
            0 <= k < secrets.len() && (#[trigger] secrets[k]).0 == label
                && #[trigger] secret_variant_set(secrets[k].1).contains(v) && encode_utf8(v).len()
                >= MIN_SECRET_LEN && (occurs_in(encode_utf8(v), encode_utf8(text)) || occurs_in(
                encode_utf8(v),
                encode_utf8(strip_ascii_ws(text)),
            )),
{
    let pats = filter_patterns(secrets);
    let t = if detected_label(pats, text, label) { text } else { strip_ascii_ws(text) };
    let i = choose|i: int|
        0 <= i < pats.len() && occurs_in(encode_utf8(#[trigger] pats[i].1), encode_utf8(t))
            && pats[i].0 == label;
    let e = pats[i];
    assert(pats.contains(e));
    lemma_filter_patterns_member(secrets, e);
    let k = choose|k: int|
        0 <= k < secrets.len() && (#[trigger] secrets[k]).0 == e.0 && secret_variant_set(
            secrets[k].1,
        ).contains(e.1) && encode_utf8(e.1).len() >= MIN_SECRET_LEN;
    assert(secret_variant_set(secrets[k].1).contains(e.1));
}

/// Every rendering of a configured secret (the trimmed value, its form
/// without ASCII whitespace, both base64 forms, its percent encoding, each
/// fragment) that is at least `MIN_SECRET_LEN` bytes long is detected
/// wherever its bytes occur in a text, as it is or without ASCII
/// whitespace.
pub proof fn law_rendering_detected(secrets: Seq<PatternView>, k: int, v: Seq<char>, text: Seq<char>)
    requires
        0 <= k < secrets.len(),
        secret_variant_set(secrets[k].1).contains(v),
        encode_utf8(v).len() >= MIN_SECRET_LEN,
        occurs_in(encode_utf8(v), encode_utf8(text)) || occurs_in(
            encode_utf8(v),
            encode_utf8(strip_ascii_ws(text)),
        ),
    ensures
        scan_finds(filter_patterns(secrets), text),
        forall|res: Option<SecretDetection>|
            scan_outcome(filter_patterns(secrets), text, res) ==> #[trigger] res.is_some(),
{
    lemma_filter_patterns_has(secrets, k, v);
    let pats = filter_patterns(secrets);
    let i = choose|i: int| 0 <= i < pats.len() && pats[i] == (secrets[k].0, v);
    if occurs_in(encode_utf8(v), encode_utf8(text)) {
        assert(occurs_in(encode_utf8(pats[i].1), encode_utf8(text)));
    } else {
        assert(occurs_in(encode_utf8(pats[i].1), encode_utf8(strip_ascii_ws(text))));
    }
}

proof fn lemma_occurs_in_middle<T>(needle: Seq<T>, a: Seq<T>, t: Seq<T>, b: Seq<T>)
    requires
        occurs_in(needle, t),
    ensures
        occurs_in(needle, a + t + b),
{
    let i = choose|i: int| occurs_at(needle, t, i);
    let h = a + t + b;
    assert(h.subrange(a.len() + i, a.len() + i + needle.len()) =~= t.subrange(i, i + needle.len()));
    assert(occurs_at(needle, h, a.len() + i));
}

proof fn lemma_detects_in_middle(patterns: Seq<PatternView>, a: Seq<char>, t: Seq<char>, b: Seq<char>)
    requires
        detects(patterns, t),
    ensures
        detects(patterns, a + t + b),
{
    let i = choose|i: int|
        0 <= i < patterns.len() && occurs_in(encode_utf8(#[trigger] patterns[i].1), encode_utf8(t));
    lemma_encode_utf8_concat(a + t, b);
    lemma_encode_utf8_concat(a, t);
    lemma_occurs_in_middle(encode_utf8(patterns[i].1), encode_utf8(a), encode_utf8(t), encode_utf8(b));
    assert(encode_utf8(a + t + b) == encode_utf8(a) + encode_utf8(t) + encode_utf8(b));
}

proof fn lemma_strip_concat(a: Seq<char>, b: Seq<char>)
    ensures
        strip_ascii_ws(a + b) == strip_ascii_ws(a) + strip_ascii_ws(b),
{
    Seq::filter_distributes_over_add(a, b, |c: char| !crate::text::is_ascii_ws(c));
}

proof fn lemma_strip_idempotent(s: Seq<char>)
    ensures
        strip_ascii_ws(strip_ascii_ws(s)) == strip_ascii_ws(s),
    decreases s.len(),
{
    reveal_with_fuel(Seq::<_>::filter, 2);
    if s.len() == 0 {
        assert(strip_ascii_ws(s) =~= Seq::<char>::empty());
    } else {
        let p = s.drop_last();
        let x = s.last();
        let one = seq![x];
        assert(s =~= p + one);
        lemma_strip_idempotent(p);
        lemma_strip_concat(p, one);
        lemma_strip_concat(strip_ascii_ws(p), strip_ascii_ws(one));
        assert(one.drop_last() =~= Seq::<char>::empty());
        if crate::text::is_ascii_ws(x) {
            assert(strip_ascii_ws(one) =~= Seq::<char>::empty());
            assert(strip_ascii_ws(Seq::<char>::empty()) =~= Seq::<char>::empty());
        } else {
            assert(strip_ascii_ws(one) =~= one);
        }
    }
}

/// Adding text around a text in which the filter finds a secret never
/// hides it; and a secret found once ASCII whitespace is removed is found
/// in the original text.
pub proof fn law_context_keeps_detection(patterns: Seq<PatternView>, a: Seq<char>, t: Seq<char>, b: Seq<char>)
    ensures
        scan_finds(patterns, t) ==> scan_finds(patterns, a + t + b),
        scan_finds(patterns, strip_ascii_ws(t)) ==> scan_finds(patterns, t),
{
    if detects(patterns, t) {
        lemma_detects_in_middle(patterns, a, t, b);
    }
    if detects(patterns, strip_ascii_ws(t)) {
        lemma_strip_concat(a + t, b);
        lemma_strip_concat(a, t);
        lemma_detects_in_middle(patterns, strip_ascii_ws(a), strip_ascii_ws(t), strip_ascii_ws(b));
    }
    lemma_strip_idempotent(t);
}

/// The text of a stream of chunks, joined.
pub open spec fn joined(chunks: Seq<Seq<char>>) -> Seq<char>
    decreases chunks.len(),
{
    if chunks.len() == 0 {
        seq![]
    } else {
        joined(chunks.drop_last()) + chunks.last()
    }
}

/// What a streaming scanner started empty carries after the given chunks:
/// each `scan_chunk` keeps the last `STREAM_TAIL_BYTES` characters of the
/// carried text followed by the chunk.
pub open spec fn stream_carry(chunks: Seq<Seq<char>>) -> Seq<char>
    decreases chunks.len(),
{
    if chunks.len() == 0 {
        seq![]
    } else {
        crate::text::tail_chars(stream_carry(chunks.drop_last()) + chunks.last(), STREAM_TAIL_BYTES as nat)
    }
}

/// Chunked scanning agrees with scanning joined text: after any chunks, a
/// fresh scanner carries the last `STREAM_TAIL_BYTES` characters of their
/// joined text, so scanning the next chunk reports exactly what a full scan
/// of those characters followed by the chunk reports.
pub proof fn law_stream_scan(patterns: Seq<PatternView>, chunks: Seq<Seq<char>>, next: Seq<char>)
    ensures
        stream_carry(chunks) == crate::text::tail_chars(joined(chunks), STREAM_TAIL_BYTES as nat),
        scan_label(patterns, stream_carry(chunks) + next) == scan_label(
            patterns,
            crate::text::tail_chars(joined(chunks), STREAM_TAIL_BYTES as nat) + next,
        ),
        scan_finds(patterns, stream_carry(chunks) + next) == scan_finds(
            patterns,
            crate::text::tail_chars(joined(chunks), STREAM_TAIL_BYTES as nat) + next,
        ),
    decreases chunks.len(),
{
    if chunks.len() > 0 {
        law_stream_scan(patterns, chunks.drop_last(), chunks.last());
        law_stream_tail(joined(chunks.drop_last()), chunks.last());
    }
}

/// The value of an upper-case hexadecimal digit.
pub open spec fn hex_value(c: char) -> int {
    if '0' <= c <= '9' {
        c as int - 48
    } else {
        c as int - 55
    }
}

/// An upper-case hexadecimal digit: `0`-`9` or `A`-`F`.
pub open spec fn is_upper_hex(c: char) -> bool {
    ('0' <= c <= '9') || ('A' <= c <= 'F')
}

/// Percent encoding works byte by byte: the encoding of two byte strings
/// joined is the two encodings joined.
pub proof fn law_percent_concat(a: Seq<u8>, b: Seq<u8>)
    ensures
        percent_encoded(a + b) == percent_encoded(a) + percent_encoded(b),
    decreases b.len(),
{
    if b.len() == 0 {
        assert(a + b =~= a);
        assert(percent_encoded(b) =~= Seq::<char>::empty());
        assert(percent_encoded(a) + percent_encoded(b) =~= percent_encoded(a));
    } else {
        assert((a + b).drop_last() =~= a + b.drop_last());
        assert((a + b).last() == b.last());
        law_percent_concat(a, b.drop_last());
        assert(percent_encoded(a + b) =~= percent_encoded(a) + percent_encoded(b));
    }
}

/// One byte's percent encoding: an ASCII letter or digit, `-`, `_`, `.` or
/// `~` stands for itself; any other byte becomes `%` followed by two
/// upper-case hexadecimal digits whose value is the byte.
pub proof fn law_percent_byte(b: u8)
    ensures
        (0x30 <= b <= 0x39 || 0x41 <= b <= 0x5a || 0x61 <= b <= 0x7a || b == 0x2d || b == 0x5f || b == 0x2e || b == 0x7e) ==> percent_encoded(seq![b]) == seq![b as char],
        !(0x30 <= b <= 0x39 || 0x41 <= b <= 0x5a || 0x61 <= b <= 0x7a || b == 0x2d || b == 0x5f || b == 0x2e || b == 0x7e) ==> ({
            let r = percent_encoded(seq![b]);
            &&& r.len() == 3
            &&& r[0] == '%'
            &&& is_upper_hex(r[1])
            &&& is_upper_hex(r[2])
            &&& hex_value(r[1]) * 16 + hex_value(r[2]) == b
        }),
{
    let one = seq![b];
    assert(one.drop_last() =~= Seq::<u8>::empty());
    assert(percent_encoded(one.drop_last()) =~= Seq::<char>::empty());
    assert(one.last() == b);
    assert(percent_encoded(one) =~= percent_byte(b));
    if !(0x30 <= b <= 0x39 || 0x41 <= b <= 0x5a || 0x61 <= b <= 0x7a || b == 0x2d || b == 0x5f || b == 0x2e || b == 0x7e) {
        let hi = b / 16;
        let lo = b % 16;
        assert(hi < 16 && lo < 16);
        assert(hi * 16 + lo == b);
        assert(hex_value(hex_upper(hi)) == hi as int);
        assert(hex_value(hex_upper(lo)) == lo as int);
        assert(is_upper_hex(hex_upper(hi)));
        assert(is_upper_hex(hex_upper(lo)));
    }
}

proof fn lemma_ascii_byte(v: u32)
    by (bit_vector)
    requires
        v < 128,
    ensures
        (v & 0x7F) == v,
{
}

/// A text made only of ASCII letters, digits and `-`, `_`, `.`, `~` is its
/// own percent encoding.
pub proof fn law_percent_plain_text(s: Seq<char>)
    requires
        forall|i: int|
            0 <= i < s.len() ==> ('0' <= #[trigger] s[i] <= '9' || 'A' <= s[i] <= 'Z' || 'a' <= s[i]
                <= 'z' || s[i] == '-' || s[i] == '_' || s[i] == '.' || s[i] == '~'),
    ensures
        percent_encoded(encode_utf8(s)) == s,
    decreases s.len(),
{
    if s.len() > 0 {
        let p = s.drop_last();
        let c = s.last();
        assert(s[s.len() - 1] == c);
        assert(s =~= p + seq![c]);
        assert forall|i: int| 0 <= i < p.len() implies ('0' <= #[trigger] p[i] <= '9' || 'A' <= p[i]
            <= 'Z' || 'a' <= p[i] <= 'z' || p[i] == '-' || p[i] == '_' || p[i] == '.' || p[i] == '~') by {
            assert(p[i] == s[i]);
        }
        law_percent_plain_text(p);
        lemma_encode_utf8_concat(p, seq![c]);
        let v = c as u32;
        assert(v < 128);
        lemma_ascii_byte(v);
        let b = (v & 0x7F) as u8;
        assert(b as int == c as int);
        assert(encode_utf8(seq![c]) =~= seq![b]) by {
            assert(seq![c].drop_first() =~= Seq::<char>::empty());
            assert(encode_utf8(seq![c].drop_first()) =~= Seq::<u8>::empty());
        }
        law_percent_concat(encode_utf8(p), seq![b]);
        law_percent_byte(b);
        assert(b as char == c);
        assert(percent_encoded(encode_utf8(s)) =~= s);
    } else {
        assert(encode_utf8(s) =~= Seq::<u8>::empty());
    }
}

proof fn lemma_files_entries_has(files: Seq<PatternView>, k: int, e: PatternView)
    requires
        0 <= k < files.len(),
        secret_file_entries(files[k].0, files[k].1).contains(e),
    ensures
        files_entries(files).contains(e),
    decreases files.len(),
{
    let prev = files.drop_last();
    let tail = secret_file_entries(files.last().0, files.last().1);
    if k < files.len() - 1 {
        assert(prev[k] == files[k]);
        lemma_files_entries_has(prev, k, e);
        let j = choose|j: int| 0 <= j < files_entries(prev).len() && files_entries(prev)[j] == e;
        assert((files_entries(prev) + tail)[j] == e);
    } else {
        let j = choose|j: int| 0 <= j < tail.len() && tail[j] == e;
        assert((files_entries(prev) + tail)[files_entries(prev).len() + j] == e);
    }
}

proof fn lemma_trimmed_value_kept(secrets: Seq<PatternView>, j: int)
    requires
        0 <= j < secrets.len(),
        encode_utf8(trim(secrets[j].1)).len() >= MIN_SECRET_LEN,
    ensures
        filter_patterns(secrets).contains((secrets[j].0, trim(secrets[j].1))),
{
    let t = trim(secrets[j].1);
    assert(t.len() > 0) by {
        if t.len() == 0 {
            assert(t =~= Seq::<char>::empty());
        }
    }
    assert(variant_candidates(t)[0] == t);
    lemma_variant_set_has(secrets[j].1, 0);
    lemma_filter_patterns_has(secrets, j, t);
}

/// Whether or not a database is configured, each secret file whose trimmed
/// content is 8 to 512 bytes long is protected as a whole, under the label
/// `secret-file:` followed by its path.
pub proof fn law_config_protects_secret_files(
    canaries: Seq<Seq<char>>,
    db_password: Option<Seq<char>>,
    files: Seq<PatternView>,
    k: int,
)
    requires
        0 <= k < files.len(),
        8 <= encode_utf8(trim(files[k].1)).len() <= 512,
    ensures
        filter_patterns(config_secrets(canaries, db_password, files)).contains(
            ("secret-file:"@ + files[k].0, trim(files[k].1)),
        ),
{
    let t = trim(files[k].1);
    let e = ("secret-file:"@ + files[k].0, t);
    let ent = secret_file_entries(files[k].0, files[k].1);
    assert(ent[0] == e);
    assert(ent.contains(e));
    lemma_files_entries_has(files, k, e);
    let all = config_secrets(canaries, db_password, files);
    let fe = files_entries(files);
    let head = all.len() - fe.len();
    assert(all == all.take(head) + fe) by {
        assert(all.subrange(head, all.len() as int) =~= fe);
    }
    let j0 = choose|j: int| 0 <= j < fe.len() && fe[j] == e;
    let j = head + j0;
    assert(all[j] == e);
    law_trim_idempotent(files[k].1);
    assert(trim(all[j].1) == t);
    lemma_trimmed_value_kept(all, j);
}

/// A configured database password of at least 8 bytes once trimmed is
/// protected under the label `postgres.password`.
pub proof fn law_config_protects_password(canaries: Seq<Seq<char>>, password: Seq<char>, files: Seq<PatternView>)
    requires
        encode_utf8(trim(password)).len() >= 8,
    ensures
        filter_patterns(config_secrets(canaries, Some(password), files)).contains(
            ("postgres.password"@, trim(password)),
        ),
{
    let all = config_secrets(canaries, Some(password), files);
    assert(all[0] == ("postgres.password"@, password));
    lemma_trimmed_value_kept(all, 0);
}

/// Each canary secret of at least 8 bytes once trimmed is protected under
/// the label `canary.<i>`, `i` its position in the list.
pub proof fn law_config_protects_canaries(
    canaries: Seq<Seq<char>>,
    db_password: Option<Seq<char>>,
    files: Seq<PatternView>,
    i: int,
)
    requires
        0 <= i < canaries.len(),
        encode_utf8(trim(canaries[i])).len() >= 8,
    ensures
        filter_patterns(config_secrets(canaries, db_password, files)).contains(
            ("canary."@ + crate::text::decimal(i as nat), trim(canaries[i])),
        ),
{
    let all = config_secrets(canaries, db_password, files);
    let off: int = if db_password is Some { 1 } else { 0 };
    assert(all[off + i] == ("canary."@ + crate::text::decimal(i as nat), canaries[i]));
    lemma_trimmed_value_kept(all, off + i);
}
} // verus!
