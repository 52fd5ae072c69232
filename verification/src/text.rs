//! Character-level helpers shared by the prompt, configuration and
//! secret-filter modules.

use vstd::prelude::*;

verus! {

/// A list of string pairs seen as character sequences.
pub open spec fn pairs_view(s: Seq<(String, String)>) -> Seq<(Seq<char>, Seq<char>)> {
    s.map_values(|p: (String, String)| (p.0@, p.1@))
}

/// Pushes one character onto a `String` (std `String::push`).
#[verifier::external_body]
pub(crate) fn push_char(s: &mut String, c: char)
    ensures
        final(s)@ == old(s)@.push(c),
{
    s.push(c);
}

/// The characters of `s`, in order.
pub fn chars_of(s: &str) -> (res: Vec<char>)
    ensures
        res@ == s@,
{
    let mut res: Vec<char> = Vec::new();
    for c in it: s.chars()
        invariant
            res@ == it.seq().take(it.index() as int),
            it.seq() == s@,
    {
        res.push(c);
    }
    res
}

/// Builds a `String` from a sequence of characters.
pub fn string_from_chars(chars: &Vec<char>) -> (res: String)
    ensures
        res@ == chars@,
{
    let mut res = String::new();
    let mut i: usize = 0;
    while i < chars.len()
        invariant
            i <= chars.len(),
            res@ == chars@.take(i as int),
        decreases chars.len() - i,
    {
        push_char(&mut res, chars[i]);
        assert(chars@.take(i as int).push(chars@[i as int]) =~= chars@.take(i + 1));
        i += 1;
    }
    assert(chars@.take(chars.len() as int) =~= chars@);
    res
}

} // verus!

verus! {

/// Unicode `White_Space` characters: what `char::is_whitespace` accepts and
/// what `str::trim` removes.
pub open spec fn is_unicode_ws(c: char) -> bool {
    let u = c as u32;
    ||| 0x09 <= u <= 0x0d
    ||| u == 0x20
    ||| u == 0x85
    ||| u == 0xa0
    ||| u == 0x1680
    ||| 0x2000 <= u <= 0x200a
    ||| u == 0x2028
    ||| u == 0x2029
    ||| u == 0x202f
    ||| u == 0x205f
    ||| u == 0x3000
}

/// ASCII whitespace as `char::is_ascii_whitespace` defines it
/// (space, tab, line feed, form feed, carriage return).
pub open spec fn is_ascii_ws(c: char) -> bool {
    c == ' ' || c == '\t' || c == '\n' || c == '\x0C' || c == '\r'
}

pub fn is_unicode_whitespace(c: char) -> (res: bool)
    ensures
        res == is_unicode_ws(c),
{
    let u = c as u32;
    (0x09 <= u && u <= 0x0d) || u == 0x20 || u == 0x85 || u == 0xa0 || u == 0x1680 || (0x2000
        <= u && u <= 0x200a) || u == 0x2028 || u == 0x2029 || u == 0x202f || u == 0x205f || u
        == 0x3000
}

pub fn is_ascii_whitespace(c: char) -> (res: bool)
    ensures
        res == is_ascii_ws(c),
{
    c == ' ' || c == '\t' || c == '\n' || c == '\x0C' || c == '\r'
}

/// `s` without its leading Unicode whitespace.
pub open spec fn trim_start(s: Seq<char>) -> Seq<char>
    decreases s.len(),
{
    if s.len() > 0 && is_unicode_ws(s[0]) {
        trim_start(s.drop_first())
    } else {
        s
    }
}

/// `s` without its trailing Unicode whitespace.
pub open spec fn trim_end(s: Seq<char>) -> Seq<char>
    decreases s.len(),
{
    if s.len() > 0 && is_unicode_ws(s.last()) {
        trim_end(s.drop_last())
    } else {
        s
    }
}

/// What `str::trim` returns.
pub open spec fn trim(s: Seq<char>) -> Seq<char> {
    trim_end(trim_start(s))
}

/// `s` with every ASCII whitespace character removed.
pub open spec fn strip_ascii_ws(s: Seq<char>) -> Seq<char> {
    s.filter(|c: char| !is_ascii_ws(c))
}

/// The last `max` characters of `s` (all of `s` when it is shorter).
pub open spec fn tail_chars(s: Seq<char>, max: nat) -> Seq<char> {
    if s.len() <= max {
        s
    } else {
        s.subrange(s.len() - max, s.len() as int)
    }
}

/// Decimal digits of `n`, most significant first, without leading zeros.
pub open spec fn decimal(n: nat) -> Seq<char>
    decreases n,
{
    if n < 10 {
        seq![digit_char((n % 10) as nat)]
    } else {
        decimal(n / 10).push(digit_char((n % 10) as nat))
    }
}

pub open spec fn digit_char(d: nat) -> char {
    (('0' as u32) + d) as char
}

proof fn lemma_trim_start_skip(s: Seq<char>, i: int)
    requires
        0 <= i <= s.len(),
        forall|k: int| 0 <= k < i ==> is_unicode_ws(#[trigger] s[k]),
    ensures
        trim_start(s) == trim_start(s.subrange(i, s.len() as int)),
    decreases i,
{
    if i > 0 {
        assert(is_unicode_ws(s[0]));
        assert(s.drop_first() =~= s.subrange(1, s.len() as int));
        assert forall|k: int| 0 <= k < i - 1 implies is_unicode_ws(#[trigger] s.drop_first()[k]) by {
            assert(s.drop_first()[k] == s[k + 1]);
        }
        lemma_trim_start_skip(s.drop_first(), i - 1);
        assert(s.drop_first().subrange(i - 1, s.drop_first().len() as int) =~= s.subrange(
            i,
            s.len() as int,
        ));
    } else {
        assert(s.subrange(0, s.len() as int) =~= s);
    }
}

proof fn lemma_trim_end_cut(s: Seq<char>, j: int)
    requires
        0 <= j <= s.len(),
        forall|k: int| j <= k < s.len() ==> is_unicode_ws(#[trigger] s[k]),
    ensures
        trim_end(s) == trim_end(s.subrange(0, j)),
    decreases s.len() - j,
{
    if j < s.len() {
        assert(s.drop_last() =~= s.subrange(0, s.len() - 1));
        lemma_trim_end_cut(s.drop_last(), j);
        assert(s.drop_last().subrange(0, j) =~= s.subrange(0, j));
    } else {
        assert(s.subrange(0, j) =~= s);
    }
}

/// `str::trim` on a character sequence.
pub fn trim_chars(s: &Vec<char>) -> (res: Vec<char>)
    ensures
        res@ == trim(s@),
{
    let n = s.len();
    let mut i: usize = 0;
    while i < n && is_unicode_whitespace(s[i])
        invariant
            n == s.len(),
            i <= n,
            forall|k: int| 0 <= k < i ==> is_unicode_ws(#[trigger] s@[k]),
        decreases n - i,
    {
        i += 1;
    }
    proof {
        lemma_trim_start_skip(s@, i as int);
    }
    let ghost rest = s@.subrange(i as int, n as int);
    assert(trim_start(rest) == rest);
    let mut j: usize = n;
    while j > i && is_unicode_whitespace(s[j - 1])
        invariant
            n == s.len(),
            i <= j <= n,
            forall|k: int| j <= k < n ==> is_unicode_ws(#[trigger] s@[k]),
        decreases j,
    {
        j -= 1;
    }
    proof {
        let jj = (j - i) as int;
        assert forall|k: int| jj <= k < rest.len() implies is_unicode_ws(#[trigger] rest[k]) by {
            assert(rest[k] == s@[k + i]);
        }
        lemma_trim_end_cut(rest, jj);
        assert(rest.subrange(0, jj) =~= s@.subrange(i as int, j as int));
    }
    let mut res: Vec<char> = Vec::new();
    let mut k: usize = i;
    while k < j
        invariant
            n == s.len(),
            i <= k <= j <= n,
            res@ =~= s@.subrange(i as int, k as int),
        decreases j - k,
    {
        res.push(s[k]);
        k += 1;
    }
    res
}

/// `str::trim`, returning an owned string.
pub fn trim_str(s: &str) -> (res: String)
    ensures
        res@ == trim(s@),
{
    let chars = chars_of(s);
    let t = trim_chars(&chars);
    string_from_chars(&t)
}

/// Removes every ASCII whitespace character.
pub fn strip_ascii_whitespace(value: &str) -> (res: String)
    ensures
        res@ == strip_ascii_ws(value@),
{
    let chars = chars_of(value);
    let mut res = String::new();
    let mut i: usize = 0;
    while i < chars.len()
        invariant
            i <= chars.len(),
            chars@ == value@,
            res@ == strip_ascii_ws(chars@.take(i as int)),
        decreases chars.len() - i,
    {
        let c = chars[i];
        proof {
            reveal_with_fuel(Seq::<_>::filter, 1);
            assert(chars@.take(i + 1).drop_last() =~= chars@.take(i as int));
        }
        if !is_ascii_whitespace(c) {
            push_char(&mut res, c);
        }
        i += 1;
    }
    assert(chars@.take(chars.len() as int) =~= chars@);
    res
}

/// The last `max_chars` characters of `value`.
pub fn retain_tail(value: &str, max_chars: usize) -> (res: String)
    ensures
        res@ == tail_chars(value@, max_chars as nat),
{
    let chars = chars_of(value);
    let start = if chars.len() > max_chars { chars.len() - max_chars } else { 0 };
    let mut res = String::new();
    let mut i = start;
    while i < chars.len()
        invariant
            start <= i <= chars.len(),
            chars@ == value@,
            start == (if chars.len() > max_chars { chars.len() - max_chars } else { 0 }),
            res@ =~= chars@.subrange(start as int, i as int),
        decreases chars.len() - i,
    {
        push_char(&mut res, chars[i]);
        i += 1;
    }
    assert(chars@.subrange(0, chars.len() as int) =~= chars@);
    res
}

/// Decimal rendering of an unsigned integer (what `u64::to_string` gives).
pub fn decimal_string(n: u64) -> (res: String)
    ensures
        res@ == decimal(n as nat),
    decreases n,
{
    if n < 10 {
        let mut res = String::new();
        let c = char_of_digit((n % 10) as u8);
        push_char(&mut res, c);
        assert(res@ =~= decimal(n as nat));
        res
    } else {
        let mut res = decimal_string(n / 10);
        let c = char_of_digit((n % 10) as u8);
        push_char(&mut res, c);
        res
    }
}

fn char_of_digit(d: u8) -> (c: char)
    requires
        d < 10,
    ensures
        c == digit_char(d as nat),
{
    if d == 0 { '0' }
    else if d == 1 { '1' }
    else if d == 2 { '2' }
    else if d == 3 { '3' }
    else if d == 4 { '4' }
    else if d == 5 { '5' }
    else if d == 6 { '6' }
    else if d == 7 { '7' }
    else if d == 8 { '8' }
    else { '9' }
}


proof fn lemma_trim_start_shape(s: Seq<char>)
    ensures
        trim_start(s).len() == 0 || !is_unicode_ws(trim_start(s)[0]),
    decreases s.len(),
{
    if s.len() > 0 && is_unicode_ws(s[0]) {
        lemma_trim_start_shape(s.drop_first());
    }
}

proof fn lemma_trim_end_shape(s: Seq<char>)
    ensures
        trim_end(s).len() <= s.len(),
        trim_end(s) == s.take(trim_end(s).len() as int),
        trim_end(s).len() == 0 || !is_unicode_ws(trim_end(s).last()),
    decreases s.len(),
{
    if s.len() > 0 && is_unicode_ws(s.last()) {
        lemma_trim_end_shape(s.drop_last());
        assert(s.drop_last().take(trim_end(s).len() as int) =~= s.take(trim_end(s).len() as int));
    } else {
        assert(s.take(s.len() as int) =~= s);
    }
}

/// Trimming is idempotent: a trimmed text has no leading or trailing
/// whitespace left to remove.
pub proof fn law_trim_idempotent(s: Seq<char>)
    ensures
        trim(trim(s)) == trim(s),
        trim(s).len() == 0 || (!is_unicode_ws(trim(s)[0]) && !is_unicode_ws(trim(s).last())),
{
    let r = trim_start(s);
    let u = trim_end(r);
    lemma_trim_start_shape(s);
    lemma_trim_end_shape(r);
    if u.len() > 0 {
        assert(u[0] == r[0]);
    }
    assert(trim_start(u) == u);
    assert(trim_end(u) == u);
}

proof fn lemma_trim_start_suffix(s: Seq<char>) -> (i: int)
    ensures
        0 <= i <= s.len(),
        trim_start(s) == s.subrange(i, s.len() as int),
        forall|k: int| 0 <= k < i ==> is_unicode_ws(#[trigger] s[k]),
    decreases s.len(),
{
    if s.len() > 0 && is_unicode_ws(s[0]) {
        let j = lemma_trim_start_suffix(s.drop_first());
        assert(s.drop_first().subrange(j, s.drop_first().len() as int) =~= s.subrange(j + 1, s.len() as int));
        assert forall|k: int| 0 <= k < j + 1 implies is_unicode_ws(#[trigger] s[k]) by {
            if k > 0 {
                assert(s[k] == s.drop_first()[k - 1]);
            }
        }
        j + 1
    } else {
        assert(s.subrange(0, s.len() as int) =~= s);
        0
    }
}

proof fn lemma_trim_end_prefix(s: Seq<char>)
    ensures
        trim_end(s).len() <= s.len(),
        trim_end(s) == s.subrange(0, trim_end(s).len() as int),
        forall|k: int| trim_end(s).len() <= k < s.len() ==> is_unicode_ws(#[trigger] s[k]),
    decreases s.len(),
{
    if s.len() > 0 && is_unicode_ws(s.last()) {
        lemma_trim_end_prefix(s.drop_last());
        let n = trim_end(s).len() as int;
        assert(s.drop_last().subrange(0, n) =~= s.subrange(0, n));
        assert forall|k: int| n <= k < s.len() implies is_unicode_ws(#[trigger] s[k]) by {
            if k < s.len() - 1 {
                assert(s[k] == s.drop_last()[k]);
            }
        }
    } else {
        assert(s.subrange(0, s.len() as int) =~= s);
    }
}

/// `trim` removes whitespace from both ends and nothing else: the result is
/// a contiguous piece of the text, everything cut off before and after it
/// is Unicode whitespace, and it neither starts nor ends with whitespace.
pub proof fn law_trim_cuts_only_outer_whitespace(s: Seq<char>)
    ensures
        exists|i: int, j: int|
            0 <= i <= j <= s.len() && trim(s) == s.subrange(i, j) && (forall|k: int|
                0 <= k < i ==> is_unicode_ws(#[trigger] s[k])) && (forall|k: int|
                j <= k < s.len() ==> is_unicode_ws(#[trigger] s[k])),
        trim(s).len() == 0 || (!is_unicode_ws(trim(s)[0]) && !is_unicode_ws(trim(s).last())),
{
    let i = lemma_trim_start_suffix(s);
    let r = trim_start(s);
    lemma_trim_end_prefix(r);
    let n = trim_end(r).len() as int;
    let j = i + n;
    assert(trim(s) =~= s.subrange(i, j));
    assert forall|k: int| 0 <= k < i implies is_unicode_ws(#[trigger] s[k]) by {}
    assert forall|k: int| j <= k < s.len() implies is_unicode_ws(#[trigger] s[k]) by {
        assert(s[k] == r[k - i]);
    }
    law_trim_idempotent(s);
}

} // verus!
