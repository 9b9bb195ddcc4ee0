//! String primitives with contracts over `Seq<char>`.
//!
//! The executable functions here are thin bindings to `str` methods of the
//! standard library. Their contracts are stated over the spec functions of this
//! module and are taken on trust; everything built on top of them is proved.

use vstd::prelude::*;

verus! {

// ---------------------------------------------------------------------------
// Models
// ---------------------------------------------------------------------------

/// The views of a sequence of strings.
pub open spec fn views(v: Seq<String>) -> Seq<Seq<char>> {
    Seq::new(v.len(), |i: int| v[i]@)
}

/// The view of an optional text.
pub open spec fn opt_view(o: Option<String>) -> Option<Seq<char>> {
    match o {
        Some(s) => Some(s@),
        None => None,
    }
}

/// Characters with the Unicode `White_Space` property.
pub open spec fn is_whitespace(c: char) -> bool {
    let n = c as u32;
    (0x09 <= n <= 0x0D) || n == 0x20 || n == 0x85 || n == 0xA0 || n == 0x1680 || (0x2000 <= n
        <= 0x200A) || n == 0x2028 || n == 0x2029 || n == 0x202F || n == 0x205F || n == 0x3000
}

/// `s` without its leading whitespace.
pub open spec fn trim_start_of(s: Seq<char>) -> Seq<char>
    decreases s.len(),
{
    if s.len() > 0 && is_whitespace(s[0]) {
        trim_start_of(s.drop_first())
    } else {
        s
    }
}

/// `s` without its trailing whitespace.
pub open spec fn trim_end_of(s: Seq<char>) -> Seq<char>
    decreases s.len(),
{
    if s.len() > 0 && is_whitespace(s.last()) {
        trim_end_of(s.drop_last())
    } else {
        s
    }
}

/// `s` without leading and trailing whitespace.
pub open spec fn trim_of(s: Seq<char>) -> Seq<char> {
    trim_end_of(trim_start_of(s))
}

/// True when `pat` occurs in `s` starting at index `i`.
pub open spec fn occurs_at(s: Seq<char>, pat: Seq<char>, i: int) -> bool {
    0 <= i && i + pat.len() <= s.len() && s.subrange(i, i + pat.len()) == pat
}

/// True when `pat` occurs in `s` as a contiguous run of characters.
pub open spec fn seq_contains(s: Seq<char>, pat: Seq<char>) -> bool {
    exists|i: int| #[trigger] occurs_at(s, pat, i)
}

/// The least index at or after `from` at which `pat` occurs in `s`, or `-1`.
pub open spec fn find_from(s: Seq<char>, pat: Seq<char>, from: int) -> int
    decreases s.len() - from,
{
    if from < 0 || from + pat.len() > s.len() {
        -1
    } else if occurs_at(s, pat, from) {
        from
    } else if from >= s.len() {
        -1
    } else {
        find_from(s, pat, from + 1)
    }
}

/// The pieces of `s` between the non-overlapping occurrences of `pat`, taken
/// from the left. There is always at least one piece.
pub open spec fn split_of(s: Seq<char>, pat: Seq<char>) -> Seq<Seq<char>>
    recommends
        pat.len() > 0,
    decreases s.len(),
{
    let i = find_from(s, pat, 0);
    if pat.len() == 0 || i < 0 || i + pat.len() > s.len() {
        seq![s]
    } else {
        seq![s.subrange(0, i)] + split_of(s.subrange(i + pat.len(), s.len() as int), pat)
    }
}

/// `s` cut at the first occurrence of `pat`: the piece before it and the
/// piece behind it, or `s` alone where `pat` does not occur.
pub open spec fn split_first_of(s: Seq<char>, pat: Seq<char>) -> Seq<Seq<char>> {
    let i = find_from(s, pat, 0);
    if i < 0 || i + pat.len() > s.len() {
        seq![s]
    } else {
        seq![s.subrange(0, i), s.subrange(i + pat.len(), s.len() as int)]
    }
}

/// `s` with every non-overlapping occurrence of `from`, taken from the left,
/// replaced by `to`.
pub open spec fn replace_of(s: Seq<char>, from: Seq<char>, to: Seq<char>) -> Seq<char>
    recommends
        from.len() > 0,
    decreases s.len(),
{
    let i = find_from(s, from, 0);
    if from.len() == 0 || i < 0 || i + from.len() > s.len() {
        s
    } else {
        s.subrange(0, i) + to + replace_of(s.subrange(i + from.len(), s.len() as int), from, to)
    }
}

/// A line without the carriage return that preceded its line feed.
pub open spec fn strip_cr(line: Seq<char>) -> Seq<char> {
    if line.len() > 0 && line.last() == '\r' {
        line.drop_last()
    } else {
        line
    }
}

/// The lines of `s`: split at `\n` or `\r\n`, the final line ending optional.
pub open spec fn lines_of(s: Seq<char>) -> Seq<Seq<char>>
    decreases s.len(),
{
    let i = find_from(s, seq!['\n'], 0);
    if s.len() == 0 {
        Seq::empty()
    } else if i < 0 || i + 1 > s.len() {
        seq![s]
    } else {
        seq![strip_cr(s.subrange(0, i))] + lines_of(s.subrange(i + 1, s.len() as int))
    }
}

/// The length of the longest prefix of `s` that holds no whitespace.
pub open spec fn token_len(s: Seq<char>) -> int
    decreases s.len(),
{
    if s.len() == 0 || is_whitespace(s[0]) {
        0
    } else {
        1 + token_len(s.drop_first())
    }
}

/// The first run of non-whitespace characters of `s`, if there is one.
pub open spec fn first_token_of(s: Seq<char>) -> Option<Seq<char>> {
    let t = trim_start_of(s);
    if t.len() == 0 {
        None
    } else {
        Some(t.subrange(0, token_len(t)))
    }
}

/// The tokens that end within the first `n` characters of `s`, and the
/// token that is still open there.
pub open spec fn tokens_within(s: Seq<char>, n: int) -> (Seq<Seq<char>>, Seq<char>)
    decreases n,
{
    if n <= 0 {
        (Seq::empty(), Seq::empty())
    } else {
        let before = tokens_within(s, n - 1);
        if is_whitespace(s[n - 1]) {
            if before.1.len() > 0 {
                (before.0.push(before.1), Seq::empty())
            } else {
                before
            }
        } else {
            (before.0, before.1.push(s[n - 1]))
        }
    }
}

/// The runs of non-whitespace characters of `s`, in order.
pub open spec fn tokens_of(s: Seq<char>) -> Seq<Seq<char>> {
    let end = tokens_within(s, s.len() as int);
    if end.1.len() > 0 {
        end.0.push(end.1)
    } else {
        end.0
    }
}

/// True when `c` is one of `0` to `9`.
pub open spec fn is_digit(c: char) -> bool {
    '0' <= c <= '9'
}

/// True when every character of `s` is an ASCII digit.
pub open spec fn all_digits(s: Seq<char>) -> bool {
    forall|i: int| 0 <= i < s.len() ==> is_digit(#[trigger] s[i])
}

/// The number that a run of ASCII digits writes in base ten.
pub open spec fn decimal_value(s: Seq<char>) -> nat
    decreases s.len(),
{
    if s.len() == 0 {
        0
    } else {
        (decimal_value(s.drop_last()) * 10 + (s.last() as u32 - '0' as u32)) as nat
    }
}

/// What parsing `s` as an unsigned 64-bit decimal number gives: an optional
/// `+`, then at least one digit, the value within range.
pub open spec fn parse_u64_of(s: Seq<char>) -> Option<u64> {
    let d = if s.len() > 0 && s[0] == '+' {
        s.drop_first()
    } else {
        s
    };
    if d.len() > 0 && all_digits(d) && decimal_value(d) <= u64::MAX {
        Some(decimal_value(d) as u64)
    } else {
        None
    }
}

/// The character that writes the digit `d`.
pub open spec fn digit_char(d: nat) -> char
    recommends
        d < 10,
{
    (('0' as u32 + d) as u32) as char
}

/// The decimal digits of `n`, without leading zeros.
pub open spec fn decimal_of(n: nat) -> Seq<char>
    decreases n,
{
    if n < 10 {
        seq![digit_char(n)]
    } else {
        decimal_of(n / 10).push(digit_char(n % 10))
    }
}

/// `k` zeros.
pub open spec fn zeros(k: int) -> Seq<char> {
    Seq::new(
        if k > 0 {
            k as nat
        } else {
            0
        },
        |i: int| '0',
    )
}

/// The decimal digits of `n`, with zeros in front up to `width` digits.
pub open spec fn padded(n: nat, width: int) -> Seq<char> {
    zeros(width - decimal_of(n).len()) + decimal_of(n)
}

/// The lowercase form of a text, as `str::to_lowercase` computes it from the
/// Unicode case tables.
pub uninterp spec fn lowercase_of(s: Seq<char>) -> Seq<char>;

/// The strings of `parts` with `sep` between each two neighbours.
pub open spec fn join_of(parts: Seq<Seq<char>>, sep: Seq<char>) -> Seq<char>
    decreases parts.len(),
{
    if parts.len() == 0 {
        Seq::empty()
    } else if parts.len() == 1 {
        parts[0]
    } else {
        join_of(parts.drop_last(), sep) + sep + parts.last()
    }
}

// ---------------------------------------------------------------------------
// Bindings to the standard library
// ---------------------------------------------------------------------------

/// `str::eq`: two texts are equal when they hold the same characters.
#[verifier::external_body]
pub(crate) fn str_eq(a: &str, b: &str) -> (r: bool)
    ensures
        r == (a@ == b@),
{
    a == b
}

/// `str::starts_with` with a string pattern: the pattern is a prefix of the text.
#[verifier::external_body]
pub(crate) fn starts_with(s: &str, prefix: &str) -> (r: bool)
    ensures
        r == prefix@.is_prefix_of(s@),
{
    s.starts_with(prefix)
}

/// `str::ends_with` with a string pattern: the pattern is a suffix of the text.
#[verifier::external_body]
pub(crate) fn ends_with(s: &str, suffix: &str) -> (r: bool)
    ensures
        r == suffix@.is_suffix_of(s@),
{
    s.ends_with(suffix)
}

/// `str::strip_prefix` with a string pattern: the rest of the text behind the
/// prefix, or `None` when the text does not start with it.
#[verifier::external_body]
pub(crate) fn strip_prefix<'a>(s: &'a str, prefix: &str) -> (r: Option<&'a str>)
    ensures
        r is Some == prefix@.is_prefix_of(s@),
        r matches Some(rest) ==> rest@ == s@.subrange(prefix@.len() as int, s@.len() as int),
{
    s.strip_prefix(prefix)
}

/// `str::contains` with a string pattern: the pattern occurs somewhere in the text.
#[verifier::external_body]
pub(crate) fn contains(s: &str, pat: &str) -> (r: bool)
    ensures
        r == seq_contains(s@, pat@),
{
    s.contains(pat)
}

/// `str::trim`: the text without leading and trailing whitespace.
#[verifier::external_body]
pub(crate) fn trim(s: &str) -> (r: &str)
    ensures
        r@ == trim_of(s@),
{
    s.trim()
}

/// `str::trim_start`: the text without leading whitespace.
#[verifier::external_body]
pub(crate) fn trim_start(s: &str) -> (r: &str)
    ensures
        r@ == trim_start_of(s@),
{
    s.trim_start()
}

/// `str::trim_end`: the text without trailing whitespace.
#[verifier::external_body]
pub(crate) fn trim_end(s: &str) -> (r: &str)
    ensures
        r@ == trim_end_of(s@),
{
    s.trim_end()
}

/// `str::to_lowercase`: the lowercase form of the text.
#[verifier::external_body]
pub(crate) fn to_lowercase(s: &str) -> (r: String)
    ensures
        r@ == lowercase_of(s@),
{
    s.to_lowercase()
}

/// `str::replace` with a non-empty string pattern: every match, found from the
/// left without overlap, is replaced.
#[verifier::external_body]
pub(crate) fn replace(s: &str, from: &str, to: &str) -> (r: String)
    requires
        from@.len() > 0,
    ensures
        r@ == replace_of(s@, from@, to@),
{
    s.replace(from, to)
}

/// `str::split` with a non-empty string pattern, collected.
#[verifier::external_body]
pub(crate) fn split(s: &str, pat: &str) -> (r: Vec<String>)
    requires
        pat@.len() > 0,
    ensures
        views(r@) == split_of(s@, pat@),
{
    s.split(pat).map(|p| p.to_string()).collect()
}

/// `str::splitn` with limit 2 and a non-empty string pattern, collected: the
/// text before the first match and the text behind it, or the whole text
/// where nothing matches.
#[verifier::external_body]
pub(crate) fn split_first(s: &str, pat: &str) -> (r: Vec<String>)
    requires
        pat@.len() > 0,
    ensures
        views(r@) == split_first_of(s@, pat@),
{
    s.splitn(2, pat).map(|p| p.to_string()).collect()
}

/// `str::split_whitespace`, collected.
#[verifier::external_body]
pub(crate) fn tokens(s: &str) -> (r: Vec<String>)
    ensures
        views(r@) == tokens_of(s@),
{
    s.split_whitespace().map(|t| t.to_string()).collect()
}

/// `str::lines`, collected.
#[verifier::external_body]
pub(crate) fn lines(s: &str) -> (r: Vec<String>)
    ensures
        views(r@) == lines_of(s@),
{
    s.lines().map(|l| l.to_string()).collect()
}

/// `str::split_whitespace`, its first item.
#[verifier::external_body]
pub(crate) fn first_token(s: &str) -> (r: Option<String>)
    ensures
        r is Some == first_token_of(s@) is Some,
        r matches Some(t) ==> t@ == first_token_of(s@).unwrap(),
{
    s.split_whitespace().next().map(|t| t.to_string())
}

/// `str::parse::<u64>`: the number that the text writes, if it writes one.
#[verifier::external_body]
pub(crate) fn parse_u64(s: &str) -> (r: Option<u64>)
    ensures
        r == parse_u64_of(s@),
{
    s.parse::<u64>().ok()
}

/// `u64::to_string`: the decimal digits of the number.
#[verifier::external_body]
pub(crate) fn u64_to_string(n: u64) -> (r: String)
    ensures
        r@ == decimal_of(n as nat),
{
    n.to_string()
}

/// `str::chars`, collected into a vector: the characters of the text.
#[verifier::external_body]
pub(crate) fn chars_of(s: &str) -> (r: Vec<char>)
    ensures
        r@ == s@,
{
    s.chars().collect()
}

/// `String::from_iter` over the characters of a vector: the text that holds
/// them.
#[verifier::external_body]
pub(crate) fn string_of(v: &Vec<char>) -> (r: String)
    ensures
        r@ == v@,
{
    v.iter().collect()
}

// ---------------------------------------------------------------------------
// Verified helpers
// ---------------------------------------------------------------------------

/// An owned copy of a text.
pub fn owned(s: &str) -> (r: String)
    ensures
        r@ == s@,
{
    String::from_str(s)
}

/// The concatenation of two texts.
pub fn concat2(a: &str, b: &str) -> (r: String)
    ensures
        r@ == a@ + b@,
{
    String::from_str(a).concat(b)
}

/// The concatenation of three texts.
pub fn concat3(a: &str, b: &str, c: &str) -> (r: String)
    ensures
        r@ == a@ + b@ + c@,
{
    String::from_str(a).concat(b).concat(c)
}

/// A copy of a list of texts.
pub fn clone_strings(v: &Vec<String>) -> (r: Vec<String>)
    ensures
        views(r@) == views(v@),
{
    let mut out: Vec<String> = Vec::new();
    let mut i: usize = 0;
    while i < v.len()
        invariant
            0 <= i <= v.len(),
            out@.len() == i,
            forall|k: int| 0 <= k < i ==> out@[k]@ == v@[k]@,
        decreases v.len() - i,
    {
        out.push(v[i].clone());
        i = i + 1;
    }
    proof {
        assert(views(out@) =~= views(v@));
    }
    out
}

/// A copy of an optional text.
pub fn clone_opt_string(o: &Option<String>) -> (r: Option<String>)
    ensures
        opt_view(r) == opt_view(*o),
{
    match o {
        Some(s) => Some(s.clone()),
        None => None,
    }
}

/// Joins `parts` with `sep` between neighbours.
pub fn join(parts: &Vec<String>, sep: &str) -> (r: String)
    ensures
        r@ == join_of(views(parts@), sep@),
{
    let mut out = String::new();
    let mut i: usize = 0;
    while i < parts.len()
        invariant
            0 <= i <= parts.len(),
            out@ == join_of(views(parts@).take(i as int), sep@),
        decreases parts.len() - i,
    {
        proof {
            let next = views(parts@).take(i as int + 1);
            assert(next.drop_last() == views(parts@).take(i as int));
            assert(next.last() == parts@[i as int]@);
            if i == 0 {
                assert(out@ + parts@[0]@ == parts@[0]@);
            }
        }
        if i > 0 {
            out = out.concat(sep);
        }
        out = out.concat(parts[i].as_str());
        i = i + 1;
    }
    proof {
        assert(views(parts@).take(parts.len() as int) == views(parts@));
    }
    out
}

/// `s` without its leading characters that are members of `set`.
pub open spec fn strip_leading_of(s: Seq<char>, set: Seq<char>) -> Seq<char>
    decreases s.len(),
{
    if s.len() > 0 && set.contains(s[0]) {
        strip_leading_of(s.drop_first(), set)
    } else {
        s
    }
}

/// What is left after stripping is the end of the text.
pub proof fn lemma_strip_leading_is_a_suffix(s: Seq<char>, set: Seq<char>)
    ensures
        strip_leading_of(s, set).len() <= s.len(),
        strip_leading_of(s, set) == s.subrange(
            s.len() - strip_leading_of(s, set).len(),
            s.len() as int,
        ),
    decreases s.len(),
{
    if s.len() > 0 && set.contains(s[0]) {
        let t = s.drop_first();
        lemma_strip_leading_is_a_suffix(t, set);
        let r = strip_leading_of(t, set);
        assert(t.subrange(t.len() - r.len(), t.len() as int) =~= s.subrange(
            s.len() - r.len(),
            s.len() as int,
        ));
    } else {
        assert(s.subrange(0, s.len() as int) =~= s);
    }
}

fn char_in(set: &Vec<char>, c: char) -> (r: bool)
    ensures
        r == set@.contains(c),
{
    let mut i: usize = 0;
    while i < set.len()
        invariant
            0 <= i <= set.len(),
            forall|k: int| 0 <= k < i ==> set@[k] != c,
        decreases set.len() - i,
    {
        if set[i] == c {
            return true;
        }
        i = i + 1;
    }
    false
}

/// The text without its leading characters that occur in `set`.
pub fn strip_leading(s: &str, set: &str) -> (r: String)
    ensures
        r@ == strip_leading_of(s@, set@),
        r@.len() <= s@.len(),
{
    let chars = chars_of(s);
    let members = chars_of(set);
    let mut i: usize = 0;
    proof {
        assert(chars@.subrange(0, chars@.len() as int) =~= chars@);
    }
    while i < chars.len() && char_in(&members, chars[i])
        invariant
            0 <= i <= chars.len(),
            members@ == set@,
            chars@ == s@,
            strip_leading_of(s@, set@) == strip_leading_of(
                chars@.subrange(i as int, chars@.len() as int),
                set@,
            ),
        decreases chars.len() - i,
    {
        proof {
            let rest = chars@.subrange(i as int, chars@.len() as int);
            assert(rest[0] == chars@[i as int]);
            assert(rest.drop_first() =~= chars@.subrange(i as int + 1, chars@.len() as int));
        }
        i = i + 1;
    }
    let mut out: Vec<char> = Vec::new();
    let mut k: usize = i;
    while k < chars.len()
        invariant
            i <= k <= chars.len(),
            out@ == chars@.subrange(i as int, k as int),
        decreases chars.len() - k,
    {
        out.push(chars[k]);
        proof {
            assert(out@ =~= chars@.subrange(i as int, k as int + 1));
        }
        k = k + 1;
    }
    proof {
        let rest = chars@.subrange(i as int, chars@.len() as int);
        if rest.len() > 0 {
            assert(rest[0] == chars@[i as int]);
        }
    }
    string_of(&out)
}

/// A split always gives at least one piece.
pub proof fn lemma_split_is_not_empty(s: Seq<char>, pat: Seq<char>)
    ensures
        split_of(s, pat).len() >= 1,
{
}

} // verus!
