//! Facts about the text models: digits, searching and splitting.

use vstd::prelude::*;
use crate::text::{
    all_digits, decimal_of, decimal_value, digit_char, find_from, first_token_of, is_digit,
    is_whitespace, lines_of, occurs_at, parse_u64_of, replace_of, seq_contains, split_of,
    strip_cr,
    token_len, trim_end_of, trim_of, trim_start_of, zeros,
};

verus! {

/// The character of a digit is a digit and stands for it.
pub proof fn lemma_digit_char(d: nat)
    requires
        d < 10,
    ensures
        is_digit(digit_char(d)),
        digit_char(d) as u32 - '0' as u32 == d,
{
    assert('0' as u32 == 48);
    assert(digit_char(d) as u32 == 48 + d) by {
        let x = (48 + d) as u32;
        assert(x < 0xD800);
        assert((x as char) as u32 == x);
    }
}

/// The decimal digits of a number are digits, at least one, and write the
/// number.
#[verifier::rlimit(50)]
pub proof fn lemma_decimal_of(n: nat)
    ensures
        decimal_of(n).len() >= 1,
        all_digits(decimal_of(n)),
        decimal_value(decimal_of(n)) == n,
    decreases n,
{
    if n < 10 {
        lemma_digit_char(n);
        let s = decimal_of(n);
        assert(s.len() == 1);
        assert(s.drop_last() =~= Seq::<char>::empty());
        assert(decimal_value(s.drop_last()) == 0);
    } else {
        lemma_decimal_of(n / 10);
        lemma_digit_char(n % 10);
        let head = decimal_of(n / 10);
        let s = head.push(digit_char(n % 10));
        assert(s.drop_last() =~= head);
        assert(s.last() == digit_char(n % 10));
        assert forall|i: int| 0 <= i < s.len() implies is_digit(#[trigger] s[i]) by {
            if i < head.len() {
                assert(s[i] == head[i]);
            }
        }
    }
}

/// A number below ten to the `k` has at most `k` digits.
pub proof fn lemma_decimal_length(n: nat)
    ensures
        n < 10 ==> decimal_of(n).len() == 1,
        10 <= n < 100 ==> decimal_of(n).len() == 2,
        100 <= n < 1000 ==> decimal_of(n).len() == 3,
{
    if n >= 10 {
        assert(decimal_of(n).len() == decimal_of(n / 10).len() + 1);
        if n >= 100 {
            assert(decimal_of(n / 10).len() == decimal_of(n / 10 / 10).len() + 1);
        }
    }
}

/// Zeros in front of digits change neither that they are digits nor what
/// they write.
#[verifier::rlimit(50)]
pub proof fn lemma_leading_zeros(k: int, d: Seq<char>)
    requires
        all_digits(d),
    ensures
        all_digits(zeros(k) + d),
        decimal_value(zeros(k) + d) == decimal_value(d),
    decreases d.len(), (if k > 0 { k } else { 0 }),
{
    let z = zeros(k);
    let s = z + d;
    assert forall|i: int| 0 <= i < s.len() implies is_digit(#[trigger] s[i]) by {
        if i < z.len() {
            assert(s[i] == '0');
        } else {
            assert(s[i] == d[i - z.len()]);
        }
    }
    if d.len() > 0 {
        lemma_leading_zeros(k, d.drop_last());
        assert(s.drop_last() =~= z + d.drop_last());
        assert(s.last() == d.last());
    } else {
        assert(s =~= z);
        if k > 0 {
            lemma_leading_zeros(k - 1, d);
            assert(z.drop_last() =~= zeros(k - 1));
            assert(zeros(k - 1) + d =~= zeros(k - 1));
            assert(z.last() == '0');
        } else {
            assert(z =~= Seq::<char>::empty());
        }
    }
}

/// Digits that write a number within 64 bits parse as that number.
pub proof fn lemma_digits_parse(s: Seq<char>)
    requires
        s.len() > 0,
        all_digits(s),
        decimal_value(s) <= u64::MAX,
    ensures
        parse_u64_of(s) == Some(decimal_value(s) as u64),
{
    assert(is_digit(s[0]));
}

/// The least index of a pattern behind a prefix in which it does not start.
pub proof fn lemma_find_behind_prefix(s: Seq<char>, pat: Seq<char>, at: int, from: int)
    requires
        0 <= from <= at,
        occurs_at(s, pat, at),
        forall|i: int| from <= i < at ==> !occurs_at(s, pat, i),
    ensures
        find_from(s, pat, from) == at,
    decreases at - from,
{
    if from < at {
        lemma_find_behind_prefix(s, pat, at, from + 1);
    }
}

/// A pattern that starts nowhere is not found.
pub proof fn lemma_find_nothing(s: Seq<char>, pat: Seq<char>, from: int)
    requires
        forall|i: int| from <= i ==> !occurs_at(s, pat, i),
    ensures
        find_from(s, pat, from) == -1,
    decreases s.len() - from,
{
    if from < 0 || from + pat.len() > s.len() {
    } else if from >= s.len() {
    } else {
        lemma_find_nothing(s, pat, from + 1);
    }
}

/// True when `c` occurs nowhere in `s`.
pub open spec fn free_of(s: Seq<char>, c: char) -> bool {
    forall|i: int| 0 <= i < s.len() ==> s[i] != c
}

/// A pattern does not start where its first character does not stand.
pub proof fn lemma_no_match_without_first_char(s: Seq<char>, pat: Seq<char>, i: int)
    requires
        pat.len() > 0,
        0 <= i < s.len() ==> s[i] != pat[0],
    ensures
        !occurs_at(s, pat, i),
{
    if occurs_at(s, pat, i) {
        assert(s.subrange(i, i + pat.len())[0] == pat[0]);
    }
}

/// A text without the first character of a pattern does not hold the
/// pattern, and splitting it gives the text alone.
pub proof fn lemma_split_without_pattern(s: Seq<char>, pat: Seq<char>)
    requires
        pat.len() > 0,
        free_of(s, pat[0]),
    ensures
        !seq_contains(s, pat),
        find_from(s, pat, 0) == -1,
        split_of(s, pat) == seq![s],
{
    assert forall|i: int| !occurs_at(s, pat, i) by {
        lemma_no_match_without_first_char(s, pat, i);
    }
    lemma_find_nothing(s, pat, 0);
}

/// Splitting a text at a pattern that first occurs behind a prefix gives
/// the prefix and then the pieces of the rest.
#[verifier::rlimit(50)]
pub proof fn lemma_split_at_first(p: Seq<char>, pat: Seq<char>, rest: Seq<char>)
    requires
        pat.len() > 0,
        free_of(p, pat[0]),
    ensures
        find_from(p + pat + rest, pat, 0) == p.len(),
        split_of(p + pat + rest, pat) == seq![p] + split_of(rest, pat),
{
    let s = p + pat + rest;
    assert(s.subrange(p.len() as int, (p.len() + pat.len()) as int) =~= pat);
    assert forall|i: int| 0 <= i < p.len() implies !occurs_at(s, pat, i) by {
        assert(s[i] == p[i]);
        lemma_no_match_without_first_char(s, pat, i);
    }
    lemma_find_behind_prefix(s, pat, p.len() as int, 0);
    assert(s.subrange(0, p.len() as int) =~= p);
    assert(s.subrange((p.len() + pat.len()) as int, s.len() as int) =~= rest);
}

/// A text without whitespace is its own, single token.
pub proof fn lemma_token_len_without_whitespace(s: Seq<char>)
    requires
        forall|i: int| 0 <= i < s.len() ==> !is_whitespace(#[trigger] s[i]),
    ensures
        token_len(s) == s.len(),
    decreases s.len(),
{
    if s.len() > 0 {
        assert(!is_whitespace(s[0]));
        let t = s.drop_first();
        assert forall|i: int| 0 <= i < t.len() implies !is_whitespace(#[trigger] t[i]) by {
            assert(t[i] == s[i + 1]);
        }
        lemma_token_len_without_whitespace(t);
    }
}

/// The first token of a non-empty text without whitespace is the text.
pub proof fn lemma_first_token_is_all(s: Seq<char>)
    requires
        s.len() > 0,
        forall|i: int| 0 <= i < s.len() ==> !is_whitespace(#[trigger] s[i]),
    ensures
        first_token_of(s) == Some(s),
        trim_of(s) == s,
{
    assert(!is_whitespace(s[0]));
    assert(!is_whitespace(s[s.len() - 1]));
    lemma_token_len_without_whitespace(s);
    assert(s.subrange(0, s.len() as int) =~= s);
}

/// Blanks in front of a text without whitespace do not change its first
/// token, and trimming removes blanks at both ends.
pub proof fn lemma_blanks_around(before: Seq<char>, s: Seq<char>, after: Seq<char>)
    requires
        s.len() > 0,
        forall|i: int| 0 <= i < s.len() ==> !is_whitespace(#[trigger] s[i]),
        forall|i: int| 0 <= i < before.len() ==> is_whitespace(#[trigger] before[i]),
        forall|i: int| 0 <= i < after.len() ==> is_whitespace(#[trigger] after[i]),
    ensures
        trim_start_of(before + s) == s,
        first_token_of(before + s) == Some(s),
        trim_end_of(s + after) == s,
        trim_of(before + s + after) == s,
    decreases before.len() + after.len(),
{
    lemma_first_token_is_all(s);
    lemma_trim_start_blanks(before, s + after);
    lemma_trim_start_blanks(before, s);
    lemma_trim_end_blanks(s, after);
    assert(before + s + after =~= before + (s + after));
}

/// Trimming at the start removes leading whitespace in front of a text that
/// does not start with whitespace.
pub proof fn lemma_trim_start_blanks(before: Seq<char>, t: Seq<char>)
    requires
        t.len() > 0,
        !is_whitespace(t[0]),
        forall|i: int| 0 <= i < before.len() ==> is_whitespace(#[trigger] before[i]),
    ensures
        trim_start_of(before + t) == t,
    decreases before.len(),
{
    if before.len() > 0 {
        let b = before.drop_first();
        assert(is_whitespace(before[0]));
        assert((before + t)[0] == before[0]);
        assert((before + t).drop_first() =~= b + t);
        assert forall|i: int| 0 <= i < b.len() implies is_whitespace(#[trigger] b[i]) by {
            assert(b[i] == before[i + 1]);
        }
        lemma_trim_start_blanks(b, t);
    } else {
        assert(before + t =~= t);
    }
}

/// Trimming at the end removes trailing whitespace behind a text that does
/// not end in whitespace.
pub proof fn lemma_trim_end_blanks(t: Seq<char>, after: Seq<char>)
    requires
        t.len() > 0,
        !is_whitespace(t.last()),
        forall|i: int| 0 <= i < after.len() ==> is_whitespace(#[trigger] after[i]),
    ensures
        trim_end_of(t + after) == t,
    decreases after.len(),
{
    if after.len() > 0 {
        let a = after.drop_last();
        assert(is_whitespace(after[after.len() - 1]));
        assert((t + after).last() == after.last());
        assert((t + after).drop_last() =~= t + a);
        assert forall|i: int| 0 <= i < a.len() implies is_whitespace(#[trigger] a[i]) by {
            assert(a[i] == after[i]);
        }
        lemma_trim_end_blanks(t, a);
    } else {
        assert(t + after =~= t);
    }
}

/// Where a pattern occurs at or behind `from`, `find_from` gives its first
/// such occurrence.
pub proof fn lemma_find_least(s: Seq<char>, pat: Seq<char>, from: int, at: int)
    requires
        0 <= from <= at,
        occurs_at(s, pat, at),
    ensures
        from <= find_from(s, pat, from) <= at,
        occurs_at(s, pat, find_from(s, pat, from)),
        forall|i: int| from <= i < find_from(s, pat, from) ==> !occurs_at(s, pat, i),
    decreases at - from,
{
    if occurs_at(s, pat, from) {
    } else {
        lemma_find_least(s, pat, from + 1, at);
    }
}

/// A text that neither starts nor ends with whitespace is its own trimmed
/// form.
pub proof fn lemma_trim_keeps(s: Seq<char>)
    requires
        s.len() > 0,
        !is_whitespace(s[0]),
        !is_whitespace(s.last()),
    ensures
        trim_of(s) == s,
        trim_start_of(s) == s,
{
}

/// The lines of a line, a line feed and a rest: the line, then the lines of
/// the rest.
pub proof fn lemma_lines_of_line(line: Seq<char>, rest: Seq<char>)
    requires
        free_of(line, '\n'),
    ensures
        lines_of(line + seq!['\n'] + rest) == seq![strip_cr(line)] + lines_of(rest),
{
    let nl = seq!['\n'];
    let s = line + nl + rest;
    lemma_split_at_first(line, nl, rest);
    assert(s.subrange(0, line.len() as int) =~= line);
    assert(s.subrange((line.len() + 1) as int, s.len() as int) =~= rest);
}

/// The lines of two texts, the first of which is empty or ends with a line
/// feed, are the lines of the first and then the lines of the second.
#[verifier::rlimit(50)]
pub proof fn lemma_lines_of_append(a: Seq<char>, b: Seq<char>)
    requires
        a.len() == 0 || a.last() == '\n',
    ensures
        lines_of(a + b) == lines_of(a) + lines_of(b),
    decreases a.len(),
{
    let nl = seq!['\n'];
    if a.len() == 0 {
        assert(a + b =~= b);
        assert(lines_of(a) + lines_of(b) =~= lines_of(b));
    } else {
        let s = a + b;
        assert(a.subrange(a.len() - 1, a.len() as int) =~= nl);
        lemma_find_least(a, nl, 0, a.len() - 1);
        let i = find_from(a, nl, 0);
        assert(s.subrange(i, i + 1) =~= a.subrange(i, i + 1));
        assert forall|k: int| 0 <= k < i implies !occurs_at(s, nl, k) by {
            if occurs_at(s, nl, k) {
                assert(s.subrange(k, k + 1) =~= a.subrange(k, k + 1));
                assert(occurs_at(a, nl, k));
            }
        }
        lemma_find_behind_prefix(s, nl, i, 0);
        let rest = a.subrange(i + 1, a.len() as int);
        assert(s.subrange(0, i) =~= a.subrange(0, i));
        assert(s.subrange(i + 1, s.len() as int) =~= rest + b);
        if rest.len() > 0 {
            assert(rest.last() == a.last());
        }
        lemma_lines_of_append(rest, b);
        assert(lines_of(s) == seq![strip_cr(a.subrange(0, i))] + lines_of(rest + b));
        assert(lines_of(a) == seq![strip_cr(a.subrange(0, i))] + lines_of(rest));
        assert(seq![strip_cr(a.subrange(0, i))] + (lines_of(rest) + lines_of(b)) =~= (seq![
            strip_cr(a.subrange(0, i)),
        ] + lines_of(rest)) + lines_of(b));
    }
}

/// The lines of a text, a line feed and a rest, where no piece of the text
/// between line feeds ends in a carriage return: the pieces, then the lines
/// of the rest.
#[verifier::rlimit(50)]
pub proof fn lemma_lines_of_pieces(t: Seq<char>, rest: Seq<char>)
    requires
        forall|j: int|
            0 <= j < split_of(t, seq!['\n']).len() ==> strip_cr(
                #[trigger] split_of(t, seq!['\n'])[j],
            ) == split_of(t, seq!['\n'])[j],
    ensures
        lines_of(t + seq!['\n'] + rest) == split_of(t, seq!['\n']) + lines_of(rest),
    decreases t.len(),
{
    let nl = seq!['\n'];
    let i = find_from(t, nl, 0);
    let pieces = split_of(t, nl);
    lemma_find_is_an_occurrence(t, nl, 0);
    if i < 0 {
        assert forall|k: int| 0 <= k < t.len() implies t[k] != '\n' by {
            if t[k] == '\n' {
                assert(t.subrange(k, k + 1) =~= nl);
                lemma_find_least(t, nl, 0, k);
            }
        }
        assert(pieces[0] == t);
        lemma_lines_of_line(t, rest);
        assert(seq![strip_cr(t)] + lines_of(rest) =~= pieces + lines_of(rest));
    } else {
        lemma_find_least(t, nl, 0, i);
        let head = t.subrange(0, i);
        let tail = t.subrange(i + 1, t.len() as int);
        let others = split_of(tail, nl);
        assert(pieces == seq![head] + others);
        assert forall|k: int| 0 <= k < head.len() implies head[k] != '\n' by {
            if head[k] == '\n' {
                assert(t.subrange(k, k + 1) =~= nl);
                assert(occurs_at(t, nl, k));
            }
        }
        assert forall|j: int| 0 <= j < others.len() implies strip_cr(#[trigger] others[j])
            == others[j] by {
            assert(pieces[j + 1] == others[j]);
        }
        lemma_lines_of_pieces(tail, rest);
        assert(t =~= head + nl + tail);
        assert(t + nl + rest =~= head + nl + (tail + nl + rest));
        lemma_lines_of_line(head, tail + nl + rest);
        assert(pieces[0] == head);
        assert(lines_of(t + nl + rest) =~= pieces + lines_of(rest));
    }
}

/// A text without a line feed is its own single line.
pub proof fn lemma_lines_of_single(l: Seq<char>)
    requires
        l.len() > 0,
        free_of(l, '\n'),
    ensures
        lines_of(l) == seq![l],
{
    lemma_split_without_pattern(l, seq!['\n']);
}

/// The final line feed is optional: a text that ends in neither a line
/// feed nor a carriage return has the same lines with a line feed behind
/// it.
#[verifier::rlimit(50)]
pub proof fn lemma_lines_of_final_line_feed(x: Seq<char>)
    requires
        x.len() > 0,
        x.last() != '\n',
        x.last() != '\r',
    ensures
        lines_of(x + seq!['\n']) == lines_of(x),
    decreases x.len(),
{
    let nl = seq!['\n'];
    let none = Seq::<char>::empty();
    let i = find_from(x, nl, 0);
    lemma_find_is_an_occurrence(x, nl, 0);
    if i < 0 {
        assert forall|k: int| 0 <= k < x.len() implies x[k] != '\n' by {
            if x[k] == '\n' {
                assert(x.subrange(k, k + 1) =~= nl);
                lemma_find_least(x, nl, 0, k);
            }
        }
        lemma_lines_of_single(x);
        assert(x + nl =~= x + nl + none);
        lemma_lines_of_line(x, none);
        assert(lines_of(none) =~= Seq::<Seq<char>>::empty());
        assert(seq![strip_cr(x)] + Seq::<Seq<char>>::empty() =~= seq![x]);
    } else {
        lemma_find_least(x, nl, 0, i);
        let s = x + nl;
        assert(x.subrange(i, i + 1) == nl);
        assert(x[i] == x.subrange(i, i + 1)[0]);
        assert(i < x.len() - 1);
        let rest = x.subrange(i + 1, x.len() as int);
        assert(rest.last() == x.last());
        assert(s.subrange(i, i + 1) =~= x.subrange(i, i + 1));
        assert forall|k: int| 0 <= k < i implies !occurs_at(s, nl, k) by {
            if occurs_at(s, nl, k) {
                assert(s.subrange(k, k + 1) =~= x.subrange(k, k + 1));
                assert(occurs_at(x, nl, k));
            }
        }
        lemma_find_behind_prefix(s, nl, i, 0);
        assert(s.subrange(0, i) =~= x.subrange(0, i));
        assert(s.subrange(i + 1, s.len() as int) =~= rest + nl);
        lemma_lines_of_final_line_feed(rest);
    }
}

/// The lines of a lone line feed: one empty line.
pub proof fn lemma_lines_of_line_feed()
    ensures
        lines_of(seq!['\n']) == seq![Seq::<char>::empty()],
{
    let none = Seq::<char>::empty();
    assert(seq!['\n'] =~= none + seq!['\n'] + none);
    lemma_lines_of_line(none, none);
    assert(lines_of(none) =~= Seq::<Seq<char>>::empty());
    assert(seq![strip_cr(none)] + Seq::<Seq<char>>::empty() =~= seq![none]);
}

/// Where `find_from` gives an index, the pattern occurs there.
pub proof fn lemma_find_is_an_occurrence(s: Seq<char>, pat: Seq<char>, from: int)
    ensures
        find_from(s, pat, from) >= 0 ==> occurs_at(s, pat, find_from(s, pat, from)),
        find_from(s, pat, from) >= -1,
    decreases s.len() - from,
{
    if from < 0 || from + pat.len() > s.len() {
    } else if occurs_at(s, pat, from) {
    } else if from >= s.len() {
    } else {
        lemma_find_is_an_occurrence(s, pat, from + 1);
    }
}

/// Replacing a pattern that does not occur changes nothing.
pub proof fn lemma_replace_without_match(s: Seq<char>, from: Seq<char>, to: Seq<char>)
    requires
        !seq_contains(s, from),
    ensures
        replace_of(s, from, to) == s,
{
    lemma_find_is_an_occurrence(s, from, 0);
    if find_from(s, from, 0) >= 0 {
        assert(occurs_at(s, from, find_from(s, from, 0)));
    }
}

} // verus!
