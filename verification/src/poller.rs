//! Reading the selection prompts that an agent shows on a terminal.

use vstd::prelude::*;
use crate::text::{
    concat2, contains, is_digit, join, join_of, lemma_strip_leading_is_a_suffix, lines, lines_of,
    owned, parse_u64, parse_u64_of, seq_contains, starts_with, strip_leading, strip_leading_of,
    trim, trim_end, trim_end_of, trim_of, views,
};

verus! {

/// How a poller is set up.
#[derive(Debug, Clone, Copy, PartialEq, Eq, Structural)]
pub struct PollerConfig {
    /// The pause between two polls, in milliseconds.
    pub interval_ms: u64,
    /// The least change of the output, in characters, that counts.
    pub min_output_change: usize,
}

impl Default for PollerConfig {
    fn default() -> (r: Self)
        ensures
            r == (PollerConfig { interval_ms: 500, min_output_change: 10 }),
    {
        PollerConfig { interval_ms: 500, min_output_change: 10 }
    }
}

/// The report that the status of an agent changed.
#[derive(Debug)]
pub struct StatusChangedPayload {
    pub agent_id: String,
    pub old_status: String,
    pub new_status: String,
}

/// The report that an agent has output to read.
#[derive(Debug)]
pub struct OutputReadyPayload {
    pub agent_id: String,
    pub content: String,
    pub content_length: usize,
}

/// The report that an agent asks a question.
#[derive(Debug)]
pub struct QuestionPayload {
    pub agent_id: String,
    pub question: String,
    pub question_id: String,
    pub context: String,
}

/// The marks that may stand in front of an option: pointers, bullets and
/// blanks.
pub open spec fn bullets() -> Seq<char> {
    "❯>○●◉ "@
}

/// The ten digits.
pub open spec fn digits() -> Seq<char> {
    "0123456789"@
}

/// An option line without the marks in front of it, trimmed.
pub open spec fn cleaned_option(line: Seq<char>) -> Seq<char> {
    trim_of(strip_leading_of(line, bullets()))
}

/// True for what may follow the number of an option: a full stop, or a
/// colon and a blank.
pub open spec fn ends_number(rest: Seq<char>) -> bool {
    ". "@.is_prefix_of(rest) || ": "@.is_prefix_of(rest) || "."@.is_prefix_of(rest)
}

/// The number read from the digits in front of `s`, where `s` starts with a
/// digit, the digits fit 32 bits, and the rest ends the number.
pub open spec fn leading_number(s: Seq<char>) -> Option<u32> {
    let rest = strip_leading_of(s, digits());
    if s.len() > 0 && is_digit(s[0]) {
        match parse_u64_of(s.subrange(0, s.len() - rest.len())) {
            Some(n) => if n <= u32::MAX && ends_number(rest) {
                Some(n as u32)
            } else {
                None
            },
            None => None,
        }
    } else {
        None
    }
}

/// The number of the option that a line shows, if it shows one.
pub open spec fn option_number_of(line: Seq<char>) -> Option<u32> {
    leading_number(cleaned_option(line))
}

/// An option line without the marks in front of it.
pub fn clean_option_text(line: &str) -> (r: String)
    ensures
        r@ == cleaned_option(line@),
{
    owned(trim(strip_leading(line, "❯>○●◉ ").as_str()))
}

fn read_leading_number(s: &str) -> (r: Option<u32>)
    ensures
        r == leading_number(s@),
{
    let n = s.unicode_len();
    if n == 0 {
        return None;
    }
    let first = s.get_char(0);
    if !(first >= '0' && first <= '9') {
        return None;
    }
    let rest = strip_leading(s, "0123456789");
    proof {
        lemma_strip_leading_is_a_suffix(s@, digits());
    }
    let m = rest.as_str().unicode_len();
    let number = s.substring_char(0, n - m);
    match parse_u64(number) {
        Some(value) => {
            if value <= u32::MAX as u64 && (starts_with(rest.as_str(), ". ") || starts_with(
                rest.as_str(),
                ": ",
            ) || starts_with(rest.as_str(), ".")) {
                Some(value as u32)
            } else {
                None
            }
        },
        None => None,
    }
}

/// The number of the option that a line shows, if it shows one.
pub fn extract_option_number(line: &str) -> (r: Option<u32>)
    ensures
        r == option_number_of(line@),
{
    read_leading_number(clean_option_text(line).as_str())
}

/// True for a line that starts with the number of an option.
pub fn is_option_line(line: &str) -> (r: bool)
    ensures
        r == (line@.len() > 0 && is_digit(line@[0]) && ends_number(
            strip_leading_of(line@, digits()),
        )),
{
    let n = line.unicode_len();
    if n == 0 {
        return false;
    }
    let first = line.get_char(0);
    if !(first >= '0' && first <= '9') {
        return false;
    }
    let rest = strip_leading(line, "0123456789");
    starts_with(rest.as_str(), ". ") || starts_with(rest.as_str(), ": ") || starts_with(
        rest.as_str(),
        ".",
    )
}

/// True for the line of hints that ends a selection prompt.
pub open spec fn is_navigation(line: Seq<char>) -> bool {
    let t = trim_of(line);
    seq_contains(t, "Enter to select"@) || seq_contains(t, "↑/↓ to navigate"@) || seq_contains(
        t,
        "Tab/Arrow keys"@,
    ) || seq_contains(t, "Esc to cancel"@)
}

/// True for an option that the terminal always offers and that is left
/// out.
pub open spec fn is_standing_option(cleaned: Seq<char>) -> bool {
    seq_contains(cleaned, "Type something."@) || seq_contains(cleaned, "Chat about this"@)
        || seq_contains(cleaned, "Ask about"@)
}

/// True for a line that cannot belong to the question: blank lines, input
/// lines, rules and status lines.
pub open spec fn is_outside_question(line: Seq<char>) -> bool {
    let t = trim_of(line);
    t.len() == 0 || "❯"@.is_prefix_of(t) || ">"@.is_prefix_of(t) || seq_contains(t, "Cooked for"@)
        || "───"@.is_prefix_of(t) || seq_contains(t, "? for shortcuts"@)
}

/// One option that was found.
pub struct FoundOption {
    pub number: u32,
    pub text: Seq<char>,
}

/// What the scan of the lines has found so far.
pub struct Scan {
    pub stopped: bool,
    pub options: Seq<FoundOption>,
    pub first: Option<int>,
}

/// The scan after the line at index `i`: the navigation line stops it, an
/// option line that is not a standing option is noted.
pub open spec fn scan_line(st: Scan, i: int, line: Seq<char>) -> Scan {
    if st.stopped {
        st
    } else if is_navigation(line) {
        Scan { stopped: true, ..st }
    } else {
        match option_number_of(trim_of(line)) {
            Some(number) => if is_standing_option(cleaned_option(trim_of(line))) {
                st
            } else {
                Scan {
                    options: st.options.push(
                        FoundOption { number, text: cleaned_option(trim_of(line)) },
                    ),
                    first: match st.first {
                        Some(f) => Some(f),
                        None => Some(i),
                    },
                    ..st
                }
            },
            None => st,
        }
    }
}

/// The scan after the first `n` lines.
pub open spec fn scan_lines(all: Seq<Seq<char>>, n: int) -> Scan
    decreases n,
{
    if n <= 0 {
        Scan { stopped: false, options: Seq::empty(), first: None }
    } else {
        scan_line(scan_lines(all, n - 1), n - 1, all[n - 1])
    }
}

/// The lines of the question: the block of lines that belong to a
/// question and lies nearest above line `j`.
pub open spec fn question_above(all: Seq<Seq<char>>, j: int, found: bool) -> Seq<Seq<char>>
    decreases j,
{
    if j <= 0 {
        Seq::empty()
    } else if is_outside_question(all[j - 1]) {
        if found {
            Seq::empty()
        } else {
            question_above(all, j - 1, false)
        }
    } else {
        question_above(all, j - 1, true).push(all[j - 1])
    }
}

/// The options, one on each line.
pub open spec fn option_lines(options: Seq<FoundOption>, n: int) -> Seq<char>
    decreases n,
{
    if n <= 0 {
        Seq::empty()
    } else {
        option_lines(options, n - 1) + options[n - 1].text + "\n"@
    }
}

/// The line that warns of options that are not shown.
pub open spec fn missing_warning() -> Seq<char> {
    "※ 先頭の選択肢が表示されていません\n"@
}

/// The selection prompt that a screen shows: the question, a rule, and the
/// options, with a warning in front of the options where they do not start
/// at 1. Empty where the screen shows no options.
pub open spec fn selection_of(content: Seq<char>) -> Seq<char> {
    let all = lines_of(content);
    let scan = scan_lines(all, all.len() as int);
    if scan.options.len() == 0 {
        Seq::empty()
    } else {
        let question = join_of(question_above(all, scan.first.unwrap(), false), "\n"@);
        let head = if question.len() > 0 {
            question + "\n---\n"@
        } else {
            Seq::empty()
        };
        let warning = if scan.options[0].number != 1 {
            missing_warning()
        } else {
            Seq::empty()
        };
        trim_end_of(head + warning + option_lines(scan.options, scan.options.len() as int))
    }
}

fn navigation_line(line: &str) -> (r: bool)
    ensures
        r == is_navigation(line@),
{
    let t = trim(line);
    contains(t, "Enter to select") || contains(t, "↑/↓ to navigate") || contains(t, "Tab/Arrow keys")
        || contains(t, "Esc to cancel")
}

fn standing_option(cleaned: &str) -> (r: bool)
    ensures
        r == is_standing_option(cleaned@),
{
    contains(cleaned, "Type something.") || contains(cleaned, "Chat about this") || contains(
        cleaned,
        "Ask about",
    )
}

fn outside_question(line: &str) -> (r: bool)
    ensures
        r == is_outside_question(line@),
{
    let t = trim(line);
    t.is_empty() || starts_with(t, "❯") || starts_with(t, ">") || contains(t, "Cooked for")
        || starts_with(t, "───") || contains(t, "? for shortcuts")
}

/// The selection prompt that a screen shows, as text: the question, a
/// rule, and the options.
#[verifier::rlimit(50)]
pub fn extract_selection_options(content: &str) -> (r: String)
    ensures
        r@ == selection_of(content@),
{
    let all = lines(content);
    let mut numbers: Vec<u32> = Vec::new();
    let mut texts: Vec<String> = Vec::new();
    let mut first: Option<usize> = None;
    let mut stopped = false;
    let mut i: usize = 0;
    proof {
        assert(Seq::new(
            numbers@.len(),
            |k: int| FoundOption { number: numbers@[k], text: texts@[k]@ },
        ) =~= Seq::<FoundOption>::empty());
    }
    while i < all.len()
        invariant
            0 <= i <= all.len(),
            numbers@.len() == texts@.len(),
            scan_lines(views(all@), i as int) == (Scan {
                stopped,
                options: Seq::new(
                    numbers@.len(),
                    |k: int| FoundOption { number: numbers@[k], text: texts@[k]@ },
                ),
                first: match first {
                    Some(f) => Some(f as int),
                    None => None,
                },
            }),
            first matches Some(f) ==> f < i,
            first is None ==> numbers@.len() == 0,
        decreases all.len() - i,
    {
        let ghost before = scan_lines(views(all@), i as int);
        proof {
            assert(views(all@)[i as int] == all@[i as int]@);
        }
        let line = all[i].as_str();
        if !stopped {
            if navigation_line(line) {
                stopped = true;
            } else {
                let trimmed = trim(line);
                match extract_option_number(trimmed) {
                    Some(number) => {
                        let cleaned = clean_option_text(trimmed);
                        if !standing_option(cleaned.as_str()) {
                            if first.is_none() {
                                first = Some(i);
                            }
                            numbers.push(number);
                            texts.push(cleaned);
                        }
                    },
                    None => {},
                }
            }
        }
        proof {
            let now = Seq::new(
                numbers@.len(),
                |k: int| FoundOption { number: numbers@[k], text: texts@[k]@ },
            );
            assert(now =~= scan_line(before, i as int, all@[i as int]@).options);
        }
        i = i + 1;
    }
    if numbers.len() == 0 {
        return String::new();
    }
    let ghost scan = scan_lines(views(all@), all.len() as int);
    let top = match first {
        Some(f) => f,
        None => 0,
    };
    let mut j: usize = top;
    while j > 0 && outside_question(all[j - 1].as_str())
        invariant
            0 <= j <= top < all.len(),
            question_above(views(all@), top as int, false) == question_above(
                views(all@),
                j as int,
                false,
            ),
        decreases j,
    {
        proof {
            assert(views(all@)[j as int - 1] == all@[j as int - 1]@);
        }
        j = j - 1;
    }
    let hi = j;
    let mut block: Vec<String> = Vec::new();
    while j > 0 && !outside_question(all[j - 1].as_str())
        invariant
            0 <= j <= hi <= top < all.len(),
            j == hi ==> (j == 0 || !is_outside_question(views(all@)[j as int - 1])),
            question_above(views(all@), top as int, false) == question_above(
                views(all@),
                j as int,
                j < hi,
            ) + views(all@).subrange(j as int, hi as int),
        decreases j,
    {
        proof {
            assert(views(all@)[j as int - 1] == all@[j as int - 1]@);
            assert(seq![views(all@)[j as int - 1]] + views(all@).subrange(j as int, hi as int)
                =~= views(all@).subrange(j as int - 1, hi as int));
            assert(question_above(views(all@), j as int, j < hi) == question_above(
                views(all@),
                j as int - 1,
                true,
            ).push(views(all@)[j as int - 1]));
            assert(question_above(views(all@), j as int - 1, true).push(views(all@)[j as int - 1])
                + views(all@).subrange(j as int, hi as int) =~= question_above(
                views(all@),
                j as int - 1,
                true,
            ) + views(all@).subrange(j as int - 1, hi as int));
        }
        j = j - 1;
    }
    proof {
        if j > 0 {
            assert(views(all@)[j as int - 1] == all@[j as int - 1]@);
        }
        assert(question_above(views(all@), j as int, j < hi) =~= Seq::<Seq<char>>::empty());
        assert(question_above(views(all@), top as int, false) =~= views(all@).subrange(
            j as int,
            hi as int,
        ));
    }
    let mut k: usize = j;
    while k < hi
        invariant
            j <= k <= hi <= all.len(),
            views(block@) == views(all@).subrange(j as int, k as int),
        decreases hi - k,
    {
        let ghost bv = views(block@);
        block.push(all[k].clone());
        proof {
            assert(views(block@) =~= bv.push(all@[k as int]@));
            assert(views(block@) =~= views(all@).subrange(j as int, k as int + 1));
        }
        k = k + 1;
    }
    let question = join(&block, "\n");
    let mut result = if question.as_str().is_empty() {
        String::new()
    } else {
        concat2(question.as_str(), "\n---\n")
    };
    if numbers[0] != 1 {
        result = result.concat("※ 先頭の選択肢が表示されていません\n");
    }
    let ghost head = result@;
    let ghost options = Seq::new(
        numbers@.len(),
        |k: int| FoundOption { number: numbers@[k], text: texts@[k]@ },
    );
    let mut n: usize = 0;
    proof {
        assert(result@ =~= head + option_lines(options, 0));
    }
    while n < texts.len()
        invariant
            0 <= n <= texts.len(),
            numbers@.len() == texts@.len(),
            options == Seq::new(
                numbers@.len(),
                |k: int| FoundOption { number: numbers@[k], text: texts@[k]@ },
            ),
            result@ == head + option_lines(options, n as int),
        decreases texts.len() - n,
    {
        result = result.concat(texts[n].as_str());
        result = result.concat("\n");
        proof {
            assert(options[n as int].text == texts@[n as int]@);
            assert(result@ =~= head + option_lines(options, n as int + 1));
        }
        n = n + 1;
    }
    proof {
        assert(scan.options =~= options);
        assert(scan.first == Some(top as int));
    }
    owned(trim_end(result.as_str()))
}

} // verus!
