//! The pieces of GDB output that the tools read: the number of a breakpoint
//! that was just set, the location that `info line` reports, the file that
//! `info source` reports, and the line numbers of a `list`ing.
//!
//! Each is the first (leftmost) match of a small pattern, with greedy runs of
//! digits and white space as a regular-expression engine takes them.  Digits
//! are Unicode decimal digits (`\d`), white space is Unicode `White_Space`
//! (`\s`).
use vstd::prelude::*;

use crate::text::{
    blank, chars_of, is_ascii_digit, is_white_space, matches_at, occurs_at, parse_u32_digits,
    parsed_u32, string_of_range, white_space,
};

verus! {

// ---------------------------------------------------------------------------
// Character classes
// ---------------------------------------------------------------------------

/// What `\A\d\z` matching the one-character text `c` gives.
pub uninterp spec fn regex_matches_decimal_digit(c: char) -> bool;

/// Trusted: compiles the pattern `\A\d\z` with `regex::Regex::new` and asks
/// `Regex::is_match` whether it matches the text made of `c` alone.  The
/// contract only names that answer; nothing is claimed about which characters
/// it accepts.
#[verifier::external_body]
fn regex_decimal_digit(c: char) -> (b: bool)
    ensures
        b == regex_matches_decimal_digit(c),
{
    let mut buf = [0u8; 4];
    regex::Regex::new(r"\A\d\z").unwrap().is_match(c.encode_utf8(&mut buf))
}

/// A decimal digit as `\d` takes it (the Unicode category `Nd`): among ASCII
/// characters exactly `0`..`9`; no white space character is one; beyond that,
/// what the regular-expression engine says.
pub open spec fn is_decimal_digit(c: char) -> bool {
    if (c as u32) < 128 {
        is_ascii_digit(c)
    } else if is_white_space(c) {
        false
    } else {
        regex_matches_decimal_digit(c)
    }
}

/// Whether `c` is a decimal digit.
pub fn decimal_digit(c: char) -> (b: bool)
    ensures
        b == is_decimal_digit(c),
{
    if (c as u32) < 128 {
        '0' <= c && c <= '9'
    } else if white_space(c) {
        false
    } else {
        regex_decimal_digit(c)
    }
}

/// The classes of characters that the patterns repeat.
pub enum CharClass {
    /// `\d`
    Digit,
    /// `\s`
    Space,
    /// `[^"]`
    NotQuote,
    /// Anything but a line feed.
    NotNewline,
}

pub open spec fn in_class(c: char, k: CharClass) -> bool {
    match k {
        CharClass::Digit => is_decimal_digit(c),
        CharClass::Space => is_white_space(c),
        CharClass::NotQuote => c != '"',
        CharClass::NotNewline => c != '\n',
    }
}

fn class_contains(c: char, k: &CharClass) -> (b: bool)
    ensures
        b == in_class(c, *k),
{
    match k {
        CharClass::Digit => decimal_digit(c),
        CharClass::Space => white_space(c),
        CharClass::NotQuote => c != '"',
        CharClass::NotNewline => c != '\n',
    }
}

/// Where the longest run of characters of class `k` that starts at `i` ends.
pub open spec fn run_end(s: Seq<char>, i: int, k: CharClass) -> int
    decreases s.len() - i,
{
    if 0 <= i < s.len() && in_class(s[i], k) {
        run_end(s, i + 1, k)
    } else {
        i
    }
}

pub proof fn lemma_run_end(s: Seq<char>, i: int, k: CharClass)
    requires
        0 <= i <= s.len(),
    ensures
        i <= run_end(s, i, k) <= s.len(),
        forall|j: int| i <= j < run_end(s, i, k) ==> in_class(#[trigger] s[j], k),
        run_end(s, i, k) < s.len() ==> !in_class(s[run_end(s, i, k)], k),
    decreases s.len() - i,
{
    if i < s.len() && in_class(s[i], k) {
        lemma_run_end(s, i + 1, k);
    }
}

/// Where the longest run of class `k` that starts at `i` ends.
fn class_run(s: &Vec<char>, i: usize, k: &CharClass) -> (e: usize)
    requires
        i <= s@.len(),
    ensures
        e == run_end(s@, i as int, *k),
        i <= e <= s@.len(),
{
    proof {
        lemma_run_end(s@, i as int, *k);
    }
    let mut j = i;
    while j < s.len() && class_contains(s[j], k)
        invariant
            i <= j <= s@.len(),
            run_end(s@, i as int, *k) == run_end(s@, j as int, *k),
        decreases s@.len() - j,
    {
        j = j + 1;
    }
    j
}

/// `v[from..to]` as a vector of its own.
fn copy_range(v: &Vec<char>, from: usize, to: usize) -> (r: Vec<char>)
    requires
        from <= to <= v@.len(),
    ensures
        r@ == v@.subrange(from as int, to as int),
{
    let mut r: Vec<char> = Vec::new();
    let mut i = from;
    while i < to
        invariant
            from <= i <= to <= v@.len(),
            r@ == v@.subrange(from as int, i as int),
        decreases to - i,
    {
        r.push(v[i]);
        assert(v@.subrange(from as int, i + 1) == v@.subrange(from as int, i as int).push(
            v@[i as int],
        ));
        i = i + 1;
    }
    r
}

// ---------------------------------------------------------------------------
// `Breakpoint (\d+)`: the number of the breakpoint that `break` set
// ---------------------------------------------------------------------------

pub open spec fn breakpoint_word() -> Seq<char> {
    "Breakpoint "@
}

/// The digits after `Breakpoint ` at `i`, when the pattern matches there.
pub open spec fn breakpoint_at(s: Seq<char>, i: int) -> Option<Seq<char>> {
    let k = i + breakpoint_word().len();
    if occurs_at(s, i, breakpoint_word()) && run_end(s, k, CharClass::Digit) > k {
        Some(s.subrange(k, run_end(s, k, CharClass::Digit)))
    } else {
        None
    }
}

/// The first match at or after `i`.
pub open spec fn breakpoint_from(s: Seq<char>, i: int) -> Option<Seq<char>>
    decreases s.len() - i,
{
    if i < 0 || i >= s.len() {
        None
    } else {
        match breakpoint_at(s, i) {
            Some(d) => Some(d),
            None => breakpoint_from(s, i + 1),
        }
    }
}

/// The breakpoint number in the output of `break`: the digits of the first
/// `Breakpoint N`.
pub open spec fn breakpoint_number_of(s: Seq<char>) -> Option<Seq<char>> {
    breakpoint_from(s, 0)
}

/// The breakpoint number in the output of `break`, as it is written there.
pub fn find_breakpoint_number(output: &str) -> (r: Option<String>)
    ensures
        match r {
            Some(n) => breakpoint_number_of(output@) == Some(n@),
            None => breakpoint_number_of(output@) is None,
        },
{
    let s = chars_of(output);
    let word = chars_of("Breakpoint ");
    let digit = CharClass::Digit;
    let mut i: usize = 0;
    while i < s.len()
        invariant
            i <= s@.len(),
            s@ == output@,
            word@ == breakpoint_word(),
            digit == CharClass::Digit,
            breakpoint_number_of(s@) == breakpoint_from(s@, i as int),
        decreases s@.len() - i,
    {
        if matches_at(&s, i, &word) {
            let k = i + word.len();
            let e = class_run(&s, k, &digit);
            if e > k {
                let n = string_of_range(&s, k, e);
                return Some(n);
            }
        }
        i = i + 1;
    }
    None
}

// ---------------------------------------------------------------------------
// `Line (\d+) of "([^"]+)"`: what `info line` reports
// ---------------------------------------------------------------------------

pub open spec fn line_word() -> Seq<char> {
    "Line "@
}

pub open spec fn of_word() -> Seq<char> {
    " of \""@
}

/// The line digits and the file name when the pattern matches at `i`.
pub open spec fn info_line_at(s: Seq<char>, i: int) -> Option<(Seq<char>, Seq<char>)> {
    let k = i + line_word().len();
    let j = run_end(s, k, CharClass::Digit);
    let f = j + of_word().len();
    let m = run_end(s, f, CharClass::NotQuote);
    if occurs_at(s, i, line_word()) && j > k && occurs_at(s, j, of_word()) && m > f && m
        < s.len() {
        Some((s.subrange(k, j), s.subrange(f, m)))
    } else {
        None
    }
}

pub open spec fn info_line_from(s: Seq<char>, i: int) -> Option<(Seq<char>, Seq<char>)>
    decreases s.len() - i,
{
    if i < 0 || i >= s.len() {
        None
    } else {
        match info_line_at(s, i) {
            Some(c) => Some(c),
            None => info_line_from(s, i + 1),
        }
    }
}

/// The line digits and the quoted file name of the first
/// `Line N of "FILE"` in the output of `info line`.
pub open spec fn info_line_location_of(s: Seq<char>) -> Option<(Seq<char>, Seq<char>)> {
    info_line_from(s, 0)
}

/// The line digits and the file name that `info line` reports.
pub fn find_info_line_location(output: &str) -> (r: Option<(String, String)>)
    ensures
        match r {
            Some((n, f)) => info_line_location_of(output@) == Some((n@, f@)),
            None => info_line_location_of(output@) is None,
        },
{
    let s = chars_of(output);
    let line_w = chars_of("Line ");
    let of_w = chars_of(" of \"");
    let digit = CharClass::Digit;
    let not_quote = CharClass::NotQuote;
    let mut i: usize = 0;
    while i < s.len()
        invariant
            i <= s@.len(),
            s@ == output@,
            line_w@ == line_word(),
            of_w@ == of_word(),
            digit == CharClass::Digit,
            not_quote == CharClass::NotQuote,
            info_line_location_of(s@) == info_line_from(s@, i as int),
        decreases s@.len() - i,
    {
        if matches_at(&s, i, &line_w) {
            let k = i + line_w.len();
            let j = class_run(&s, k, &digit);
            if j > k && matches_at(&s, j, &of_w) {
                let f = j + of_w.len();
                let m = class_run(&s, f, &not_quote);
                if m > f && m < s.len() {
                    let n = string_of_range(&s, k, j);
                    let file = string_of_range(&s, f, m);
                    return Some((n, file));
                }
            }
        }
        i = i + 1;
    }
    None
}

// ---------------------------------------------------------------------------
// `Current source file is (.+?)(?: |$)`: what `info source` reports
// ---------------------------------------------------------------------------

pub open spec fn source_word() -> Seq<char> {
    "Current source file is "@
}

/// Where the shortest run of at least one character, none of them a line
/// feed, that ends at `m` or later is followed by a space or by the end of
/// the text.
pub open spec fn lazy_stop(s: Seq<char>, m: int) -> Option<int>
    decreases s.len() - m,
{
    if m < 1 || m > s.len() {
        None
    } else if s[m - 1] == '\n' {
        None
    } else if m == s.len() || s[m] == ' ' {
        Some(m)
    } else {
        lazy_stop(s, m + 1)
    }
}

pub open spec fn info_source_at(s: Seq<char>, i: int) -> Option<Seq<char>> {
    let k = i + source_word().len();
    if occurs_at(s, i, source_word()) {
        match lazy_stop(s, k + 1) {
            Some(m) => Some(s.subrange(k, m)),
            None => None,
        }
    } else {
        None
    }
}

pub open spec fn info_source_from(s: Seq<char>, i: int) -> Option<Seq<char>>
    decreases s.len() - i,
{
    if i < 0 || i >= s.len() {
        None
    } else {
        match info_source_at(s, i) {
            Some(c) => Some(c),
            None => info_source_from(s, i + 1),
        }
    }
}

/// The file name of the first `Current source file is NAME` in the output
/// of `info source`: the shortest non-empty text on that line that is followed
/// by a space or ends the output.
pub open spec fn info_source_file_of(s: Seq<char>) -> Option<Seq<char>> {
    info_source_from(s, 0)
}

/// The file name that `info source` reports.
pub fn find_info_source_file(output: &str) -> (r: Option<String>)
    ensures
        match r {
            Some(f) => info_source_file_of(output@) == Some(f@),
            None => info_source_file_of(output@) is None,
        },
{
    let s = chars_of(output);
    let word = chars_of("Current source file is ");
    let mut i: usize = 0;
    while i < s.len()
        invariant
            i <= s@.len(),
            s@ == output@,
            word@ == source_word(),
            info_source_file_of(s@) == info_source_from(s@, i as int),
        decreases s@.len() - i,
    {
        if matches_at(&s, i, &word) {
            let k = i + word.len();
            if k < s.len() {
                // Look for the end of the shortest run.
                let mut m = k + 1;
                let mut found = false;
                loop
                    invariant_except_break
                        !found,
                    invariant
                        k + 1 <= m <= s@.len(),
                        k == i + source_word().len(),
                        lazy_stop(s@, k + 1) == lazy_stop(s@, m as int),
                    ensures
                        k + 1 <= m <= s@.len(),
                        found ==> lazy_stop(s@, k + 1) == Some(m as int),
                        !found ==> lazy_stop(s@, k + 1) is None,
                    decreases s@.len() - m,
                {
                    if s[m - 1] == '\n' {
                        break;
                    }
                    if m == s.len() || s[m] == ' ' {
                        found = true;
                        break;
                    }
                    m = m + 1;
                }
                if found {
                    let f = string_of_range(&s, k, m);
                    return Some(f);
                }
            }
        }
        i = i + 1;
    }
    None
}

// ---------------------------------------------------------------------------
// `^\s*(\d+)\s+` on each line: the line numbers of a listing
// ---------------------------------------------------------------------------

/// The end of the line that starts at `i`: the next line feed, or the end.
pub open spec fn line_end(s: Seq<char>, i: int) -> int {
    run_end(s, i, CharClass::NotNewline)
}

/// The line that starts at `i`, without its line feed and without a carriage
/// return just before it.
pub open spec fn line_at(s: Seq<char>, i: int) -> Seq<char> {
    let e = line_end(s, i);
    if e < s.len() && e > i && s[e - 1] == '\r' {
        s.subrange(i, e - 1)
    } else {
        s.subrange(i, e)
    }
}

pub open spec fn lines_from(s: Seq<char>, i: int) -> Seq<Seq<char>>
    decreases s.len() - i,
{
    if i < 0 || i >= s.len() {
        seq![]
    } else {
        let e = line_end(s, i);
        proof {
            lemma_run_end(s, i, CharClass::NotNewline);
        }
        if e >= s.len() {
            seq![line_at(s, i)]
        } else {
            seq![line_at(s, i)] + lines_from(s, e + 1)
        }
    }
}

/// The lines of a text, as `str::lines` splits it: at each line feed, a
/// carriage return before it dropped, and no empty line after a final line
/// feed.
pub open spec fn text_lines(s: Seq<char>) -> Seq<Seq<char>> {
    lines_from(s, 0)
}

/// The number at the start of a listed source line: after any white space,
/// a run of digits followed by white space; `None` when the line has no such
/// number or it does not fit in a `u32`.
pub open spec fn line_number_of(line: Seq<char>) -> Option<u32> {
    let w = run_end(line, 0, CharClass::Space);
    let d = run_end(line, w, CharClass::Digit);
    if d > w && d < line.len() && is_white_space(line[d]) {
        parsed_u32(line.subrange(w, d))
    } else {
        None
    }
}

pub open spec fn numbers_of_lines(lines: Seq<Seq<char>>) -> Seq<u32>
    decreases lines.len(),
{
    if lines.len() == 0 {
        seq![]
    } else {
        match line_number_of(lines[0]) {
            Some(n) => seq![n] + numbers_of_lines(lines.drop_first()),
            None => numbers_of_lines(lines.drop_first()),
        }
    }
}

/// The line numbers of a source listing, in order.
pub open spec fn listed_line_numbers_of(s: Seq<char>) -> Seq<u32> {
    numbers_of_lines(text_lines(s))
}

fn line_number(line: &Vec<char>) -> (r: Option<u32>)
    ensures
        r == line_number_of(line@),
{
    let space = CharClass::Space;
    let digit = CharClass::Digit;
    let w = class_run(line, 0, &space);
    let d = class_run(line, w, &digit);
    if d > w && d < line.len() && white_space(line[d]) {
        parse_u32_digits(line, w, d)
    } else {
        None
    }
}

/// The line numbers of a source listing, in order.
pub fn listed_line_numbers(list_output: &str) -> (v: Vec<u32>)
    ensures
        v@ == listed_line_numbers_of(list_output@),
{
    let s = chars_of(list_output);
    let not_newline = CharClass::NotNewline;
    let mut out: Vec<u32> = Vec::new();
    let mut i: usize = 0;
    while i < s.len()
        invariant
            i <= s@.len(),
            s@ == list_output@,
            not_newline == CharClass::NotNewline,
            out@ + numbers_of_lines(lines_from(s@, i as int)) == listed_line_numbers_of(s@),
        decreases s@.len() - i,
    {
        let e = class_run(&s, i, &not_newline);
        let stop = if e < s.len() && e > i && s[e - 1] == '\r' {
            e - 1
        } else {
            e
        };
        let line = copy_range(&s, i, stop);
        assert(line@ == line_at(s@, i as int));
        let ghost rest = if e >= s.len() {
            seq![]
        } else {
            lines_from(s@, e + 1)
        };
        assert(lines_from(s@, i as int) == seq![line@] + rest);
        assert((seq![line@] + rest).drop_first() == rest);
        assert((seq![line@] + rest)[0] == line@);
        let ghost before = out@;
        match line_number(&line) {
            Some(n) => {
                out.push(n);
                assert(before + (seq![n] + numbers_of_lines(rest)) == out@ + numbers_of_lines(
                    rest,
                ));
            },
            None => {},
        }
        if e >= s.len() {
            i = s.len();
            assert(lines_from(s@, i as int) == Seq::<Seq<char>>::empty());
            assert(numbers_of_lines(rest) == Seq::<u32>::empty());
        } else {
            i = e + 1;
        }
    }
    assert(lines_from(s@, i as int) == Seq::<Seq<char>>::empty());
    assert(out@ + Seq::<u32>::empty() == out@);
    out
}

/// Whether a listing is nothing but white space.
pub fn listing_is_blank(list_output: &str) -> (b: bool)
    ensures
        b == crate::text::is_blank(list_output@),
{
    let s = chars_of(list_output);
    blank(&s)
}

} // verus!

verus! {

/// A run of class `k` from `i` up to `j`, followed by a character outside
/// the class or by the end, ends at `j`.
pub proof fn lemma_run_end_exact(s: Seq<char>, i: int, j: int, k: CharClass)
    requires
        0 <= i <= j <= s.len(),
        forall|m: int| i <= m < j ==> in_class(#[trigger] s[m], k),
        j < s.len() ==> !in_class(s[j], k),
    ensures
        run_end(s, i, k) == j,
    decreases j - i,
{
    if i < j {
        lemma_run_end_exact(s, i + 1, j, k);
    }
}

/// A listed source line — white space, the line number in decimal, a tab,
/// then the source text — is read back as that line number.
pub proof fn law_listed_line_number(indent: Seq<char>, n: u32, source: Seq<char>)
    requires
        forall|i: int| 0 <= i < indent.len() ==> is_white_space(#[trigger] indent[i]),
    ensures
        line_number_of(indent + crate::text::decimal(n as nat) + seq!['\t'] + source) == Some(n),
{
    let dec = crate::text::decimal(n as nat);
    crate::text::lemma_decimal_digits(n as nat);
    crate::text::law_decimal_parses_back(n);
    let line = indent + dec + seq!['\t'] + source;
    let w = indent.len() as int;
    let d = w + dec.len();
    assert forall|m: int| 0 <= m < w implies in_class(#[trigger] line[m], CharClass::Space) by {
        assert(line[m] == indent[m]);
    }
    assert(line[w] == dec[0]);
    assert(is_ascii_digit(dec[0]));
    lemma_run_end_exact(line, 0, w, CharClass::Space);
    assert forall|m: int| w <= m < d implies in_class(#[trigger] line[m], CharClass::Digit) by {
        assert(line[m] == dec[m - w]);
        assert(is_ascii_digit(dec[m - w]));
    }
    assert(line[d] == '\t');
    lemma_run_end_exact(line, w, d, CharClass::Digit);
    assert(line.subrange(w, d) =~= dec);
}

} // verus!

verus! {

/// When the output of `break` starts with `Breakpoint N` (and no further
/// digit follows), `N` is the breakpoint number read from it.
pub proof fn law_breakpoint_number(n: u32, tail: Seq<char>)
    requires
        tail.len() == 0 || !is_decimal_digit(tail[0]),
    ensures
        breakpoint_number_of(breakpoint_word() + crate::text::decimal(n as nat) + tail) == Some(
            crate::text::decimal(n as nat),
        ),
{
    let dec = crate::text::decimal(n as nat);
    crate::text::lemma_decimal_digits(n as nat);
    let s = breakpoint_word() + dec + tail;
    let k = breakpoint_word().len() as int;
    assert(s.subrange(0, k) =~= breakpoint_word());
    assert forall|m: int| k <= m < k + dec.len() implies in_class(#[trigger] s[m], CharClass::Digit) by {
        assert(s[m] == dec[m - k]);
        assert(is_ascii_digit(dec[m - k]));
    }
    if tail.len() > 0 {
        assert(s[k + dec.len()] == tail[0]);
    }
    lemma_run_end_exact(s, k, k + dec.len(), CharClass::Digit);
    assert(s.subrange(k, k + dec.len()) =~= dec);
    assert(breakpoint_at(s, 0) == Some(dec));
}

} // verus!

verus! {

/// Runs are found the same way after any prefix.
pub proof fn lemma_run_end_shift(p: Seq<char>, r: Seq<char>, j: int, k: CharClass)
    requires
        0 <= j <= r.len(),
    ensures
        run_end(p + r, p.len() + j, k) == p.len() + run_end(r, j, k),
    decreases r.len() - j,
{
    let s = p + r;
    if j < r.len() {
        assert(s[p.len() + j] == r[j]);
        if in_class(r[j], k) {
            lemma_run_end_shift(p, r, j + 1, k);
        }
    }
}

/// Lines are split the same way after a prefix that ends a line.
pub proof fn lemma_lines_from_shift(p: Seq<char>, r: Seq<char>, j: int)
    requires
        0 <= j <= r.len(),
    ensures
        lines_from(p + r, p.len() + j) == lines_from(r, j),
    decreases r.len() - j,
{
    let s = p + r;
    let i = p.len() + j;
    if j < r.len() {
        lemma_run_end_shift(p, r, j, CharClass::NotNewline);
        lemma_run_end(r, j, CharClass::NotNewline);
        let e = line_end(r, j);
        assert(line_end(s, i) == p.len() + e);
        if e > j {
            assert(s[p.len() + e - 1] == r[e - 1]);
        }
        assert(s.subrange(i, p.len() + e) =~= r.subrange(j, e));
        if e > j {
            assert(s.subrange(i, p.len() + e - 1) =~= r.subrange(j, e - 1));
        }
        assert(line_at(s, i) == line_at(r, j));
        if e < r.len() {
            lemma_lines_from_shift(p, r, e + 1);
        }
    }
}

/// One numbered line of a source listing: indentation, the line number in
/// decimal, a tab, the source text.
pub open spec fn listing_line(indent: Seq<char>, n: u32, text: Seq<char>) -> Seq<char> {
    indent + crate::text::decimal(n as nat) + seq!['\t'] + text
}

/// A listing made of numbered lines, each ended by a line feed.
pub open spec fn listing_of(indents: Seq<Seq<char>>, numbers: Seq<u32>, texts: Seq<Seq<char>>) -> Seq<
    char,
>
    decreases numbers.len(),
{
    if numbers.len() == 0 {
        Seq::empty()
    } else {
        listing_line(indents[0], numbers[0], texts[0]) + seq!['\n'] + listing_of(
            indents.drop_first(),
            numbers.drop_first(),
            texts.drop_first(),
        )
    }
}

/// The line numbers of a listing are those of all its numbered lines, in
/// order, however many there are.
pub proof fn law_listing_line_numbers(
    indents: Seq<Seq<char>>,
    numbers: Seq<u32>,
    texts: Seq<Seq<char>>,
)
    requires
        indents.len() == numbers.len(),
        texts.len() == numbers.len(),
        forall|k: int, m: int|
            0 <= k < indents.len() && 0 <= m < indents[k].len() ==> is_white_space(
                #[trigger] indents[k][m],
            ) && indents[k][m] != '\n',
        forall|k: int, m: int|
            0 <= k < texts.len() && 0 <= m < texts[k].len() ==> #[trigger] texts[k][m] != '\n'
                && texts[k][m] != '\r',
    ensures
        listed_line_numbers_of(listing_of(indents, numbers, texts)) == numbers,
    decreases numbers.len(),
{
    let s = listing_of(indents, numbers, texts);
    if numbers.len() == 0 {
        assert(text_lines(s) == Seq::<Seq<char>>::empty());
    } else {
        let indent = indents[0];
        let text = texts[0];
        let n = numbers[0];
        let dec = crate::text::decimal(n as nat);
        crate::text::lemma_decimal_digits(n as nat);
        let line = listing_line(indent, n, text);
        let rest = listing_of(indents.drop_first(), numbers.drop_first(), texts.drop_first());
        let head = line + seq!['\n'];
        assert(s == head + rest);
        // The first line ends at its line feed.
        let w = indent.len() as int;
        let d = w + dec.len();
        assert forall|m: int| 0 <= m < line.len() implies in_class(
            #[trigger] s[m],
            CharClass::NotNewline,
        ) by {
            assert(s[m] == line[m]);
            if m < w {
                assert(line[m] == indents[0][m]);
            } else if m < d {
                assert(line[m] == dec[m - w]);
                assert(crate::text::is_ascii_digit(dec[m - w]));
            } else if m == d {
                assert(line[m] == '\t');
            } else {
                assert(line[m] == texts[0][m - d - 1]);
            }
        }
        assert(s[line.len() as int] == '\n');
        lemma_run_end_exact(s, 0, line.len() as int, CharClass::NotNewline);
        if text.len() > 0 {
            assert(line.last() == texts[0][text.len() - 1]);
        } else {
            assert(line.last() == '\t');
        }
        assert(s[line.len() - 1] == line.last());
        assert(s.subrange(0, line.len() as int) =~= line);
        assert(line_at(s, 0) == line);
        // The rest is split as it would be alone.
        lemma_lines_from_shift(head, rest, 0);
        assert(text_lines(s) == seq![line] + text_lines(rest));
        // The first line gives its number.
        assert forall|i: int| 0 <= i < indent.len() implies is_white_space(#[trigger] indent[i]) by {
            assert(indent[i] == indents[0][i]);
        }
        law_listed_line_number(indent, n, text);
        assert((seq![line] + text_lines(rest))[0] == line);
        assert((seq![line] + text_lines(rest)).drop_first() =~= text_lines(rest));
        // The rest gives the other numbers.
        assert forall|k: int, m: int|
            0 <= k < indents.drop_first().len() && 0 <= m < indents.drop_first()[k].len()
                implies is_white_space(#[trigger] indents.drop_first()[k][m])
                && indents.drop_first()[k][m] != '\n' by {
            assert(indents.drop_first()[k] == indents[k + 1]);
        }
        assert forall|k: int, m: int|
            0 <= k < texts.drop_first().len() && 0 <= m < texts.drop_first()[k].len()
                implies #[trigger] texts.drop_first()[k][m] != '\n' && texts.drop_first()[k][m]
                != '\r' by {
            assert(texts.drop_first()[k] == texts[k + 1]);
        }
        law_listing_line_numbers(indents.drop_first(), numbers.drop_first(), texts.drop_first());
        assert(seq![n] + numbers.drop_first() =~= numbers);
    }
}

} // verus!

verus! {

proof fn lemma_breakpoint_word()
    ensures
        breakpoint_word().len() == 11,
        breakpoint_word()[0] == 'B',
        breakpoint_word() == "Breakpoint "@,
{
    reveal_strlit("Breakpoint ");
}

/// Scanning for `Breakpoint N` passes over positions where no `B` stands.
proof fn lemma_breakpoint_skip(s: Seq<char>, i: int, j: int)
    requires
        0 <= i <= j,
        forall|m: int| i <= m < j && m < s.len() ==> s[m] != 'B',
    ensures
        breakpoint_from(s, i) == breakpoint_from(s, j),
    decreases j - i,
{
    if i < j {
        lemma_breakpoint_word();
        if i < s.len() && occurs_at(s, i, breakpoint_word()) {
            assert(s.subrange(i, i + 11)[0] == s[i]);
        }
        lemma_breakpoint_skip(s, i + 1, j);
    }
}

/// Text without a capital `B` names no breakpoint: only `Breakpoint N`, as
/// GDB writes it, counts.
pub proof fn law_no_breakpoint_without_word(s: Seq<char>)
    requires
        forall|m: int| 0 <= m < s.len() ==> s[m] != 'B',
    ensures
        breakpoint_number_of(s) is None,
{
    lemma_breakpoint_skip(s, 0, s.len() as int);
}

/// The number of the first `Breakpoint N` is the one read, whatever text
/// without a capital `B` (such as GDB's note that a breakpoint is already set
/// there) comes before it.
pub proof fn law_first_breakpoint_number(prefix: Seq<char>, n: u32, tail: Seq<char>)
    requires
        forall|m: int| 0 <= m < prefix.len() ==> prefix[m] != 'B',
        tail.len() == 0 || !is_decimal_digit(tail[0]),
    ensures
        breakpoint_number_of(prefix + "Breakpoint "@ + crate::text::decimal(n as nat) + tail)
            == Some(crate::text::decimal(n as nat)),
{
    lemma_breakpoint_word();
    let dec = crate::text::decimal(n as nat);
    crate::text::lemma_decimal_digits(n as nat);
    let s = prefix + "Breakpoint "@ + dec + tail;
    let p = prefix.len() as int;
    let k = p + 11;
    assert forall|m: int| 0 <= m < p && m < s.len() implies s[m] != 'B' by {
        assert(s[m] == prefix[m]);
    }
    lemma_breakpoint_skip(s, 0, p);
    assert(s.subrange(p, k) =~= breakpoint_word());
    assert forall|m: int| k <= m < k + dec.len() implies in_class(#[trigger] s[m], CharClass::Digit) by {
        assert(s[m] == dec[m - k]);
        assert(crate::text::is_ascii_digit(dec[m - k]));
    }
    if tail.len() > 0 {
        assert(s[k + dec.len()] == tail[0]);
    }
    lemma_run_end_exact(s, k, k + dec.len(), CharClass::Digit);
    assert(s.subrange(k, k + dec.len()) =~= dec);
    assert(breakpoint_at(s, p) == Some(dec));
}

/// A breakpoint number read from the output is a non-empty run of digits that
/// stands right after `Breakpoint ` in it, and no digit follows the run.
pub proof fn law_breakpoint_number_found_in_text(s: Seq<char>, i: int)
    requires
        0 <= i,
        breakpoint_from(s, i) is Some,
    ensures
        ({
            let d = breakpoint_from(s, i)->0;
            exists|j: int|
                i <= j && occurs_at(s, j, "Breakpoint "@) && #[trigger] s.subrange(
                    j + 11,
                    j + 11 + d.len(),
                ) == d && d.len() > 0 && (forall|m: int|
                    0 <= m < d.len() ==> is_decimal_digit(#[trigger] d[m])) && (j + 11 + d.len()
                    == s.len() || !is_decimal_digit(s[j + 11 + d.len()]))
        }),
    decreases s.len() - i,
{
    lemma_breakpoint_word();
    if breakpoint_at(s, i) is Some {
        let k = i + 11;
        lemma_run_end(s, k, CharClass::Digit);
        let e = run_end(s, k, CharClass::Digit);
        let d = s.subrange(k, e);
        assert forall|m: int| 0 <= m < d.len() implies is_decimal_digit(#[trigger] d[m]) by {
            assert(d[m] == s[k + m]);
            assert(in_class(s[k + m], CharClass::Digit));
        }
        assert(s.subrange(i + 11, i + 11 + d.len()) == d);
    } else {
        law_breakpoint_number_found_in_text(s, i + 1);
        let d = breakpoint_from(s, i)->0;
        let j = choose|j: int|
            i + 1 <= j && occurs_at(s, j, "Breakpoint "@) && #[trigger] s.subrange(
                j + 11,
                j + 11 + d.len(),
            ) == d && d.len() > 0 && (forall|m: int|
                0 <= m < d.len() ==> is_decimal_digit(#[trigger] d[m])) && (j + 11 + d.len()
                == s.len() || !is_decimal_digit(s[j + 11 + d.len()]));
        assert(i <= j);
    }
}

} // verus!
