//! Reading the signal strength out of a link report.
//!
//! A link report is the text that `iw dev <interface> link` prints. The
//! strength stands on the line that holds `signal:`, as the second word of
//! that line: a decimal number of dBm.
use vstd::prelude::*;

verus! {

/// The word that marks the line of the signal strength.
pub const SIGNAL_KEY: &'static str = "signal:";

/// Whether `c` is white space: a character with the Unicode property
/// `White_Space`.
pub open spec fn is_space(c: char) -> bool {
    let n = c as u32;
    ||| 0x09 <= n <= 0x0d
    ||| n == 0x20
    ||| n == 0x85
    ||| n == 0xa0
    ||| n == 0x1680
    ||| 0x2000 <= n <= 0x200a
    ||| n == 0x2028
    ||| n == 0x2029
    ||| n == 0x202f
    ||| n == 0x205f
    ||| n == 0x3000
}

/// Whether `c` is one of the digits `0` to `9`.
pub open spec fn is_digit(c: char) -> bool {
    0x30 <= c as u32 <= 0x39
}

/// The value of a digit.
pub open spec fn digit_value(c: char) -> nat {
    if is_digit(c) {
        (c as u32 - 0x30) as nat
    } else {
        0
    }
}

/// The number that a run of digits spells.
pub open spec fn digits_value(digits: Seq<char>) -> nat
    decreases digits.len(),
{
    if digits.len() == 0 {
        0
    } else {
        digits_value(digits.drop_last()) * 10 + digit_value(digits.last())
    }
}

/// Whether every character is a digit.
pub open spec fn all_digits(digits: Seq<char>) -> bool {
    forall|i: int| 0 <= i < digits.len() ==> is_digit(#[trigger] digits[i])
}

/// The number that a run of digits after an optional sign spells, if the
/// run is not empty.
pub open spec fn signed_value(word: Seq<char>) -> Option<int> {
    if word.len() == 0 {
        None
    } else {
        let negative = word[0] == '-';
        let digits = if word[0] == '-' || word[0] == '+' {
            word.skip(1)
        } else {
            word
        };
        if digits.len() == 0 || !all_digits(digits) {
            None
        } else if negative {
            Some(-(digits_value(digits) as int))
        } else {
            Some(digits_value(digits) as int)
        }
    }
}

/// The 32-bit number that a word spells: an optional sign and at least one
/// digit, with a value that fits; no other word spells a number.
pub open spec fn word_value(word: Seq<char>) -> Option<int> {
    match signed_value(word) {
        Some(value) => if i32::MIN <= value <= i32::MAX {
            Some(value)
        } else {
            None
        },
        None => None,
    }
}

/// The first place at or after `from` that holds no white space.
pub open spec fn skip_spaces(line: Seq<char>, from: int) -> int
    decreases line.len() - from,
{
    if 0 <= from < line.len() && is_space(line[from]) {
        skip_spaces(line, from + 1)
    } else {
        from
    }
}

/// The first place at or after `from` that holds white space, or the end.
pub open spec fn skip_word(line: Seq<char>, from: int) -> int
    decreases line.len() - from,
{
    if 0 <= from < line.len() && !is_space(line[from]) {
        skip_word(line, from + 1)
    } else {
        from
    }
}

/// The second of the words of a line, where words are what white space
/// separates.
pub open spec fn second_word(line: Seq<char>) -> Option<Seq<char>> {
    let first_end = skip_word(line, skip_spaces(line, 0));
    let start = skip_spaces(line, first_end);
    if start < line.len() {
        Some(line.subrange(start, skip_word(line, start)))
    } else {
        None
    }
}

/// Whether `pattern` stands in `line` at place `at`.
pub open spec fn occurs_at(line: Seq<char>, pattern: Seq<char>, at: int) -> bool {
    0 <= at && at + pattern.len() <= line.len() && line.subrange(at, at + pattern.len())
        == pattern
}

/// Whether `pattern` stands somewhere in `line`.
pub open spec fn contains(line: Seq<char>, pattern: Seq<char>) -> bool {
    exists|at: int| occurs_at(line, pattern, at)
}

/// The strength that a line reports: the number that its second word
/// spells, if the line holds the key.
pub open spec fn line_strength(line: Seq<char>) -> Option<int> {
    if contains(line, SIGNAL_KEY@) {
        match second_word(line) {
            Some(word) => word_value(word),
            None => None,
        }
    } else {
        None
    }
}

/// The place of the first line feed at or after `from`, or the end.
pub open spec fn line_end(text: Seq<char>, from: int) -> int
    decreases text.len() - from,
{
    if 0 <= from < text.len() && text[from] != '\n' {
        line_end(text, from + 1)
    } else {
        from
    }
}

/// The strength that a report gives: that of its first line that reports
/// one. Lines end at a line feed.
pub open spec fn report_strength(text: Seq<char>) -> Option<int>
    decreases text.len(),
{
    let end = line_end(text, 0);
    if 0 <= end <= text.len() {
        match line_strength(text.take(end)) {
            Some(value) => Some(value),
            None => if end < text.len() {
                report_strength(text.skip(end + 1))
            } else {
                None
            },
        }
    } else {
        None
    }
}

/// The characters of a text, one by one.
pub fn chars_of(text: &str) -> (r: Vec<char>)
    ensures
        r@ == text@,
{
    let mut out: Vec<char> = Vec::new();
    for c in it: text.chars()
        invariant
            out@ == it.seq().take(it.index()),
            it.seq() == text@,
    {
        out.push(c);
    }
    out
}

/// Whether `c` is white space.
pub fn space(c: char) -> (r: bool)
    ensures
        r == is_space(c),
{
    let n = c as u32;
    (0x09 <= n && n <= 0x0d) || n == 0x20 || n == 0x85 || n == 0xa0 || n == 0x1680 || (0x2000 <= n
        && n <= 0x200a) || n == 0x2028 || n == 0x2029 || n == 0x202f || n == 0x205f || n
        == 0x3000
}

/// A strength as the contracts see it.
pub open spec fn strength_view(strength: Option<i32>) -> Option<int> {
    match strength {
        Some(value) => Some(value as int),
        None => None,
    }
}

/// The first place at or after `from` that holds no white space.
fn skip_spaces_from(line: &Vec<char>, from: usize) -> (r: usize)
    requires
        from <= line.len(),
    ensures
        r == skip_spaces(line@, from as int),
        from <= r <= line.len(),
{
    let mut i = from;
    while i < line.len() && space(line[i])
        invariant
            from <= i <= line.len(),
            skip_spaces(line@, from as int) == skip_spaces(line@, i as int),
        decreases line.len() - i,
    {
        i += 1;
    }
    i
}

/// The first place at or after `from` that holds white space, or the end.
fn skip_word_from(line: &Vec<char>, from: usize) -> (r: usize)
    requires
        from <= line.len(),
    ensures
        r == skip_word(line@, from as int),
        from <= r <= line.len(),
{
    let mut i = from;
    while i < line.len() && !space(line[i])
        invariant
            from <= i <= line.len(),
            skip_word(line@, from as int) == skip_word(line@, i as int),
        decreases line.len() - i,
    {
        i += 1;
    }
    i
}

/// A run of digits after its first `n` spells the value of the first `n`,
/// times ten, plus the next digit.
proof fn lemma_digits_step(digits: Seq<char>, n: int)
    requires
        0 <= n < digits.len(),
    ensures
        digits_value(digits.take(n + 1)) == digits_value(digits.take(n)) * 10 + digit_value(
            digits[n],
        ),
{
    assert(digits.take(n + 1).drop_last() =~= digits.take(n));
    assert(digits.take(n + 1).last() == digits[n]);
}

/// A run of digits spells no less than any of its beginnings.
proof fn lemma_digits_grow(digits: Seq<char>, n: int)
    requires
        0 <= n <= digits.len(),
        all_digits(digits),
    ensures
        digits_value(digits.take(n)) <= digits_value(digits),
    decreases digits.len() - n,
{
    if n < digits.len() {
        lemma_digits_step(digits, n);
        assert(is_digit(digits[n]));
        lemma_digits_grow(digits, n + 1);
    } else {
        assert(digits.take(n) =~= digits);
    }
}

/// The number that the word between two places of a line spells.
fn parse_word(line: &Vec<char>, from: usize, to: usize) -> (r: Option<i32>)
    requires
        from <= to <= line.len(),
    ensures
        strength_view(r) == word_value(line@.subrange(from as int, to as int)),
{
    let ghost word = line@.subrange(from as int, to as int);
    if from == to {
        return None;
    }
    let first = line[from];
    assert(first == word[0]);
    let negative = first == '-';
    let start = if first == '-' || first == '+' {
        from + 1
    } else {
        from
    };
    let ghost digits = line@.subrange(start as int, to as int);
    assert(digits =~= if word[0] == '-' || word[0] == '+' {
        word.skip(1)
    } else {
        word
    });
    if start == to {
        return None;
    }
    let mut value: i64 = 0;
    let mut i = start;
    assert(digits.take(0) =~= Seq::<char>::empty());
    while i < to
        invariant
            from <= start <= i <= to <= line.len(),
            start < to,
            word == line@.subrange(from as int, to as int),
            digits == line@.subrange(start as int, to as int),
            digits == if word[0] == '-' || word[0] == '+' {
                word.skip(1)
            } else {
                word
            },
            all_digits(digits.take(i - start)),
            value == digits_value(digits.take(i - start)),
            0 <= value <= 2147483648,
        decreases to - i,
    {
        let n = line[i] as u32;
        assert(line[i as int] == digits[i - start]);
        if n < 0x30 || n > 0x39 {
            assert(!is_digit(digits[i - start]));
            return None;
        }
        proof {
            lemma_digits_step(digits, i - start);
            assert forall|k: int| 0 <= k < i + 1 - start implies is_digit(
                #[trigger] digits.take(i + 1 - start)[k],
            ) by {
                if k < i - start {
                    assert(digits.take(i - start)[k] == digits[k]);
                }
            }
        }
        value = value * 10 + (n - 0x30) as i64;
        if value > 2147483648 {
            proof {
                if all_digits(digits) {
                    lemma_digits_grow(digits, i + 1 - start);
                }
            }
            return None;
        }
        i += 1;
    }
    assert(digits.take(to - start) =~= digits);
    if negative {
        Some((-value) as i32)
    } else if value > 2147483647 {
        None
    } else {
        Some(value as i32)
    }
}

/// Whether `key` stands in `line` at place `at`.
fn key_at(line: &Vec<char>, key: &Vec<char>, at: usize) -> (r: bool)
    requires
        at + key.len() <= line.len(),
    ensures
        r == occurs_at(line@, key@, at as int),
{
    let ghost window = line@.subrange(at as int, at + key.len());
    let mut k: usize = 0;
    while k < key.len()
        invariant
            k <= key.len(),
            at + key.len() <= line.len(),
            window == line@.subrange(at as int, at + key.len()),
            forall|j: int| 0 <= j < k ==> window[j] == key@[j],
        decreases key.len() - k,
    {
        if line[at + k] != key[k] {
            assert(window[k as int] != key@[k as int]);
            return false;
        }
        k += 1;
    }
    assert(window =~= key@);
    true
}

/// Whether `key` stands somewhere in `line`.
fn has_key(line: &Vec<char>, key: &Vec<char>) -> (r: bool)
    ensures
        r == contains(line@, key@),
{
    if key.len() > line.len() {
        return false;
    }
    let last = line.len() - key.len();
    let mut at: usize = 0;
    loop
        invariant
            at <= last,
            last == line.len() - key.len(),
            forall|j: int| 0 <= j < at ==> !occurs_at(line@, key@, j),
        decreases last - at,
    {
        if key_at(line, key, at) {
            return true;
        }
        if at == last {
            return false;
        }
        at += 1;
    }
}

/// The strength that a line reports.
fn line_strength_of(line: &Vec<char>, key: &Vec<char>) -> (r: Option<i32>)
    requires
        key@ == SIGNAL_KEY@,
    ensures
        strength_view(r) == line_strength(line@),
{
    if !has_key(line, key) {
        return None;
    }
    let first_end = skip_word_from(line, skip_spaces_from(line, 0));
    let start = skip_spaces_from(line, first_end);
    if start >= line.len() {
        return None;
    }
    let end = skip_word_from(line, start);
    parse_word(line, start, end)
}

/// The signal strength in dBm that a link report gives: the number that
/// the second word spells on the first line that holds the key and has a
/// number there. `None` when no line reports a strength.
pub fn signal_strength(report: &str) -> (r: Option<i32>)
    ensures
        strength_view(r) == report_strength(report@),
{
    let text = chars_of(report);
    let key = chars_of(SIGNAL_KEY);
    let mut start: usize = 0;
    assert(text@.skip(0) =~= text@);
    loop
        invariant
            start <= text.len(),
            text@ == report@,
            key@ == SIGNAL_KEY@,
            report_strength(report@) == report_strength(text@.skip(start as int)),
        decreases text.len() - start,
    {
        let ghost rest = text@.skip(start as int);
        let mut line: Vec<char> = Vec::new();
        let mut end = start;
        while end < text.len() && text[end] != '\n'
            invariant
                start <= end <= text.len(),
                rest == text@.skip(start as int),
                line@ == rest.take(end - start),
                line_end(rest, 0) == line_end(rest, end - start),
            decreases text.len() - end,
        {
            line.push(text[end]);
            assert(line@ =~= rest.take(end + 1 - start));
            end += 1;
        }
        let found = line_strength_of(&line, &key);
        if found.is_some() {
            return found;
        }
        if end >= text.len() {
            return None;
        }
        assert(rest.skip(end + 1 - start) =~= text@.skip(end + 1));
        start = end + 1;
    }
}

} // verus!
