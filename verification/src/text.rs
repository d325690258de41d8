//! Text primitives: decimal rendering and parsing, substring search, lines,
//! words and joining. Every string is modelled by its sequence of characters.

use vstd::prelude::*;

verus! {

/// `String::push` of the standard library: appends one character.
pub assume_specification[ String::push ](s: &mut String, c: char)
    ensures
        final(s)@ == old(s)@.push(c),
;

/// The characters of an optional text.
pub open spec fn opt_text(text: Option<String>) -> Option<Seq<char>> {
    match text {
        Some(t) => Some(t@),
        None => None,
    }
}

/// The characters of a text, or of the message that stands in its place.
pub open spec fn result_text(text: Result<String, String>) -> Result<Seq<char>, Seq<char>> {
    match text {
        Ok(t) => Ok(t@),
        Err(e) => Err(e@),
    }
}

/// The characters of each text in a list.
pub open spec fn texts(list: Seq<String>) -> Seq<Seq<char>> {
    list.map_values(|t: String| t@)
}

/// The ASCII digit for `d`, with `0 <= d < 10`.
pub open spec fn digit_char(d: int) -> char {
    (48 + d) as char
}

/// A natural number in decimal, without leading zeros.
pub open spec fn nat_text(n: nat) -> Seq<char>
    decreases n,
{
    if n < 10 {
        seq![digit_char(n as int)]
    } else {
        nat_text(n / 10).push(digit_char((n % 10) as int))
    }
}

/// An integer in decimal, with a minus sign below zero.
pub open spec fn int_text(n: int) -> Seq<char> {
    if n < 0 {
        seq!['-'] + nat_text((-n) as nat)
    } else {
        nat_text(n as nat)
    }
}

/// A natural number in decimal, zero-padded to at least two digits.
pub open spec fn two_digits(n: nat) -> Seq<char> {
    if n < 10 {
        seq!['0'] + nat_text(n)
    } else {
        nat_text(n)
    }
}

/// Whether `c` is an ASCII decimal digit.
pub open spec fn is_digit(c: char) -> bool {
    '0' <= c && c <= '9'
}

/// The number that a run of decimal digits denotes.
pub open spec fn digits_value(s: Seq<char>) -> nat
    decreases s.len(),
{
    if s.len() == 0 {
        0
    } else {
        digits_value(s.drop_last()) * 10 + (s.last() as int - 48) as nat
    }
}

/// A numeral without its optional leading plus sign.
pub open spec fn unsigned_part(s: Seq<char>) -> Seq<char> {
    if s.len() > 0 && s[0] == '+' {
        s.skip(1)
    } else {
        s
    }
}

/// The unsigned integer that `s` spells, when it is a non-empty run of
/// digits (with an optional plus sign) of value at most `max`.
pub open spec fn parsed_number(s: Seq<char>, max: nat) -> Option<nat> {
    let digits = unsigned_part(s);
    if digits.len() > 0 && (forall|i: int| 0 <= i < digits.len() ==> is_digit(#[trigger] digits[i]))
        && digits_value(digits) <= max {
        Some(digits_value(digits))
    } else {
        None
    }
}

/// Whether `needle` stands in `text` at index `i`.
pub open spec fn occurs_at(text: Seq<char>, needle: Seq<char>, i: int) -> bool {
    0 <= i && i + needle.len() <= text.len() && text.subrange(i, i + needle.len()) == needle
}

/// The first index at or after `i` at which `needle` stands in `text`.
pub open spec fn find_from(text: Seq<char>, needle: Seq<char>, i: int) -> Option<int>
    decreases text.len() + 1 - i,
{
    if i < 0 || i + needle.len() > text.len() {
        None
    } else if occurs_at(text, needle, i) {
        Some(i)
    } else {
        find_from(text, needle, i + 1)
    }
}

/// Whether `text` begins with `prefix`.
pub open spec fn has_prefix(text: Seq<char>, prefix: Seq<char>) -> bool {
    occurs_at(text, prefix, 0)
}

/// Whether `needle` stands anywhere in `text`.
pub open spec fn has_text(text: Seq<char>, needle: Seq<char>) -> bool {
    exists|i: int| occurs_at(text, needle, i)
}

/// Unicode's `White_Space` property.
pub open spec fn is_space(c: char) -> bool {
    let n = c as u32;
    ||| 0x09 <= n <= 0x0d
    ||| n == 0x20
    ||| n == 0x85
    ||| n == 0xa0
    ||| n == 0x1680
    ||| 0x2000 <= n <= 0x200a
    ||| n == 0x2028
    ||| n == 0x2029
    ||| n == 0x202f
    ||| n == 0x205f
    ||| n == 0x3000
}

/// Whether a text holds nothing but white space.
pub open spec fn is_blank(s: Seq<char>) -> bool {
    forall|i: int| 0 <= i < s.len() ==> is_space(#[trigger] s[i])
}

/// The first index at or after `i` whose character is white space exactly
/// when `space` says so, or the text's length.
pub open spec fn scan(s: Seq<char>, i: int, space: bool) -> int
    decreases s.len() - i,
{
    if 0 <= i < s.len() && is_space(s[i]) != space {
        scan(s, i + 1, space)
    } else {
        i
    }
}

/// The length of `s` without trailing white space.
pub open spec fn solid_len(s: Seq<char>) -> int
    decreases s.len(),
{
    if s.len() == 0 || !is_space(s.last()) {
        s.len() as int
    } else {
        solid_len(s.drop_last())
    }
}

/// `s` without leading and trailing white space.
pub open spec fn trimmed(s: Seq<char>) -> Seq<char> {
    let front = s.skip(scan(s, 0, false));
    front.take(solid_len(front))
}

/// The maximal runs of characters that are not white space, from index `i`.
pub open spec fn words_from(s: Seq<char>, i: int) -> Seq<Seq<char>>
    decreases s.len() - i,
    via words_from_decreases
{
    let start = scan(s, i, false);
    if i < 0 || start >= s.len() {
        Seq::empty()
    } else {
        let end = scan(s, start, true);
        seq![s.subrange(start, end)] + words_from(s, end)
    }
}

#[via_fn]
proof fn words_from_decreases(s: Seq<char>, i: int) {
    let start = scan(s, i, false);
    if 0 <= i && start < s.len() {
        lemma_scan(s, i, false);
        lemma_scan(s, start, true);
    }
}

/// `scan` moves forward and stops at the first match.
proof fn lemma_scan(s: Seq<char>, i: int, space: bool)
    requires
        0 <= i <= s.len(),
    ensures
        i <= scan(s, i, space) <= s.len(),
        scan(s, i, space) < s.len() ==> is_space(s[scan(s, i, space)]) == space,
        forall|j: int| i <= j < scan(s, i, space) ==> is_space(#[trigger] s[j]) != space,
    decreases s.len() - i,
{
    if i < s.len() && is_space(s[i]) != space {
        lemma_scan(s, i + 1, space);
    }
}

/// The index of the first line feed at or after `i`, or the text's length.
pub open spec fn line_feed_from(s: Seq<char>, i: int) -> int
    decreases s.len() - i,
{
    if i < 0 || i >= s.len() {
        s.len() as int
    } else if s[i] == '\n' {
        i
    } else {
        line_feed_from(s, i + 1)
    }
}

proof fn lemma_line_feed(s: Seq<char>, i: int)
    requires
        0 <= i <= s.len(),
    ensures
        i <= line_feed_from(s, i) <= s.len(),
    decreases s.len() - i,
{
    if i < s.len() && s[i] != '\n' {
        lemma_line_feed(s, i + 1);
    }
}

/// A line's text without the carriage return that a line feed followed.
pub open spec fn without_return(line: Seq<char>) -> Seq<char> {
    if line.len() > 0 && line.last() == '\r' {
        line.drop_last()
    } else {
        line
    }
}

/// The lines of `s` from index `i`: split after each line feed, without the
/// line ending; an empty rest makes no line.
pub open spec fn lines_from(s: Seq<char>, i: int) -> Seq<Seq<char>>
    decreases s.len() - i,
    via lines_from_decreases
{
    if i < 0 || i >= s.len() {
        Seq::empty()
    } else {
        let end = line_feed_from(s, i);
        if end < s.len() {
            seq![without_return(s.subrange(i, end))] + lines_from(s, end + 1)
        } else {
            seq![s.subrange(i, s.len() as int)]
        }
    }
}

#[via_fn]
proof fn lines_from_decreases(s: Seq<char>, i: int) {
    if 0 <= i < s.len() {
        lemma_line_feed(s, i);
    }
}

/// The first line, at or after index `i`, that is not blank.
pub open spec fn first_solid_from(lines: Seq<Seq<char>>, i: int) -> Option<Seq<char>>
    decreases lines.len() - i,
{
    if i < 0 || i >= lines.len() {
        None
    } else if !is_blank(lines[i]) {
        Some(lines[i])
    } else {
        first_solid_from(lines, i + 1)
    }
}

/// The parts in order, with `sep` between neighbours.
pub open spec fn joined(parts: Seq<Seq<char>>, sep: Seq<char>) -> Seq<char>
    decreases parts.len(),
{
    if parts.len() == 0 {
        Seq::empty()
    } else {
        let init = parts.drop_last();
        if init.len() == 0 {
            parts.last()
        } else {
            joined(init, sep) + sep + parts.last()
        }
    }
}

/// `unit` written `n` times over.
pub open spec fn repeated(unit: Seq<char>, n: nat) -> Seq<char>
    decreases n,
{
    if n == 0 {
        Seq::empty()
    } else {
        repeated(unit, (n - 1) as nat) + unit
    }
}

/// The lower-case form of an ASCII letter; other characters stay.
pub open spec fn ascii_lower(c: char) -> char {
    if 'A' <= c && c <= 'Z' {
        (c as int + 32) as char
    } else {
        c
    }
}

/// The characters of `s`, in order.
pub fn chars_of(s: &str) -> (chars: Vec<char>)
    ensures
        chars@ == s@,
{
    let mut chars: Vec<char> = Vec::new();
    for c in it: s.chars()
        invariant
            it.seq() == s@,
            chars@ =~= s@.take(it.index() as int),
    {
        chars.push(c);
    }
    chars
}

/// The text that the characters from `from` up to `to` make.
pub fn slice_text(chars: &Vec<char>, from: usize, to: usize) -> (text: String)
    requires
        from <= to <= chars@.len(),
    ensures
        text@ == chars@.subrange(from as int, to as int),
{
    let mut text = String::new();
    let mut i: usize = from;
    while i < to
        invariant
            from <= i <= to <= chars@.len(),
            text@ =~= chars@.subrange(from as int, i as int),
        decreases to - i,
    {
        text.push(chars[i]);
        i += 1;
    }
    text
}

/// Whether two texts hold the same characters.
pub fn same_text(a: &str, b: &str) -> (same: bool)
    ensures
        same == (a@ == b@),
{
    let left = a.to_owned();
    let right = b.to_owned();
    left == right
}

/// A copy of a list of texts.
pub fn copy_texts(list: &Vec<String>) -> (copy: Vec<String>)
    ensures
        copy@ == list@,
{
    let mut copy: Vec<String> = Vec::new();
    let mut i: usize = 0;
    while i < list.len()
        invariant
            i <= list@.len(),
            copy@ =~= list@.take(i as int),
        decreases list@.len() - i,
    {
        copy.push(list[i].clone());
        i += 1;
    }
    assert(list@.take(i as int) =~= list@);
    copy
}

/// Adds a text to the end of a list.
pub fn push_text(list: &mut Vec<String>, text: &str)
    ensures
        texts(final(list)@) == texts(old(list)@).push(text@),
{
    list.push(text.to_owned());
    assert(texts(list@) =~= texts(old(list)@).push(text@));
}

/// Adds a copy of each text to the end of a list.
pub fn push_texts(list: &mut Vec<String>, more: &Vec<String>)
    ensures
        texts(final(list)@) == texts(old(list)@) + texts(more@),
{
    let mut i: usize = 0;
    assert(texts(list@) =~= texts(old(list)@) + texts(more@).take(0));
    while i < more.len()
        invariant
            i <= more@.len(),
            texts(list@) == texts(old(list)@) + texts(more@).take(i as int),
        decreases more@.len() - i,
    {
        push_text(list, more[i].as_str());
        assert(texts(list@) =~= texts(old(list)@) + texts(more@).take(i + 1));
        i += 1;
    }
    assert(texts(more@).take(i as int) =~= texts(more@));
}

/// Appends `n` in decimal.
pub fn push_nat(out: &mut String, n: u64)
    ensures
        final(out)@ == old(out)@ + nat_text(n as nat),
    decreases n,
{
    if n >= 10 {
        push_nat(out, n / 10);
    }
    out.push((48u8 + (n % 10) as u8) as char);
    assert(out@ =~= old(out)@ + nat_text(n as nat));
}

/// `n` in decimal.
pub fn nat_string(n: u64) -> (text: String)
    ensures
        text@ == nat_text(n as nat),
{
    let mut text = String::new();
    push_nat(&mut text, n);
    assert(text@ =~= nat_text(n as nat));
    text
}

/// `n` in decimal, with a minus sign below zero.
pub fn int_string(n: i64) -> (text: String)
    ensures
        text@ == int_text(n as int),
{
    let mut text = String::new();
    if n < 0 {
        text.push('-');
        let size: u64 = (-(n as i128)) as u64;
        push_nat(&mut text, size);
        assert(text@ =~= int_text(n as int));
    } else {
        push_nat(&mut text, n as u64);
        assert(text@ =~= int_text(n as int));
    }
    text
}

/// `n` in decimal, zero-padded to at least two digits.
pub fn padded_string(n: u64) -> (text: String)
    ensures
        text@ == two_digits(n as nat),
{
    let mut text = String::new();
    if n < 10 {
        text.push('0');
    }
    push_nat(&mut text, n);
    assert(text@ =~= two_digits(n as nat));
    text
}

/// A longer run of digits denotes at least what its beginning does.
proof fn lemma_digits_grow(s: Seq<char>, i: int)
    requires
        0 <= i <= s.len(),
    ensures
        digits_value(s.take(i)) <= digits_value(s),
    decreases s.len(),
{
    if i < s.len() {
        lemma_digits_grow(s.drop_last(), i);
        assert(s.drop_last().take(i) =~= s.take(i));
    } else {
        assert(s.take(i) =~= s);
    }
}

/// Reading a natural number's decimal form gives the number back.
pub proof fn lemma_nat_text_reads_back(n: nat)
    ensures
        nat_text(n).len() > 0,
        forall|i: int| 0 <= i < nat_text(n).len() ==> is_digit(#[trigger] nat_text(n)[i]),
        digits_value(nat_text(n)) == n,
    decreases n,
{
    let s = nat_text(n);
    if n < 10 {
        assert(s.drop_last() =~= Seq::<char>::empty());
        assert(digits_value(s.drop_last()) == 0);
    } else {
        lemma_nat_text_reads_back(n / 10);
        assert(s.drop_last() =~= nat_text(n / 10));
    }
}

/// Parsing a natural number's decimal form gives the number back, as long as
/// it is within the bound.
pub proof fn lemma_parse_nat_text(n: nat, max: nat)
    requires
        n <= max,
    ensures
        parsed_number(nat_text(n), max) == Some(n),
{
    lemma_nat_text_reads_back(n);
    assert(is_digit(nat_text(n)[0]));
    assert(unsigned_part(nat_text(n)) == nat_text(n));
}

/// Reads an unsigned decimal integer, as `u64::from_str` does.
pub fn parse_u64(s: &str) -> (number: Option<u64>)
    ensures
        parsed_number(s@, u64::MAX as nat) == (match number {
            Some(n) => Some(n as nat),
            None => None,
        }),
{
    let chars = chars_of(s);
    let start: usize = if chars.len() > 0 && chars[0] == '+' {
        1
    } else {
        0
    };
    let ghost digits = unsigned_part(s@);
    assert(digits =~= chars@.skip(start as int));
    if start == chars.len() {
        return None;
    }
    let mut value: u64 = 0;
    let mut i: usize = start;
    assert(digits.take(0) =~= Seq::<char>::empty());
    while i < chars.len()
        invariant
            start <= i <= chars@.len(),
            chars@ == s@,
            digits == unsigned_part(s@),
            digits == chars@.skip(start as int),
            digits.len() > 0,
            forall|j: int| 0 <= j < i - start ==> is_digit(#[trigger] digits[j]),
            value == digits_value(digits.take(i - start)),
        decreases chars@.len() - i,
    {
        let c = chars[i];
        assert(c == digits[i - start]);
        if !('0' <= c && c <= '9') {
            assert(!is_digit(digits[i - start]));
            return None;
        }
        let d: u64 = (c as u32 - 48) as u64;
        proof {
            let upto = digits.take(i - start + 1);
            assert(upto.drop_last() =~= digits.take(i - start));
            assert(upto.last() == c);
            assert(digits_value(upto) == value * 10 + d);
            lemma_digits_grow(digits, i - start + 1);
        }
        if value > u64::MAX / 10 || value * 10 > u64::MAX - d {
            return None;
        }
        value = value * 10 + d;
        i += 1;
    }
    assert(digits.take(i - start) =~= digits);
    Some(value)
}

/// Reads an unsigned decimal integer, as `usize::from_str` does.
pub fn parse_usize(s: &str) -> (number: Option<usize>)
    ensures
        parsed_number(s@, usize::MAX as nat) == (match number {
            Some(n) => Some(n as nat),
            None => None,
        }),
{
    match parse_u64(s) {
        Some(n) => if n <= usize::MAX as u64 {
            Some(n as usize)
        } else {
            None
        },
        None => None,
    }
}

/// The first index at or after `from` at which `needle` stands in `text`.
pub fn find(text: &Vec<char>, needle: &Vec<char>, from: usize) -> (index: Option<usize>)
    ensures
        find_from(text@, needle@, from as int) == (match index {
            Some(i) => Some(i as int),
            None => None,
        }),
        index matches Some(i) ==> i + needle@.len() <= text@.len() <= usize::MAX,
{
    let mut i: usize = from;
    while i <= text.len() && needle.len() <= text.len() - i
        invariant
            from <= i,
            find_from(text@, needle@, from as int) == find_from(text@, needle@, i as int),
        decreases text@.len() + 1 - i,
    {
        if stands_at(text, needle, i) {
            return Some(i);
        }
        if i == text.len() {
            assert(text@.subrange(i as int, i as int) =~= needle@);
        }
        i += 1;
    }
    None
}

/// Whether `needle` stands in `text` at index `i`.
fn stands_at(text: &Vec<char>, needle: &Vec<char>, i: usize) -> (found: bool)
    requires
        i + needle@.len() <= text@.len(),
    ensures
        found == occurs_at(text@, needle@, i as int),
{
    let ghost piece = text@.subrange(i as int, i + needle@.len());
    let size: usize = text.len();
    let mut k: usize = 0;
    while k < needle.len()
        invariant
            k <= needle@.len(),
            i + needle@.len() <= text@.len() == size,
            piece == text@.subrange(i as int, i + needle@.len()),
            forall|j: int| 0 <= j < k ==> piece[j] == needle@[j],
        decreases needle@.len() - k,
    {
        if text[i + k] != needle[k] {
            assert(piece[k as int] != needle@[k as int]);
            return false;
        }
        k += 1;
    }
    assert(piece =~= needle@);
    true
}

/// What `find_from` finds is the first occurrence.
proof fn lemma_find_first(text: Seq<char>, needle: Seq<char>, i: int)
    requires
        0 <= i,
    ensures
        find_from(text, needle, i) matches Some(k) ==> k >= i && occurs_at(text, needle, k),
        find_from(text, needle, i) is None ==> forall|j: int| j >= i ==> !occurs_at(text, needle, j),
    decreases text.len() + 1 - i,
{
    if i + needle.len() <= text.len() && !occurs_at(text, needle, i) {
        lemma_find_first(text, needle, i + 1);
    }
}

/// Whether `needle` stands anywhere in `text`.
pub fn contains_text(text: &Vec<char>, needle: &Vec<char>) -> (found: bool)
    ensures
        found == has_text(text@, needle@),
{
    proof {
        lemma_find_first(text@, needle@, 0);
    }
    match find(text, needle, 0) {
        Some(_) => true,
        None => {
            assert(forall|j: int| j < 0 ==> !occurs_at(text@, needle@, j));
            false
        },
    }
}

/// Whether `text` begins with `prefix`.
pub fn starts_with(text: &str, prefix: &str) -> (found: bool)
    ensures
        found == has_prefix(text@, prefix@),
{
    let chars = chars_of(text);
    let head = chars_of(prefix);
    head.len() <= chars.len() && stands_at(&chars, &head, 0)
}

/// What follows `prefix` in `text`, when `text` begins with it.
pub fn strip_prefix(text: &str, prefix: &str) -> (rest: Option<String>)
    ensures
        opt_text(rest) == (if has_prefix(text@, prefix@) {
            Some(text@.skip(prefix@.len() as int))
        } else {
            None
        }),
{
    if starts_with(text, prefix) {
        let chars = chars_of(text);
        let head = chars_of(prefix);
        let rest = slice_text(&chars, head.len(), chars.len());
        assert(rest@ =~= text@.skip(prefix@.len() as int));
        Some(rest)
    } else {
        None
    }
}

/// Whether `c` is white space, as `char::is_whitespace` has it.
pub fn is_whitespace(c: char) -> (space: bool)
    ensures
        space == is_space(c),
{
    let n: u32 = c as u32;
    (0x09 <= n && n <= 0x0d) || n == 0x20 || n == 0x85 || n == 0xa0 || n == 0x1680 || (0x2000 <= n
        && n <= 0x200a) || n == 0x2028 || n == 0x2029 || n == 0x202f || n == 0x205f || n == 0x3000
}

/// Whether a text holds nothing but white space.
pub fn blank(text: &str) -> (yes: bool)
    ensures
        yes == is_blank(text@),
{
    let chars = chars_of(text);
    let mut i: usize = 0;
    while i < chars.len()
        invariant
            i <= chars@.len(),
            chars@ == text@,
            forall|j: int| 0 <= j < i ==> is_space(#[trigger] text@[j]),
        decreases chars@.len() - i,
    {
        if !is_whitespace(chars[i]) {
            assert(!is_space(text@[i as int]));
            return false;
        }
        i += 1;
    }
    true
}

/// The first index at or after `from` whose character is white space exactly
/// when `space` says so, or the number of characters.
fn scan_index(chars: &Vec<char>, from: usize, space: bool) -> (index: usize)
    requires
        from <= chars@.len(),
    ensures
        index == scan(chars@, from as int, space),
        from <= index <= chars@.len(),
{
    let mut i: usize = from;
    while i < chars.len() && is_whitespace(chars[i]) != space
        invariant
            from <= i <= chars@.len(),
            scan(chars@, from as int, space) == scan(chars@, i as int, space),
        decreases chars@.len() - i,
    {
        i += 1;
    }
    i
}

/// A text without leading and trailing white space.
pub fn trim(text: &str) -> (core: String)
    ensures
        core@ == trimmed(text@),
{
    let chars = chars_of(text);
    let start = scan_index(&chars, 0, false);
    let ghost front = text@.skip(start as int);
    let mut end: usize = chars.len();
    assert(front.take(front.len() as int) =~= front);
    while end > start && is_whitespace(chars[end - 1])
        invariant
            start <= end <= chars@.len(),
            chars@ == text@,
            front == text@.skip(start as int),
            solid_len(front) == solid_len(front.take(end - start)),
        decreases end - start,
    {
        assert(front.take(end - start).drop_last() =~= front.take(end - start - 1));
        assert(front.take(end - start).last() == chars@[end - 1]);
        end -= 1;
    }
    proof {
        if end > start {
            assert(front.take(end - start).last() == chars@[end - 1]);
        }
    }
    let core = slice_text(&chars, start, end);
    assert(core@ =~= front.take(end - start));
    core
}

/// The words of a text: its maximal runs of characters that are not white
/// space.
pub fn split_whitespace(text: &str) -> (words: Vec<String>)
    ensures
        texts(words@) == words_from(text@, 0),
{
    let chars = chars_of(text);
    let mut words: Vec<String> = Vec::new();
    let mut i: usize = 0;
    assert(texts(words@) + words_from(text@, 0) =~= words_from(text@, 0));
    loop
        invariant
            i <= chars@.len(),
            chars@ == text@,
            texts(words@) + words_from(text@, i as int) == words_from(text@, 0),
        ensures
            texts(words@) == words_from(text@, 0),
        decreases chars@.len() - i,
    {
        let start = scan_index(&chars, i, false);
        if start >= chars.len() {
            assert(texts(words@) + words_from(text@, i as int) =~= texts(words@));
            break;
        }
        let end = scan_index(&chars, start, true);
        proof {
            lemma_scan(text@, i as int, false);
            lemma_scan(text@, start as int, true);
        }
        let ghost before = texts(words@);
        words.push(slice_text(&chars, start, end));
        assert(texts(words@) =~= before.push(text@.subrange(start as int, end as int)));
        assert(texts(words@) + words_from(text@, end as int) =~= before + words_from(
            text@,
            i as int,
        ));
        i = end;
    }
    words
}

/// The lines of a text, without their line endings.
pub fn lines(text: &str) -> (list: Vec<String>)
    ensures
        texts(list@) == lines_from(text@, 0),
{
    let chars = chars_of(text);
    let mut list: Vec<String> = Vec::new();
    let mut i: usize = 0;
    assert(texts(list@) + lines_from(text@, 0) =~= lines_from(text@, 0));
    while i < chars.len()
        invariant
            i <= chars@.len(),
            chars@ == text@,
            texts(list@) + lines_from(text@, i as int) == lines_from(text@, 0),
        decreases chars@.len() - i,
    {
        let mut end: usize = i;
        while end < chars.len() && chars[end] != '\n'
            invariant
                i <= end <= chars@.len(),
                chars@ == text@,
                line_feed_from(text@, i as int) == line_feed_from(text@, end as int),
            decreases chars@.len() - end,
        {
            end += 1;
        }
        let ghost before = texts(list@);
        if end < chars.len() {
            let stop: usize = if end > i && chars[end - 1] == '\r' {
                end - 1
            } else {
                end
            };
            let line = slice_text(&chars, i, stop);
            assert(line@ =~= without_return(text@.subrange(i as int, end as int)));
            list.push(line);
            assert(texts(list@) =~= before.push(line@));
            assert(texts(list@) + lines_from(text@, end + 1) =~= before + lines_from(
                text@,
                i as int,
            ));
            i = end + 1;
        } else {
            let line = slice_text(&chars, i, end);
            list.push(line);
            assert(texts(list@) =~= before.push(line@));
            assert(texts(list@) + lines_from(text@, end as int) =~= before + lines_from(
                text@,
                i as int,
            ));
            i = end;
        }
    }
    assert(texts(list@) + lines_from(text@, i as int) =~= texts(list@));
    list
}

/// `middle`, set between `before` and `after`.
pub fn between(before: &str, middle: &str, after: &str) -> (text: String)
    ensures
        text@ == before@ + middle@ + after@,
{
    let mut text = before.to_owned();
    text.append(middle);
    text.append(after);
    text
}

/// The parts in order, with `sep` between neighbours.
pub fn join(parts: &Vec<String>, sep: &str) -> (text: String)
    ensures
        text@ == joined(texts(parts@), sep@),
{
    let mut text = String::new();
    let ghost all = texts(parts@);
    let mut i: usize = 0;
    assert(all.take(0) =~= Seq::<Seq<char>>::empty());
    while i < parts.len()
        invariant
            i <= parts@.len(),
            all == texts(parts@),
            text@ == joined(all.take(i as int), sep@),
        decreases parts@.len() - i,
    {
        let ghost before = text@;
        if i > 0 {
            text.append(sep);
        }
        text.append(parts[i].as_str());
        proof {
            let now = all.take(i + 1);
            assert(now.drop_last() =~= all.take(i as int));
            assert(now.last() == parts@[i as int]@);
            if i == 0 {
                assert(text@ =~= now.last());
            }
        }
        i += 1;
    }
    assert(all.take(i as int) =~= all);
    text
}

/// `unit` written `n` times over.
pub fn repeat(unit: &str, n: usize) -> (text: String)
    ensures
        text@ == repeated(unit@, n as nat),
{
    let mut text = String::new();
    let mut i: usize = 0;
    while i < n
        invariant
            i <= n,
            text@ == repeated(unit@, i as nat),
        decreases n - i,
    {
        text.append(unit);
        i += 1;
    }
    text
}

/// The characters with every ASCII letter in lower case.
pub fn lower_chars(chars: &Vec<char>) -> (lower: Vec<char>)
    ensures
        lower@ == chars@.map_values(|c: char| ascii_lower(c)),
{
    let mut lower: Vec<char> = Vec::new();
    let mut i: usize = 0;
    while i < chars.len()
        invariant
            i <= chars@.len(),
            lower@.len() == i,
            forall|j: int| 0 <= j < i ==> lower@[j] == ascii_lower(#[trigger] chars@[j]),
        decreases chars@.len() - i,
    {
        let c = chars[i];
        if 'A' <= c && c <= 'Z' {
            lower.push((c as u8 + 32) as char);
        } else {
            lower.push(c);
        }
        i += 1;
    }
    assert(lower@ =~= chars@.map_values(|c: char| ascii_lower(c)));
    lower
}

/// Decimal digits count by their place: each further digit multiplies what
/// is before it by ten.
pub proof fn law_digits_are_positional(s: Seq<char>, c: char)
    ensures
        digits_value(Seq::empty()) == 0,
        '0' <= c <= '9' ==> digits_value(s.push(c)) == 10 * digits_value(s) + (c as int - '0' as int),
        is_digit(c) <==> '0' <= c <= '9',
{
    assert(s.push(c).drop_last() =~= s);
}

/// A number is written in digits only, without leading zeros, and reads
/// back; below zero a minus sign stands before it, and a short one is padded
/// to two digits where that is asked for.
pub proof fn law_numbers_are_written_plainly(n: nat)
    ensures
        digits_value(nat_text(n)) == n,
        forall|i: int| 0 <= i < nat_text(n).len() ==> '0' <= #[trigger] nat_text(n)[i] <= '9',
        nat_text(n).len() > 0,
        n > 0 ==> nat_text(n)[0] != '0',
        n == 0 ==> nat_text(n).len() == 1,
        int_text(n as int) == nat_text(n),
        n > 0 ==> int_text(-(n as int)).len() > 1 && int_text(-(n as int))[0] == '-' && int_text(
            -(n as int),
        ).skip(1) == nat_text(n),
        two_digits(n).len() >= 2,
        n >= 10 ==> two_digits(n) == nat_text(n),
        n < 10 ==> two_digits(n).len() == 2 && two_digits(n)[0] == '0' && two_digits(n)[1]
            == nat_text(n)[0],
    decreases n,
{
    lemma_nat_text_reads_back(n);
    assert forall|i: int| 0 <= i < nat_text(n).len() implies '0' <= #[trigger] nat_text(n)[i]
        <= '9' by {
        assert(is_digit(nat_text(n)[i]));
    }
    if n >= 10 {
        law_numbers_are_written_plainly(n / 10);
        assert(nat_text(n)[0] == nat_text(n / 10)[0]);
        assert(nat_text(n / 10).len() > 0);
    }
    if n > 0 {
        assert(int_text(-(n as int)).skip(1) =~= nat_text(n));
    }
}

/// A numeral is read exactly if it is digits, after a plus sign or not, of a
/// value within the bound; and then as that value.
pub proof fn law_numerals_are_read(s: Seq<char>, max: nat)
    requires
        s.len() > 0,
        forall|i: int| 0 <= i < s.len() ==> '0' <= #[trigger] s[i] <= '9',
    ensures
        digits_value(s) <= max ==> parsed_number(s, max) == Some(digits_value(s)),
        digits_value(s) <= max ==> parsed_number(seq!['+'] + s, max) == Some(digits_value(s)),
        digits_value(s) > max ==> parsed_number(s, max) is None,
        digits_value(s) > max ==> parsed_number(seq!['+'] + s, max) is None,
        parsed_number(Seq::empty(), max) is None,
        parsed_number(seq!['+'], max) is None,
{
    assert(s[0] != '+');
    assert(forall|i: int| 0 <= i < s.len() ==> is_digit(#[trigger] s[i]));
    assert((seq!['+'] + s).skip(1) =~= s);
    assert(seq!['+'].skip(1) =~= Seq::<char>::empty());
}

/// What is not a numeral is not read as one.
pub proof fn law_other_texts_are_no_numerals(s: Seq<char>, max: nat, i: int)
    requires
        0 <= i < s.len(),
        !('0' <= s[i] <= '9'),
        i > 0 || s[i] != '+',
    ensures
        parsed_number(s, max) is None,
{
    let digits = unsigned_part(s);
    if s[0] == '+' {
        assert(digits[i - 1] == s[i]);
        assert(!is_digit(digits[i - 1]));
    } else {
        assert(!is_digit(digits[i]));
    }
}

/// A text begins with a prefix exactly if it is that prefix and something
/// behind it, and holds another text exactly if that stands between
/// something before and behind it.
pub proof fn law_texts_are_found(before: Seq<char>, needle: Seq<char>, behind: Seq<char>)
    ensures
        has_prefix(needle + behind, needle),
        has_text(before + needle + behind, needle),
        occurs_at(before + needle + behind, needle, before.len() as int),
        forall|s: Seq<char>| #[trigger]
            has_prefix(s, needle) ==> needle.len() <= s.len() && s == needle + s.skip(
                needle.len() as int,
            ),
        forall|s: Seq<char>, i: int| #[trigger]
            occurs_at(s, needle, i) ==> 0 <= i && i + needle.len() <= s.len() && s == s.take(i)
                + needle + s.skip(i + needle.len()),
{
    let s = needle + behind;
    assert(s.subrange(0, needle.len() as int) =~= needle);
    let t = before + needle + behind;
    assert(t.subrange(before.len() as int, (before.len() + needle.len()) as int) =~= needle);
    assert(occurs_at(t, needle, before.len() as int));
    assert forall|s: Seq<char>, i: int| #[trigger] occurs_at(s, needle, i) implies 0 <= i && i
        + needle.len() <= s.len() && s == s.take(i) + needle + s.skip(i + needle.len()) by {
        assert(s =~= s.take(i) + s.subrange(i, i + needle.len()) + s.skip(i + needle.len()));
    }
    assert forall|s: Seq<char>| #[trigger] has_prefix(s, needle) implies needle.len() <= s.len()
        && s == needle + s.skip(needle.len() as int) by {
        assert(s =~= s.subrange(0, needle.len() as int) + s.skip(needle.len() as int));
    }
}

/// The first occurrence is found: none stands before it, and there is none
/// at all if none is found.
pub proof fn law_first_occurrence_is_found(s: Seq<char>, needle: Seq<char>, from: int)
    requires
        0 <= from,
    ensures
        find_from(s, needle, from) matches Some(k) ==> {
            &&& from <= k
            &&& occurs_at(s, needle, k)
            &&& forall|j: int| from <= j < k ==> !#[trigger] occurs_at(s, needle, j)
        },
        find_from(s, needle, from) is None ==> forall|j: int|
            j >= from ==> !#[trigger] occurs_at(s, needle, j),
    decreases s.len() + 1 - from,
{
    if from + needle.len() <= s.len() && !occurs_at(s, needle, from) {
        law_first_occurrence_is_found(s, needle, from + 1);
    }
}

/// The first line that is not blank is found: all before it are blank.
pub proof fn law_first_solid_line(lines: Seq<Seq<char>>, k: int)
    ensures
        0 <= k < lines.len() && !is_blank(lines[k]) && (forall|j: int|
            0 <= j < k ==> is_blank(#[trigger] lines[j])) ==> first_solid_from(lines, 0) == Some(
            lines[k],
        ),
        (forall|j: int| 0 <= j < lines.len() ==> is_blank(#[trigger] lines[j]))
            ==> first_solid_from(lines, 0) is None,
{
    lemma_first_solid(lines, k, 0);
}

proof fn lemma_first_solid(lines: Seq<Seq<char>>, k: int, from: int)
    requires
        0 <= from,
    ensures
        from <= k < lines.len() && !is_blank(lines[k]) && (forall|j: int|
            from <= j < k ==> is_blank(#[trigger] lines[j])) ==> first_solid_from(lines, from)
            == Some(lines[k]),
        (forall|j: int| from <= j < lines.len() ==> is_blank(#[trigger] lines[j]))
            ==> first_solid_from(lines, from) is None,
    decreases lines.len() - from,
{
    if from < lines.len() {
        lemma_first_solid(lines, k, from + 1);
    }
}

/// A text is blank exactly if it holds white space only; spaces, tabs and
/// line ends are white space, and no printable ASCII character is.
pub proof fn law_blank_texts_hold_white_space_only(s: Seq<char>, c: char)
    ensures
        is_blank(s) <==> (forall|i: int| 0 <= i < s.len() ==> is_space(#[trigger] s[i])),
        is_blank(Seq::empty()),
        is_space(' ') && is_space('\t') && is_space('\n') && is_space('\r'),
        '!' <= c <= '~' ==> !is_space(c),
        is_space(c) <==> {
            ||| '\u{9}' <= c <= '\u{d}'
            ||| c == ' '
            ||| c == '\u{85}'
            ||| c == '\u{a0}'
            ||| c == '\u{1680}'
            ||| '\u{2000}' <= c <= '\u{200a}'
            ||| c == '\u{2028}'
            ||| c == '\u{2029}'
            ||| c == '\u{202f}'
            ||| c == '\u{205f}'
            ||| c == '\u{3000}'
        },
{
}

/// A padded number reads back, in digits only.
pub proof fn law_two_digits_read_back(n: nat)
    ensures
        digits_value(two_digits(n)) == n,
        two_digits(n).len() >= 2,
        n < 100 ==> two_digits(n).len() == 2,
        forall|i: int| 0 <= i < two_digits(n).len() ==> '0' <= #[trigger] two_digits(n)[i] <= '9',
{
    law_numbers_are_written_plainly(n);
    if n < 10 {
        let c = nat_text(n)[0];
        law_digits_are_positional(seq!['0'], c);
        law_digits_are_positional(Seq::empty(), '0');
        law_digits_are_positional(Seq::empty(), c);
        assert(Seq::<char>::empty().push('0') =~= seq!['0']);
        assert(Seq::<char>::empty().push(c) =~= nat_text(n));
        assert(two_digits(n) =~= seq!['0'].push(c));
    } else if n < 100 {
        assert(nat_text(n / 10).len() == 1);
    }
}

/// The text within an optional text, and the texts of a list, are just that.
pub proof fn law_views_of_texts(t: String, list: Seq<String>, i: int)
    ensures
        opt_text(Some(t)) == Some(t@),
        opt_text(None) is None,
        result_text(Ok(t)) == Ok::<Seq<char>, Seq<char>>(t@),
        result_text(Err(t)) == Err::<Seq<char>, Seq<char>>(t@),
        texts(list).len() == list.len(),
        0 <= i < list.len() ==> texts(list)[i] == list[i]@,
{
}

/// Trimming takes white space off both ends and nothing else: what is left
/// begins and ends with something else, or is empty.
pub proof fn law_trimming_takes_white_space_off(s: Seq<char>)
    ensures
        trimmed(s).len() > 0 ==> !is_space(trimmed(s)[0]) && !is_space(trimmed(s).last()),
        exists|a: Seq<char>, b: Seq<char>| #[trigger]
            (a + trimmed(s) + b) == s && is_blank(a) && is_blank(b),
{
    lemma_scan(s, 0, false);
    let start = scan(s, 0, false);
    let front = s.skip(start);
    lemma_solid_len(front);
    let end = solid_len(front);
    let a = s.take(start);
    let b = front.skip(end);
    assert(a + trimmed(s) + b =~= s);
    assert forall|i: int| 0 <= i < a.len() implies is_space(#[trigger] a[i]) by {
        assert(is_space(s[i]));
    }
    assert forall|i: int| 0 <= i < b.len() implies is_space(#[trigger] b[i]) by {
        assert(is_space(front[end + i]));
    }
    if trimmed(s).len() > 0 {
        assert(trimmed(s)[0] == s[start]);
        assert(trimmed(s).last() == front[end - 1]);
    }
}

proof fn lemma_solid_len(s: Seq<char>)
    ensures
        0 <= solid_len(s) <= s.len(),
        solid_len(s) > 0 ==> !is_space(s[solid_len(s) - 1]),
        forall|i: int| solid_len(s) <= i < s.len() ==> is_space(#[trigger] s[i]),
    decreases s.len(),
{
    if s.len() > 0 && is_space(s.last()) {
        let init = s.drop_last();
        lemma_solid_len(init);
        assert forall|i: int| solid_len(s) <= i < s.len() implies is_space(#[trigger] s[i]) by {
            if i < init.len() {
                assert(is_space(init[i]));
            }
        }
        if solid_len(s) > 0 {
            assert(init[solid_len(s) - 1] == s[solid_len(s) - 1]);
        }
    }
}

proof fn lemma_line_feed_shifts(before: Seq<char>, s: Seq<char>, i: int)
    requires
        0 <= i <= s.len(),
    ensures
        line_feed_from(before + s, before.len() + i) == before.len() + line_feed_from(s, i),
    decreases s.len() - i,
{
    if i < s.len() {
        assert((before + s)[before.len() + i] == s[i]);
        lemma_line_feed_shifts(before, s, i + 1);
    }
}

proof fn lemma_lines_shift(before: Seq<char>, s: Seq<char>, i: int)
    requires
        0 <= i <= s.len(),
    ensures
        lines_from(before + s, before.len() + i) == lines_from(s, i),
    decreases s.len() - i,
{
    let all = before + s;
    if i < s.len() {
        lemma_line_feed_shifts(before, s, i);
        lemma_line_feed(s, i);
        let end = line_feed_from(s, i);
        assert(all.subrange(before.len() + i, before.len() + end) =~= s.subrange(i, end));
        if end < s.len() {
            lemma_lines_shift(before, s, end + 1);
        }
    }
}

proof fn lemma_no_line_feed(line: Seq<char>, rest: Seq<char>, i: int)
    requires
        0 <= i <= line.len(),
        forall|j: int| 0 <= j < line.len() ==> #[trigger] line[j] != '\n',
        rest.len() > 0 ==> rest[0] == '\n',
    ensures
        line_feed_from(line + rest, i) == line.len(),
    decreases line.len() - i,
{
    let all = line + rest;
    if i < line.len() {
        assert(all[i] == line[i]);
        lemma_no_line_feed(line, rest, i + 1);
    } else if rest.len() > 0 {
        assert(all[i] == rest[0]);
    }
}

/// A text falls into lines at its line feeds: what stands before the first
/// one is the first line, without a carriage return at its end, and the rest
/// follows. What no line feed ends is a line too, unless it is empty.
pub proof fn law_lines_end_at_line_feeds(line: Seq<char>, rest: Seq<char>)
    requires
        forall|i: int| 0 <= i < line.len() ==> #[trigger] line[i] != '\n',
    ensures
        lines_from(line + seq!['\n'] + rest, 0) == seq![
            if line.len() > 0 && line.last() == '\r' {
                line.drop_last()
            } else {
                line
            },
        ] + lines_from(rest, 0),
        line.len() > 0 ==> lines_from(line, 0) == seq![line],
        lines_from(Seq::empty(), 0).len() == 0,
{
    let head = line + seq!['\n'];
    let all = head + rest;
    assert(all =~= line + (seq!['\n'] + rest));
    lemma_no_line_feed(line, seq!['\n'] + rest, 0);
    assert(all.subrange(0, line.len() as int) =~= line);
    lemma_lines_shift(head, rest, 0);
    lemma_no_line_feed(line, Seq::empty(), 0);
    assert(line + Seq::<char>::empty() =~= line);
    assert(line.subrange(0, line.len() as int) =~= line);
}

proof fn lemma_scan_shifts(before: Seq<char>, s: Seq<char>, i: int, space: bool)
    requires
        0 <= i <= s.len(),
    ensures
        scan(before + s, before.len() + i, space) == before.len() + scan(s, i, space),
    decreases s.len() - i,
{
    if i < s.len() {
        assert((before + s)[before.len() + i] == s[i]);
        lemma_scan_shifts(before, s, i + 1, space);
    }
}

proof fn lemma_words_shift(before: Seq<char>, s: Seq<char>, i: int)
    requires
        0 <= i <= s.len(),
    ensures
        words_from(before + s, before.len() + i) == words_from(s, i),
    decreases s.len() - i,
{
    let all = before + s;
    lemma_scan_shifts(before, s, i, false);
    lemma_scan(s, i, false);
    let start = scan(s, i, false);
    if start < s.len() {
        lemma_scan_shifts(before, s, start, true);
        lemma_scan(s, start, true);
        let end = scan(s, start, true);
        assert(all.subrange(before.len() + start, before.len() + end) =~= s.subrange(start, end));
        lemma_words_shift(before, s, end);
    }
}

proof fn lemma_scan_stops(s: Seq<char>, i: int, end: int, space: bool)
    requires
        0 <= i <= end <= s.len(),
        forall|j: int| i <= j < end ==> is_space(#[trigger] s[j]) != space,
        end < s.len() ==> is_space(s[end]) == space,
    ensures
        scan(s, i, space) == end,
    decreases end - i,
{
    if i < end {
        lemma_scan_stops(s, i + 1, end, space);
    }
}

/// A text falls into words at its white space: a run without any is the next
/// word if white space or nothing follows, and white space before a word
/// does not matter.
pub proof fn law_words_are_told_by_white_space(word: Seq<char>, rest: Seq<char>, c: char)
    requires
        word.len() > 0,
        forall|i: int| 0 <= i < word.len() ==> !is_space(#[trigger] word[i]),
        rest.len() == 0 || is_space(rest[0]),
        is_space(c),
    ensures
        words_from(word + rest, 0) == seq![word] + words_from(rest, 0),
        forall|s: Seq<char>| #[trigger] words_from(seq![c] + s, 0) == words_from(s, 0),
        words_from(Seq::empty(), 0).len() == 0,
{
    let all = word + rest;
    assert(all[0] == word[0]);
    lemma_scan_stops(all, 0, 0, false);
    assert forall|j: int| 0 <= j < word.len() implies is_space(#[trigger] all[j]) != true by {
        assert(all[j] == word[j]);
    }
    lemma_scan_stops(all, 0, word.len() as int, true);
    assert(all.subrange(0, word.len() as int) =~= word);
    lemma_words_shift(word, rest, 0);
    assert forall|s: Seq<char>| #[trigger] words_from(seq![c] + s, 0) == words_from(s, 0) by {
        let longer = seq![c] + s;
        assert(longer[0] == c);
        lemma_words_shift(seq![c], s, 0);
        assert(scan(longer, 0, false) == scan(longer, 1, false));
        assert(words_from(longer, 0) == words_from(longer, 1)) by {
            lemma_scan(longer, 1, false);
        }
    }
}

/// Joining puts the separator between neighbours, and nowhere else.
pub proof fn law_joining_puts_separators_between(
    parts: Seq<Seq<char>>,
    part: Seq<char>,
    sep: Seq<char>,
)
    ensures
        joined(Seq::empty(), sep).len() == 0,
        joined(seq![part], sep) == part,
        parts.len() > 0 ==> joined(parts.push(part), sep) == joined(parts, sep) + sep + part,
{
    assert(seq![part].drop_last() =~= Seq::<Seq<char>>::empty());
    assert(parts.push(part).drop_last() =~= parts);
}

/// A text written several times over is that many copies of it.
pub proof fn law_repeating_writes_copies(unit: Seq<char>, n: nat)
    ensures
        repeated(unit, 0).len() == 0,
        repeated(unit, n + 1) == repeated(unit, n) + unit,
        repeated(unit, n).len() == n * unit.len(),
    decreases n,
{
    if n > 0 {
        law_repeating_writes_copies(unit, (n - 1) as nat);
        assert(n * unit.len() == (n - 1) * unit.len() + unit.len()) by (nonlinear_arith)
            requires
                n > 0,
        ;
    } else {
        assert(0 * unit.len() == 0);
    }
}

/// Lower case changes the letters from A to Z and nothing else.
pub proof fn law_lower_case(c: char)
    ensures
        'A' <= c <= 'Z' ==> 'a' <= ascii_lower(c) <= 'z' && ascii_lower(c) as int - 'a' as int
            == c as int - 'A' as int,
        !('A' <= c <= 'Z') ==> ascii_lower(c) == c,
{
}

} // verus!
