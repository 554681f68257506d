//! Text operations, stated over sequences of characters.

use vstd::prelude::*;

verus! {

broadcast use vstd::string::group_string_axioms;

/// Appending one character to a string: `String::push` puts `c` behind the
/// characters already there.
pub assume_specification[ String::push ](s: &mut String, c: char)
    ensures
        final(s)@ == old(s)@.push(c),
;

/// The views of a list of strings.
pub open spec fn views(list: Seq<String>) -> Seq<Seq<char>> {
    list.map_values(|s: String| s@)
}

/// The view of an optional string.
pub open spec fn opt_view(s: Option<String>) -> Option<Seq<char>> {
    match s {
        Some(s) => Some(s@),
        None => None,
    }
}

/// The characters of `text`, one by one.
pub fn chars_of(text: &str) -> (chars: Vec<char>)
    ensures
        chars@ == text@,
{
    let mut chars: Vec<char> = Vec::new();
    for c in iter: text.chars()
        invariant
            chars@ == iter.seq().take(iter.index()),
            iter.seq() == text@,
    {
        chars.push(c);
    }
    chars
}

/// Whether two texts hold the same characters.
pub fn text_eq(a: &str, b: &str) -> (same: bool)
    ensures
        same == (a@ == b@),
{
    let owned: String = a.to_owned();
    owned == b.to_owned()
}

/// Whether `list` holds `text`.
pub fn list_contains(list: &Vec<String>, text: &str) -> (found: bool)
    ensures
        found == views(list@).contains(text@),
{
    let wanted: String = text.to_owned();
    for i in 0..list.len()
        invariant
            wanted@ == text@,
            forall|j: int| 0 <= j < i ==> (#[trigger] list@[j])@ != text@,
    {
        if list[i] == wanted {
            assert(views(list@)[i as int] == text@);
            return true;
        }
    }
    assert forall|j: int| 0 <= j < views(list@).len() implies views(list@)[j] != text@ by {
        assert(list@[j]@ != text@);
    }
    false
}

/// A copy of an optional string.
pub fn clone_opt(s: &Option<String>) -> (copy: Option<String>)
    ensures
        copy == *s,
{
    match s {
        Some(s) => Some(s.clone()),
        None => None,
    }
}

/// A copy of a list of strings.
pub fn clone_list(list: &Vec<String>) -> (copy: Vec<String>)
    ensures
        copy@ == list@,
{
    let mut copy: Vec<String> = Vec::new();
    for i in 0..list.len()
        invariant
            copy@ == list@.take(i as int),
    {
        copy.push(list[i].clone());
        assert(list@.take(i + 1) == list@.take(i as int).push(list@[i as int]));
    }
    assert(list@.take(list@.len() as int) == list@);
    copy
}

// ---------------------------------------------------------------------------
// Character classes
// ---------------------------------------------------------------------------

/// The characters with the Unicode property White_Space.
pub open spec fn is_space(c: char) -> bool {
    let n = c as u32;
    ||| 0x9 <= n <= 0xd
    ||| n == 0x20
    ||| n == 0x85
    ||| n == 0xa0
    ||| n == 0x1680
    ||| 0x2000 <= n <= 0x200a
    ||| n == 0x2028
    ||| n == 0x2029
    ||| n == 0x202f
    ||| n == 0x205f
    ||| n == 0x3000
}

/// Whether `c` is white space.
pub fn is_whitespace(c: char) -> (r: bool)
    ensures
        r == is_space(c),
{
    let n: u32 = c as u32;
    (0x9 <= n && n <= 0xd) || n == 0x20 || n == 0x85 || n == 0xa0 || n == 0x1680 || (0x2000 <= n
        && n <= 0x200a) || n == 0x2028 || n == 0x2029 || n == 0x202f || n == 0x205f || n == 0x3000
}

/// The ten decimal digits.
pub open spec fn is_digit(c: char) -> bool {
    '0' as u32 <= c as u32 <= '9' as u32
}

/// A decimal digit's value.
pub open spec fn digit_value(c: char) -> nat {
    (c as u32 - '0' as u32) as nat
}

/// The digit that stands for `d`.
pub open spec fn digit(d: nat) -> char {
    (d + '0' as u32) as char
}

// ---------------------------------------------------------------------------
// Trimming
// ---------------------------------------------------------------------------

/// `s` without the leading and trailing characters of the class `drop`.
pub open spec fn strip_ends(s: Seq<char>, drop: spec_fn(char) -> bool) -> Seq<char>
    decreases s.len(),
{
    if s.len() > 0 && drop(s.first()) {
        strip_ends(s.drop_first(), drop)
    } else if s.len() > 0 && drop(s.last()) {
        strip_ends(s.drop_last(), drop)
    } else {
        s
    }
}

/// `s` without leading and trailing white space.
pub open spec fn trimmed(s: Seq<char>) -> Seq<char> {
    strip_ends(s, |c: char| is_space(c))
}

/// What is left of a text after [`strip_ends`] neither starts nor ends with a
/// dropped character.
pub proof fn lemma_strip_ends_is_clean(s: Seq<char>, drop: spec_fn(char) -> bool)
    ensures
        strip_ends(s, drop).len() > 0 ==> !drop(strip_ends(s, drop).first()) && !drop(
            strip_ends(s, drop).last(),
        ),
    decreases s.len(),
{
    if s.len() > 0 && drop(s.first()) {
        lemma_strip_ends_is_clean(s.drop_first(), drop);
    } else if s.len() > 0 && drop(s.last()) {
        lemma_strip_ends_is_clean(s.drop_last(), drop);
    }
}

/// The bounds of what [`strip_ends`] leaves of `chars`.
fn inner_range(
    chars: &Vec<char>,
    drop: impl Fn(char) -> bool,
    Ghost(p): Ghost<spec_fn(char) -> bool>,
) -> (bounds: (usize, usize))
    requires
        forall|c: char| #[trigger] call_requires(drop, (c,)),
        forall|c: char, b: bool| #[trigger] call_ensures(drop, (c,), b) ==> b == p(c),
    ensures
        bounds.0 <= bounds.1 <= chars@.len(),
        chars@.subrange(bounds.0 as int, bounds.1 as int) == strip_ends(chars@, p),
{
    let mut from: usize = 0;
    let mut to: usize = chars.len();
    assert(chars@.subrange(0, to as int) == chars@);
    while from < to && drop(chars[from])
        invariant
            from <= to == chars@.len(),
            strip_ends(chars@, p) == strip_ends(chars@.subrange(from as int, to as int), p),
            forall|c: char| #[trigger] call_requires(drop, (c,)),
            forall|c: char, b: bool| #[trigger] call_ensures(drop, (c,), b) ==> b == p(c),
        ensures
            from <= to == chars@.len(),
            from < to ==> !p(chars@[from as int]),
            strip_ends(chars@, p) == strip_ends(chars@.subrange(from as int, to as int), p),
        decreases to - from,
    {
        assert(chars@.subrange(from as int, to as int).drop_first() == chars@.subrange(
            from + 1,
            to as int,
        ));
        from += 1;
    }
    while from < to && drop(chars[to - 1])
        invariant
            from <= to <= chars@.len(),
            from < to ==> !p(chars@[from as int]),
            strip_ends(chars@, p) == strip_ends(chars@.subrange(from as int, to as int), p),
            forall|c: char| #[trigger] call_requires(drop, (c,)),
            forall|c: char, b: bool| #[trigger] call_ensures(drop, (c,), b) ==> b == p(c),
        ensures
            from <= to <= chars@.len(),
            from < to ==> !p(chars@[from as int]) && !p(chars@[to - 1]),
            strip_ends(chars@, p) == strip_ends(chars@.subrange(from as int, to as int), p),
        decreases to - from,
    {
        assert(chars@.subrange(from as int, to as int).drop_last() == chars@.subrange(
            from as int,
            to - 1,
        ));
        to -= 1;
    }
    (from, to)
}

/// `text` without leading and trailing white space.
pub fn trim(text: &str) -> (r: &str)
    ensures
        r@ == trimmed(text@),
{
    let chars = chars_of(text);
    let ghost p = |c: char| is_space(c);
    let bounds = inner_range(&chars, is_whitespace, Ghost(p));
    text.substring_char(bounds.0, bounds.1)
}

// ---------------------------------------------------------------------------
// Tool tokens
// ---------------------------------------------------------------------------

/// One character of a tool token: ASCII letters in lower case, digits and `_`
/// as they are, anything else as `_`.
pub open spec fn token_char(c: char) -> char {
    let n = c as u32;
    if 0x41 <= n <= 0x5a {
        (n + 32) as char
    } else if 0x61 <= n <= 0x7a || is_digit(c) {
        c
    } else {
        '_'
    }
}

/// The token made of `input`: its characters mapped by [`token_char`], without
/// leading and trailing `_`; `tool` where nothing is left.
pub open spec fn sanitized(input: Seq<char>) -> Seq<char> {
    let token = strip_ends(input.map_values(|c: char| token_char(c)), |c: char| c == '_');
    if token.len() == 0 {
        "tool"@
    } else {
        token
    }
}

/// Whether `c` is `_`.
fn is_underscore(c: char) -> (r: bool)
    ensures
        r == (c == '_'),
{
    c == '_'
}

/// Turns any text into a token that is safe in a function name.
pub fn sanitize_tool_token(input: &str) -> (token: String)
    ensures
        token@ == sanitized(input@),
{
    let chars = chars_of(input);
    let mut mapped: Vec<char> = Vec::new();
    let mut out = String::new();
    for i in 0..chars.len()
        invariant
            chars@ == input@,
            mapped@ == chars@.take(i as int).map_values(|c: char| token_char(c)),
            out@ == mapped@,
    {
        let c: char = chars[i];
        let n: u32 = c as u32;
        let m: char = if 0x41 <= n && n <= 0x5a {
            ((n + 32) as u8) as char
        } else if (0x61 <= n && n <= 0x7a) || (0x30 <= n && n <= 0x39) {
            c
        } else {
            '_'
        };
        mapped.push(m);
        out.push(m);
        assert(chars@.take(i + 1) == chars@.take(i as int).push(c));
    }
    assert(chars@.take(chars@.len() as int) == input@);
    let ghost p = |c: char| c == '_';
    let bounds = inner_range(&mapped, is_underscore, Ghost(p));
    let token = out.as_str().substring_char(bounds.0, bounds.1);
    if token.is_empty() {
        "tool".to_owned()
    } else {
        token.to_owned()
    }
}

// ---------------------------------------------------------------------------
// Prefixes and occurrences
// ---------------------------------------------------------------------------

/// Whether `needle` stands in `s` at position `at`.
pub open spec fn occurs_at(s: Seq<char>, needle: Seq<char>, at: int) -> bool {
    &&& 0 <= at
    &&& at + needle.len() <= s.len()
    &&& s.subrange(at, at + needle.len()) == needle
}

/// Whether `s` starts with `prefix`.
pub open spec fn has_prefix(s: Seq<char>, prefix: Seq<char>) -> bool {
    occurs_at(s, prefix, 0)
}

/// Whether `needle` stands somewhere in `s`.
pub open spec fn has_part(s: Seq<char>, needle: Seq<char>) -> bool {
    exists|at: int| occurs_at(s, needle, at)
}

/// Whether `needle` stands in `s` at position `at`.
fn matches_at(s: &Vec<char>, needle: &Vec<char>, at: usize) -> (r: bool)
    requires
        at <= s@.len(),
    ensures
        r == occurs_at(s@, needle@, at as int),
{
    if needle.len() > s.len() - at {
        return false;
    }
    for i in 0..needle.len()
        invariant
            at + needle@.len() <= s.len(),
            forall|j: int| 0 <= j < i ==> s@[at + j] == needle@[j],
    {
        if s[at + i] != needle[i] {
            assert(s@.subrange(at as int, at + needle@.len())[i as int] != needle@[i as int]);
            return false;
        }
    }
    assert(s@.subrange(at as int, at + needle@.len()) =~= needle@);
    true
}

/// Whether `text` starts with `prefix`.
pub fn starts_with(text: &str, prefix: &str) -> (r: bool)
    ensures
        r == has_prefix(text@, prefix@),
{
    let chars = chars_of(text);
    let wanted = chars_of(prefix);
    matches_at(&chars, &wanted, 0)
}

/// Whether `needle` stands somewhere in `text`.
pub fn contains(text: &str, needle: &str) -> (r: bool)
    ensures
        r == has_part(text@, needle@),
{
    let chars = chars_of(text);
    let wanted = chars_of(needle);
    let mut at: usize = 0;
    while at < chars.len()
        invariant
            at <= chars@.len(),
            chars@ == text@,
            wanted@ == needle@,
            forall|k: int| 0 <= k < at ==> !occurs_at(text@, needle@, k),
        decreases chars@.len() - at,
    {
        if matches_at(&chars, &wanted, at) {
            return true;
        }
        at += 1;
    }
    matches_at(&chars, &wanted, at)
}

/// What follows `prefix` in `s`, where `s` starts with it.
pub open spec fn after_prefix(s: Seq<char>, prefix: Seq<char>) -> Option<Seq<char>> {
    if has_prefix(s, prefix) {
        Some(s.skip(prefix.len() as int))
    } else {
        None
    }
}

/// What follows `prefix` in `text`, where `text` starts with it.
pub fn strip_prefix<'a>(text: &'a str, prefix: &str) -> (r: Option<&'a str>)
    ensures
        match r {
            Some(rest) => after_prefix(text@, prefix@) == Some(rest@),
            None => after_prefix(text@, prefix@) is None,
        },
{
    let chars = chars_of(text);
    let wanted = chars_of(prefix);
    if matches_at(&chars, &wanted, 0) {
        Some(text.substring_char(wanted.len(), chars.len()))
    } else {
        None
    }
}

// ---------------------------------------------------------------------------
// Lines
// ---------------------------------------------------------------------------

/// The position of the first `c` at or behind `from`; the length of `s` where
/// there is none.
pub open spec fn next_index(s: Seq<char>, c: char, from: int) -> int
    decreases s.len() - from,
{
    if from >= s.len() {
        s.len() as int
    } else if s[from] == c {
        from
    } else {
        next_index(s, c, from + 1)
    }
}

proof fn lemma_next_index_range(s: Seq<char>, c: char, from: int)
    requires
        0 <= from <= s.len(),
    ensures
        from <= next_index(s, c, from) <= s.len(),
    decreases s.len() - from,
{
    if from < s.len() && s[from] != c {
        lemma_next_index_range(s, c, from + 1);
    }
}

/// A line without the carriage return at its end, if it has one.
pub open spec fn chomped(line: Seq<char>) -> Seq<char> {
    if line.len() > 0 && line.last() == '\r' {
        line.drop_last()
    } else {
        line
    }
}

/// The lines of `s` from position `from` on. A line ends at `\n` or `\r\n`; an
/// empty remainder behind the last line end is no line.
pub open spec fn lines_from(s: Seq<char>, from: int) -> Seq<Seq<char>>
    decreases s.len() - from,
{
    if from < 0 || from >= s.len() {
        Seq::empty()
    } else {
        let end = next_index(s, '\n', from);
        if end < from || end >= s.len() {
            seq![s.skip(from)]
        } else {
            seq![chomped(s.subrange(from, end))] + lines_from(s, end + 1)
        }
    }
}

/// The lines of a text, without their line ends.
pub open spec fn lines_of(s: Seq<char>) -> Seq<Seq<char>> {
    lines_from(s, 0)
}

/// The lines of `text`, without their line ends.
pub fn lines(text: &str) -> (r: Vec<String>)
    ensures
        views(r@) == lines_of(text@),
{
    let chars = chars_of(text);
    let mut r: Vec<String> = Vec::new();
    let mut from: usize = 0;
    while from < chars.len()
        invariant
            chars@ == text@,
            from <= chars@.len(),
            views(r@) + lines_from(text@, from as int) == lines_of(text@),
        decreases chars@.len() - from,
    {
        let ghost before = views(r@);
        let mut end: usize = from;
        while end < chars.len() && chars[end] != '\n'
            invariant
                from <= end <= chars@.len(),
                chars@ == text@,
                next_index(text@, '\n', from as int) == next_index(text@, '\n', end as int),
            ensures
                from <= end <= chars@.len(),
                end == next_index(text@, '\n', from as int),
            decreases chars@.len() - end,
        {
            end += 1;
        }
        let has_end: bool = end < chars.len();
        let to: usize = if has_end && end > from && chars[end - 1] == '\r' {
            end - 1
        } else {
            end
        };
        let line: String = text.substring_char(from, to).to_owned();
        let ghost line_view = line@;
        proof {
            let cut = text@.subrange(from as int, end as int);
            if has_end {
                assert(line@ == chomped(cut)) by {
                    if cut.len() > 0 && cut.last() == '\r' {
                        assert(cut.drop_last() == text@.subrange(from as int, end - 1));
                    }
                }
            } else {
                assert(line@ == text@.skip(from as int));
            }
        }
        r.push(line);
        assert(views(r@) == before.push(line_view));
        if has_end {
            assert(lines_from(text@, from as int) == seq![line_view] + lines_from(text@, end + 1));
            from = end + 1;
        } else {
            assert(lines_from(text@, from as int) == seq![line_view]);
            from = end;
        }
        assert(views(r@) + lines_from(text@, from as int) == lines_of(text@)) by {
            assert(before.push(line_view) + lines_from(text@, from as int) =~= before + (
            seq![line_view] + lines_from(text@, from as int)));
        }
    }
    assert(views(r@) + lines_from(text@, from as int) == views(r@));
    r
}

/// Whether a text stands on one line and starts without white space.
pub open spec fn is_one_line(s: Seq<char>) -> bool {
    &&& s.len() > 0
    &&& !is_space(s.first())
    &&& forall|i: int| 0 <= i < s.len() ==> s[i] != '\n' && s[i] != '\r'
}

/// The texts of a list, with `sep` between them.
pub open spec fn joined(list: Seq<Seq<char>>, sep: Seq<char>) -> Seq<char>
    decreases list.len(),
{
    if list.len() == 0 {
        Seq::empty()
    } else if list.len() == 1 {
        list[0]
    } else {
        joined(list.drop_last(), sep) + sep + list.last()
    }
}

/// The texts of `list`, with `sep` between them.
pub fn join(list: &Vec<String>, sep: &str) -> (r: String)
    ensures
        r@ == joined(views(list@), sep@),
{
    let mut r = String::new();
    for i in 0..list.len()
        invariant
            r@ == joined(views(list@).take(i as int), sep@),
    {
        if i > 0 {
            r.append(sep);
        }
        r.append(list[i].as_str());
        proof {
            let next = views(list@).take(i + 1);
            assert(next.drop_last() =~= views(list@).take(i as int));
            assert(next.last() == list@[i as int]@);
            if i == 0 {
                assert(r@ =~= next[0]);
            }
        }
    }
    assert(views(list@).take(list@.len() as int) =~= views(list@));
    r
}

// ---------------------------------------------------------------------------
// Numerals
// ---------------------------------------------------------------------------

/// The decimal numeral of `n`, without leading zeros.
pub open spec fn decimal(n: nat) -> Seq<char>
    decreases n,
{
    if n < 10 {
        seq![digit(n)]
    } else {
        decimal(n / 10).push(digit(n % 10))
    }
}

/// The number that a sequence of digits denotes.
pub open spec fn digits_value(s: Seq<char>) -> nat
    decreases s.len(),
{
    if s.len() == 0 {
        0
    } else {
        10 * digits_value(s.drop_last()) + digit_value(s.last())
    }
}

/// Whether `s` is a non-empty sequence of digits.
pub open spec fn is_numeral(s: Seq<char>) -> bool {
    s.len() > 0 && forall|i: int| 0 <= i < s.len() ==> is_digit(#[trigger] s[i])
}

/// The value of `s` as an unsigned 64-bit integer.
pub open spec fn u64_of(s: Seq<char>) -> Option<u64> {
    if is_numeral(s) && digits_value(s) <= u64::MAX {
        Some(digits_value(s) as u64)
    } else {
        None
    }
}

/// A numeral denotes the number that it was made of.
pub proof fn lemma_decimal_value(n: nat)
    ensures
        is_numeral(decimal(n)),
        digits_value(decimal(n)) == n,
    decreases n,
{
    if n < 10 {
        assert(digit(n) as u32 == n + '0' as u32);
        assert(decimal(n).drop_last() == Seq::<char>::empty());
        assert(digits_value(Seq::<char>::empty()) == 0);
        assert(decimal(n).last() == digit(n));
    } else {
        lemma_decimal_value(n / 10);
        let d = n % 10;
        assert(digit(d) as u32 == d + '0' as u32);
        assert(decimal(n).drop_last() == decimal(n / 10));
        assert(decimal(n).last() == digit(d));
    }
}

/// Different numbers have different numerals.
pub proof fn lemma_decimal_injective(a: nat, b: nat)
    requires
        decimal(a) == decimal(b),
    ensures
        a == b,
{
    lemma_decimal_value(a);
    lemma_decimal_value(b);
}

/// The decimal numeral of `n`.
pub fn decimal_text(n: u64) -> (text: String)
    ensures
        text@ == decimal(n as nat),
    decreases n,
{
    if n < 10 {
        let mut text = String::new();
        text.push(((n as u8) + 48) as char);
        assert(text@ == decimal(n as nat));
        text
    } else {
        let mut text = decimal_text(n / 10);
        let d: u8 = (n % 10) as u8;
        text.push((d + 48) as char);
        text
    }
}

/// Reads `text` as an unsigned 64-bit integer.
pub fn parse_u64(text: &str) -> (r: Option<u64>)
    ensures
        r == u64_of(text@),
{
    let chars = chars_of(text);
    if chars.len() == 0 {
        return None;
    }
    let mut value: u64 = 0;
    for i in 0..chars.len()
        invariant
            chars@ == text@,
            value == digits_value(text@.take(i as int)),
            forall|j: int| 0 <= j < i ==> is_digit(#[trigger] text@[j]),
    {
        let n: u32 = chars[i] as u32;
        if n < 48 || n > 57 {
            assert(!is_digit(text@[i as int]));
            return None;
        }
        let d: u64 = (n - 48) as u64;
        assert(text@.take(i + 1).drop_last() == text@.take(i as int));
        assert(digits_value(text@.take(i + 1)) == 10 * value + d);
        if value > (u64::MAX - d) / 10 {
            proof {
                lemma_digits_value_grows(text@, i + 1);
            }
            return None;
        }
        value = value * 10 + d;
    }
    assert(text@.take(text@.len() as int) == text@);
    Some(value)
}

proof fn lemma_digits_value_grows(s: Seq<char>, n: int)
    requires
        0 <= n <= s.len(),
    ensures
        digits_value(s.take(n)) <= digits_value(s),
    decreases s.len(),
{
    if n < s.len() {
        lemma_digits_value_grows(s.drop_last(), n);
        assert(s.drop_last().take(n) == s.take(n));
    } else {
        assert(s.take(n) == s);
    }
}

} // verus!
