//! Laws of texts and of the blocks of a stream.

use vstd::prelude::*;

use crate::order::{ascending, text_le};
use crate::sse::{
    blank_line, block_data, data_lines, event_name, has_data, other_lines, rebuilt, trimmed_start,
    with_payload,
};
use crate::text::{
    after_prefix, decimal, digit, has_part, has_prefix, is_space, joined, lemma_decimal_value,
    lemma_strip_ends_is_clean, lines_of, occurs_at, sanitized, strip_ends, token_char, trimmed,
    u64_of,
};

verus! {

broadcast use vstd::string::group_string_axioms;

/// Blanks, tabs and line ends are white space; visible ASCII characters are not.
pub proof fn law_white_space(c: char)
    ensures
        is_space(' ') && is_space('\t') && is_space('\n') && is_space('\r'),
        0x21 <= c as u32 <= 0x7e ==> !is_space(c),
{
}

/// Whether `s` holds only dropped characters before `a` and from `b` on.
spec fn dropped_around(s: Seq<char>, drop: spec_fn(char) -> bool, a: int, b: int) -> bool {
    forall|i: int| 0 <= i < s.len() && (i < a || b <= i) ==> drop(#[trigger] s[i])
}

proof fn lemma_strip_ends(s: Seq<char>, drop: spec_fn(char) -> bool) -> (r: (int, int))
    ensures
        0 <= r.0 <= r.1 <= s.len(),
        s.subrange(r.0, r.1) == strip_ends(s, drop),
        dropped_around(s, drop, r.0, r.1),
    decreases s.len(),
{
    if s.len() > 0 && drop(s.first()) {
        let t = s.drop_first();
        let (a, b) = lemma_strip_ends(t, drop);
        assert(s.subrange(a + 1, b + 1) =~= t.subrange(a, b));
        assert forall|i: int| 0 <= i < s.len() && (i < a + 1 || b + 1 <= i) implies drop(
            #[trigger] s[i],
        ) by {
            if i > 0 {
                assert(t[i - 1] == s[i]);
            }
        }
        (a + 1, b + 1)
    } else if s.len() > 0 && drop(s.last()) {
        let t = s.drop_last();
        let (a, b) = lemma_strip_ends(t, drop);
        assert(s.subrange(a, b) =~= t.subrange(a, b));
        assert forall|i: int| 0 <= i < s.len() && (i < a || b <= i) implies drop(
            #[trigger] s[i],
        ) by {
            if i < t.len() {
                assert(t[i] == s[i]);
            }
        }
        (a, b)
    } else {
        assert(s.subrange(0, s.len() as int) =~= s);
        (0, s.len() as int)
    }
}

/// Trimming takes away the white space at both ends, and nothing else.
/// Gives where what is left begins and ends.
pub proof fn law_trimmed(s: Seq<char>) -> (r: (int, int))
    ensures
        0 <= r.0 <= r.1 <= s.len(),
        trimmed(s) == s.subrange(r.0, r.1),
        forall|i: int| 0 <= i < s.len() && (i < r.0 || r.1 <= i) ==> is_space(#[trigger] s[i]),
        trimmed(s).len() > 0 ==> !is_space(trimmed(s).first()) && !is_space(trimmed(s).last()),
{
    let drop = |c: char| is_space(c);
    let (a, b) = lemma_strip_ends(s, drop);
    lemma_strip_ends_is_clean(s, drop);
    assert forall|i: int| 0 <= i < s.len() && (i < a || b <= i) implies is_space(
        #[trigger] s[i],
    ) by {
        assert(drop(s[i]));
    }
    (a, b)
}

/// Trimming the start takes away the white space there, and nothing else.
pub proof fn law_trimmed_start(s: Seq<char>)
    ensures
        exists|a: int|
            0 <= a <= s.len() && #[trigger] s.skip(a) == trimmed_start(s) && (forall|i: int|
                0 <= i < a ==> is_space(#[trigger] s[i])),
        trimmed_start(s).len() > 0 ==> !is_space(trimmed_start(s).first()),
    decreases s.len(),
{
    if s.len() > 0 && is_space(s.first()) {
        let t = s.drop_first();
        law_trimmed_start(t);
        let a = choose|a: int|
            0 <= a <= t.len() && #[trigger] t.skip(a) == trimmed_start(t) && (forall|i: int|
                0 <= i < a ==> is_space(#[trigger] t[i]));
        assert(s.skip(a + 1) =~= t.skip(a));
        assert forall|i: int| 0 <= i < a + 1 implies is_space(#[trigger] s[i]) by {
            if i > 0 {
                assert(t[i - 1] == s[i]);
            }
        }
    } else {
        assert(s.skip(0) =~= s);
    }
}

/// A token of a function name has lower-case letters, digits and `_` only, and is
/// never empty.
pub proof fn law_tokens_are_safe(input: Seq<char>, i: int)
    ensures
        sanitized(input).len() > 0,
        0 <= i < sanitized(input).len() ==> (0x61 <= sanitized(input)[i] as u32 <= 0x7a || 0x30
            <= sanitized(input)[i] as u32 <= 0x39 || sanitized(input)[i] == '_'),
        sanitized(input) != "tool"@ ==> sanitized(input).first() != '_' && sanitized(input).last()
            != '_',
        forall|c: char|
            0x61 <= c as u32 <= 0x7a || 0x30 <= c as u32 <= 0x39 ==> #[trigger] token_char(c) == c,
        forall|c: char|
            0x41 <= c as u32 <= 0x5a ==> (#[trigger] token_char(c)) as u32 == c as u32 + 32,
{
    reveal_strlit("tool");
    let mapped = input.map_values(|c: char| token_char(c));
    let drop = |c: char| c == '_';
    let (a, b) = lemma_strip_ends(mapped, drop);
    lemma_strip_ends_is_clean(mapped, drop);
    if 0 <= i < sanitized(input).len() && strip_ends(mapped, drop).len() > 0 {
        assert(sanitized(input)[i] == mapped[a + i]);
        assert(mapped[a + i] == token_char(input[a + i]));
    }
}

/// What a prefix is, and what follows it.
pub proof fn law_prefixes(prefix: Seq<char>, rest: Seq<char>, s: Seq<char>)
    ensures
        has_prefix(prefix + rest, prefix),
        after_prefix(prefix + rest, prefix) == Some(rest),
        after_prefix(s, prefix) matches Some(r) ==> s == prefix + r,
        after_prefix(s, prefix) is None ==> !has_prefix(s, prefix),
{
    assert((prefix + rest).subrange(0, prefix.len() as int) =~= prefix);
    assert((prefix + rest).skip(prefix.len() as int) =~= rest);
    if has_prefix(s, prefix) {
        assert(s =~= s.subrange(0, prefix.len() as int) + s.skip(prefix.len() as int));
    }
}

/// A part stands in a text where something stands before and behind it.
pub proof fn law_parts(before: Seq<char>, part: Seq<char>, behind: Seq<char>, s: Seq<char>)
    ensures
        has_part(before + part + behind, part),
        has_part(s, part) ==> exists|at: int|
            0 <= at && at + part.len() <= s.len() && #[trigger] s.subrange(
                at,
                at + part.len(),
            ) == part,
{
    let s1 = before + part + behind;
    assert(s1.subrange(before.len() as int, (before.len() + part.len()) as int) =~= part);
    assert(occurs_at(s1, part, before.len() as int));
    if has_part(s, part) {
        let at = choose|at: int| occurs_at(s, part, at);
        assert(s.subrange(at, at + part.len()) == part);
    }
}

/// Texts are joined in their order, with the separator between them.
pub proof fn law_joined(list: Seq<Seq<char>>, text: Seq<char>, sep: Seq<char>)
    ensures
        joined(Seq::empty(), sep).len() == 0,
        joined(seq![text], sep) == text,
        list.len() > 0 ==> joined(list.push(text), sep) == joined(list, sep) + sep + text,
{
    assert(list.push(text).drop_last() =~= list);
}

/// A number is read back from its numeral, which has no needless zeros.
pub proof fn law_numbers_are_read_back(n: u64)
    ensures
        u64_of(decimal(n as nat)) == Some(n),
        n > 0 ==> decimal(n as nat).first() != '0',
        decimal(0) == seq!['0'],
{
    lemma_decimal_value(n as nat);
    lemma_no_leading_zero(n as nat);
    assert(digit(0) as u32 == '0' as u32);
}

proof fn lemma_no_leading_zero(n: nat)
    ensures
        n > 0 ==> decimal(n).first() != '0',
        decimal(n).len() > 0,
    decreases n,
{
    if n >= 10 {
        lemma_no_leading_zero(n / 10);
    } else if n > 0 {
        assert(digit(n) as u32 == n + '0' as u32);
    }
}

/// Texts are ordered by their first characters that differ; a text comes before what
/// it is the beginning of. A sorted list has no text twice.
pub proof fn law_order_of_texts(
    common: Seq<char>,
    a: char,
    b: char,
    rest: Seq<char>,
    other: Seq<char>,
    list: Seq<Seq<char>>,
    i: int,
    j: int,
)
    ensures
        text_le(common, common + rest),
        a != b ==> text_le(common.push(a) + rest, common.push(b) + other) == ((a as u32) < (
        b as u32)),
        ascending(list) && 0 <= i < j < list.len() ==> text_le(list[i], list[j]) && list[i]
            != list[j],
    decreases common.len(),
{
    let x = common.push(a) + rest;
    let y = common.push(b) + other;
    if common.len() > 0 {
        law_order_of_texts(common.drop_first(), a, b, rest, other, list, i, j);
        assert(x.drop_first() =~= common.drop_first().push(a) + rest);
        assert(y.drop_first() =~= common.drop_first().push(b) + other);
        assert((common + rest).drop_first() =~= common.drop_first() + rest);
        assert(x[0] == common[0] && y[0] == common[0] && (common + rest)[0] == common[0]);
    } else {
        assert(x[0] == a && y[0] == b);
    }
}

proof fn lemma_no_data(block: Seq<Seq<char>>, payload: Seq<char>)
    requires
        forall|k: int| 0 <= k < block.len() ==> !has_prefix(#[trigger] block[k], "data:"@),
    ensures
        rebuilt(block, payload) == block,
        !has_data(block),
    decreases block.len(),
{
    if block.len() > 0 {
        let rest = block.drop_last();
        assert forall|k: int| 0 <= k < rest.len() implies !has_prefix(
            #[trigger] rest[k],
            "data:"@,
        ) by {
            assert(rest[k] == block[k]);
        }
        lemma_no_data(rest, payload);
        assert(block[block.len() - 1] == block.last());
        assert(rebuilt(block, payload) =~= block);
    }
}

/// The new data of a block stand where its first data line stood, and the other
/// lines keep their places around it; a block without data gets them at its end.
pub proof fn law_new_data_stand_in_place(
    before: Seq<Seq<char>>,
    line: Seq<char>,
    behind: Seq<Seq<char>>,
    payload: Seq<char>,
)
    requires
        forall|k: int| 0 <= k < before.len() ==> !has_prefix(#[trigger] before[k], "data:"@),
        has_prefix(line, "data:"@),
    ensures
        with_payload(before + seq![line] + behind, payload) == before + seq!["data: "@ + payload]
            + other_lines(behind),
        with_payload(before, payload) == before.push("data: "@ + payload),
    decreases behind.len(),
{
    lemma_no_data(before, payload);
    let block = before + seq![line] + behind;
    assert(block[before.len() as int] == line);
    assert(has_data(block));
    if behind.len() == 0 {
        assert(block =~= before.push(line));
        assert(block.drop_last() =~= before);
        assert(block.last() == line);
        assert(other_lines(behind) =~= Seq::<Seq<char>>::empty());
        assert(rebuilt(block, payload) =~= before + seq!["data: "@ + payload] + other_lines(behind));
    } else {
        law_new_data_stand_in_place(before, line, behind.drop_last(), payload);
        let shorter = before + seq![line] + behind.drop_last();
        assert(block.drop_last() =~= shorter);
        assert(block.last() == behind.last());
        assert(shorter[before.len() as int] == line);
        assert(has_data(shorter));
        assert(rebuilt(block, payload) =~= before + seq!["data: "@ + payload] + other_lines(behind));
    }
}

/// The name of an event is what its last `event:` line says, without the white
/// space around it.
pub proof fn law_name_of_an_event(block: Seq<Seq<char>>, line: Seq<char>, rest: Seq<char>)
    ensures
        event_name(Seq::empty()) is None,
        event_name(block.push("event:"@ + rest)) == Some(trimmed(rest)),
        !has_prefix(line, "event:"@) ==> event_name(block.push(line)) == event_name(block),
{
    law_prefixes("event:"@, rest, line);
    assert(block.push("event:"@ + rest).drop_last() =~= block);
    assert(block.push(line).drop_last() =~= block);
}

/// The data of an event are what its `data:` lines say, without the white space
/// before it, in their order; the other lines do not count.
pub proof fn law_data_of_an_event(
    block: Seq<Seq<char>>,
    line: Seq<char>,
    rest: Seq<char>,
    text: Seq<char>,
)
    ensures
        data_lines(Seq::empty()).len() == 0,
        data_lines(block.push("data:"@ + rest)) == data_lines(block).push(trimmed_start(rest)),
        !has_prefix(line, "data:"@) ==> data_lines(block.push(line)) == data_lines(block),
        block_data(text) == joined(data_lines(lines_of(text)), "\n"@),
{
    reveal_strlit("data:");
    reveal_strlit("event:");
    law_prefixes("data:"@, rest, line);
    let new_line = "data:"@ + rest;
    if has_prefix(new_line, "event:"@) {
        assert(new_line.subrange(0, 6)[0] == new_line[0]);
    }
    assert(block.push(new_line).drop_last() =~= block);
    assert(block.push(line).drop_last() =~= block);
}

/// A block ends at the first empty line.
pub proof fn law_first_empty_line(s: Seq<char>, from: int, i: int)
    requires
        0 <= from <= s.len(),
    ensures
        from <= i && i + 1 < s.len() && s[i] == '\n' && s[i + 1] == '\n' && (forall|j: int|
            from <= j < i ==> !(#[trigger] s[j] == '\n' && s[j + 1] == '\n')) ==> blank_line(
            s,
            from,
        ) == i,
        (forall|j: int|
            from <= j && j + 1 < s.len() ==> !(#[trigger] s[j] == '\n' && s[j + 1] == '\n'))
            ==> blank_line(s, from) == s.len(),
    decreases s.len() - from,
{
    if from < s.len() {
        law_first_empty_line(s, from + 1, i);
        assert(s[from] == s[from]);
    }
}

} // verus!
