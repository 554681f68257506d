//! Framing of server-sent events.

use vstd::prelude::*;

use crate::json::{Json, JsonView};
use crate::text::{
    after_prefix, chars_of, chomped, has_prefix, is_one_line, is_space, is_whitespace, join, joined,
    lines, lines_from, lines_of, next_index, opt_view, starts_with, strip_ends, strip_prefix, trim,
    trimmed, views,
};
use crate::wire::{print, text_of_json};

verus! {

broadcast use vstd::string::group_string_axioms;

/// A text without leading white space.
pub open spec fn trimmed_start(s: Seq<char>) -> Seq<char>
    decreases s.len(),
{
    if s.len() > 0 && is_space(s.first()) {
        trimmed_start(s.drop_first())
    } else {
        s
    }
}

/// `text` without leading white space.
pub fn trim_start(text: &str) -> (r: &str)
    ensures
        r@ == trimmed_start(text@),
{
    let chars = chars_of(text);
    let mut from: usize = 0;
    assert(text@.skip(0) =~= text@);
    while from < chars.len() && is_whitespace(chars[from])
        invariant
            chars@ == text@,
            from <= chars@.len(),
            trimmed_start(text@) == trimmed_start(text@.skip(from as int)),
        ensures
            from <= chars@.len(),
            from < chars@.len() ==> !is_space(text@[from as int]),
            trimmed_start(text@) == trimmed_start(text@.skip(from as int)),
        decreases chars@.len() - from,
    {
        assert(text@.skip(from as int).drop_first() =~= text@.skip(from + 1));
        from += 1;
    }
    assert(text@.skip(from as int) =~= text@.subrange(from as int, chars@.len() as int));
    text.substring_char(from, chars.len())
}

/// The name of the event of a block: that of its last `event:` line.
pub open spec fn event_name(block: Seq<Seq<char>>) -> Option<Seq<char>>
    decreases block.len(),
{
    if block.len() == 0 {
        None
    } else {
        match after_prefix(block.last(), "event:"@) {
            Some(rest) => Some(trimmed(rest)),
            None => event_name(block.drop_last()),
        }
    }
}

/// The data lines of a block.
pub open spec fn data_lines(block: Seq<Seq<char>>) -> Seq<Seq<char>>
    decreases block.len(),
{
    if block.len() == 0 {
        Seq::empty()
    } else {
        let rest = data_lines(block.drop_last());
        match (after_prefix(block.last(), "event:"@), after_prefix(block.last(), "data:"@)) {
            (None, Some(data)) => rest.push(trimmed_start(data)),
            _ => rest,
        }
    }
}

/// The data of a block: its data lines, with line ends between them.
pub open spec fn block_data(block: Seq<char>) -> Seq<char> {
    joined(data_lines(lines_of(block)), "\n"@)
}

/// The name and the data of an event.
pub fn parse_sse_block(block: &str) -> (r: (Option<String>, String))
    ensures
        opt_view(r.0) == event_name(lines_of(block@)),
        r.1@ == block_data(block@),
{
    let all = lines(block);
    let ghost list = views(all@);
    let mut name: Option<String> = None;
    let mut data: Vec<String> = Vec::new();
    assert(views(data@) =~= data_lines(list.take(0)));
    for i in 0..all.len()
        invariant
            list == views(all@),
            opt_view(name) == event_name(list.take(i as int)),
            views(data@) == data_lines(list.take(i as int)),
    {
        proof {
            let next = list.take(i + 1);
            assert(next.drop_last() =~= list.take(i as int));
            assert(next.last() == all@[i as int]@);
        }
        let ghost before = views(data@);
        match strip_prefix(all[i].as_str(), "event:") {
            Some(rest) => {
                name = Some(trim(rest).to_owned());
            },
            None => match strip_prefix(all[i].as_str(), "data:") {
                Some(rest) => {
                    let line: String = trim_start(rest).to_owned();
                    let ghost view = line@;
                    data.push(line);
                    assert(views(data@) =~= before.push(view));
                },
                None => {},
            },
        }
    }
    assert(list.take(all@.len() as int) =~= list);
    (name, join(&data, "\n"))
}

/// The lines of a block with its first data line replaced and the other data
/// lines left out.
pub open spec fn rebuilt(block: Seq<Seq<char>>, payload: Seq<char>) -> Seq<Seq<char>>
    decreases block.len(),
{
    if block.len() == 0 {
        Seq::empty()
    } else {
        let rest = rebuilt(block.drop_last(), payload);
        if !has_prefix(block.last(), "data:"@) {
            rest.push(block.last())
        } else if has_data(block.drop_last()) {
            rest
        } else {
            rest.push("data: "@ + payload)
        }
    }
}

/// Whether a block has a data line.
pub open spec fn has_data(block: Seq<Seq<char>>) -> bool {
    exists|i: int| 0 <= i < block.len() && has_prefix(#[trigger] block[i], "data:"@)
}

/// The lines of a block with its data replaced: one data line, at the place of
/// the first one, or at the end where there was none.
pub open spec fn with_payload(block: Seq<Seq<char>>, payload: Seq<char>) -> Seq<Seq<char>> {
    if has_data(block) {
        rebuilt(block, payload)
    } else {
        rebuilt(block, payload).push("data: "@ + payload)
    }
}

/// The lines of a block that are no data lines.
pub open spec fn other_lines(block: Seq<Seq<char>>) -> Seq<Seq<char>>
    decreases block.len(),
{
    if block.len() == 0 {
        Seq::empty()
    } else if has_prefix(block.last(), "data:"@) {
        other_lines(block.drop_last())
    } else {
        other_lines(block.drop_last()).push(block.last())
    }
}

/// How many data lines a block has.
pub open spec fn data_count(block: Seq<Seq<char>>) -> nat
    decreases block.len(),
{
    if block.len() == 0 {
        0
    } else {
        data_count(block.drop_last()) + (if has_prefix(block.last(), "data:"@) {
            1nat
        } else {
            0
        })
    }
}

proof fn lemma_new_line_is_data(payload: Seq<char>)
    ensures
        has_prefix("data: "@ + payload, "data:"@),
{
    reveal_strlit("data: ");
    reveal_strlit("data:");
    let line = "data: "@ + payload;
    assert(line.subrange(0, "data:"@.len() as int) =~= "data:"@);
}

proof fn lemma_has_data_push(block: Seq<Seq<char>>, line: Seq<char>)
    ensures
        has_data(block.push(line)) <==> has_data(block) || has_prefix(line, "data:"@),
{
    let after = block.push(line);
    if has_data(block) {
        let i = choose|i: int| 0 <= i < block.len() && has_prefix(#[trigger] block[i], "data:"@);
        assert(after[i] == block[i]);
    }
    if has_prefix(line, "data:"@) {
        assert(after[block.len() as int] == line);
    }
    if has_data(after) {
        let i = choose|i: int| 0 <= i < after.len() && has_prefix(#[trigger] after[i], "data:"@);
        if i < block.len() {
            assert(block[i] == after[i]);
        }
    }
}

proof fn lemma_rebuilt(block: Seq<Seq<char>>, payload: Seq<char>)
    ensures
        other_lines(rebuilt(block, payload)) == other_lines(block),
        data_count(rebuilt(block, payload)) == (if has_data(block) {
            1nat
        } else {
            0
        }),
    decreases block.len(),
{
    lemma_new_line_is_data(payload);
    if block.len() > 0 {
        let rest = block.drop_last();
        lemma_rebuilt(rest, payload);
        lemma_has_data_push(rest, block.last());
        assert(block =~= rest.push(block.last()));
        let before = rebuilt(rest, payload);
        assert(before.push(block.last()).drop_last() =~= before);
        assert(before.push("data: "@ + payload).drop_last() =~= before);
    }
}

/// Replacing the data of a block leaves its other lines as they are, in their
/// order, and gives it exactly one data line.
pub proof fn law_block_keeps_other_lines(block: Seq<Seq<char>>, payload: Seq<char>)
    ensures
        other_lines(with_payload(block, payload)) == other_lines(block),
        data_count(with_payload(block, payload)) == 1,
{
    lemma_rebuilt(block, payload);
    lemma_new_line_is_data(payload);
    let before = rebuilt(block, payload);
    assert(before.push("data: "@ + payload).drop_last() =~= before);
}

/// A block with its data replaced.
pub fn rebuild_sse_block(block: &str, new_payload: &str) -> (r: String)
    ensures
        r@ == joined(with_payload(lines_of(block@), new_payload@), "\n"@),
{
    let all = lines(block);
    let ghost list = views(all@);
    let mut out: Vec<String> = Vec::new();
    let mut data_written: bool = false;
    let mut data_line: String = "data: ".to_owned();
    data_line.append(new_payload);
    assert(views(out@) =~= rebuilt(list.take(0), new_payload@));
    for i in 0..all.len()
        invariant
            list == views(all@),
            data_line@ == "data: "@ + new_payload@,
            views(out@) == rebuilt(list.take(i as int), new_payload@),
            data_written == has_data(list.take(i as int)),
    {
        let ghost before = views(out@);
        proof {
            let next = list.take(i + 1);
            assert(next.drop_last() =~= list.take(i as int));
            assert(next.last() == all@[i as int]@);
            assert(next =~= list.take(i as int).push(all@[i as int]@));
            lemma_has_data_push(list.take(i as int), all@[i as int]@);
        }
        if starts_with(all[i].as_str(), "data:") {
            if !data_written {
                out.push(data_line.clone());
                assert(views(out@) =~= before.push(data_line@));
                data_written = true;
            }
        } else {
            out.push(all[i].clone());
            assert(views(out@) =~= before.push(all@[i as int]@));
        }
    }
    assert(list.take(all@.len() as int) =~= list);
    if !data_written {
        let ghost before = views(out@);
        let ghost line = data_line@;
        out.push(data_line);
        assert(views(out@) =~= before.push(line));
    }
    join(&out, "\n")
}

/// The text of an event.
pub open spec fn event_text(name: Seq<char>, payload: JsonView) -> Seq<char> {
    "event: "@ + name + "\ndata: "@ + text_of_json(payload) + "\n\n"@
}

/// The text of an event.
pub fn format_event(name: &str, payload: &Json) -> (text: String)
    ensures
        text@ == event_text(name@, payload@),
{
    let mut text: String = "event: ".to_owned();
    text.append(name);
    text.append("\ndata: ");
    text.append(print(payload).as_str());
    text.append("\n\n");
    text
}

// ---------------------------------------------------------------------------
// Cutting a stream into blocks
// ---------------------------------------------------------------------------

/// The first empty line of a text, from `from` on: the position of the line end
/// before it; the length of the text where there is none.
pub open spec fn blank_line(s: Seq<char>, from: int) -> int
    decreases s.len() - from,
{
    if from + 1 >= s.len() {
        s.len() as int
    } else if s[from] == '\n' && s[from + 1] == '\n' {
        from
    } else {
        blank_line(s, from + 1)
    }
}

proof fn lemma_blank_line(s: Seq<char>, from: int)
    requires
        0 <= from,
    ensures
        blank_line(s, from) <= s.len(),
        blank_line(s, from) < s.len() ==> from <= blank_line(s, from) && blank_line(s, from) + 1
            < s.len(),
    decreases s.len() - from,
{
    if from + 1 < s.len() && !(s[from] == '\n' && s[from + 1] == '\n') {
        lemma_blank_line(s, from + 1);
    }
}

/// The part of a stream that was received and not cut into blocks yet.
pub struct ChunkProcessor {
    pub pending: String,
}

impl ChunkProcessor {
    /// Nothing was received.
    pub fn new() -> (r: ChunkProcessor)
        ensures
            r.pending@.len() == 0,
    {
        ChunkProcessor { pending: String::new() }
    }

    /// Takes in a part of the stream.
    pub fn push_chunk(&mut self, chunk: &str)
        ensures
            final(self).pending@ == old(self).pending@ + chunk@,
    {
        self.pending.append(chunk);
    }

    /// Cuts off the next block: what stands before the first empty line. There
    /// is none where no empty line was received.
    pub fn next_block(&mut self) -> (block: Option<String>)
        ensures
            ({
                let all = old(self).pending@;
                let end = blank_line(all, 0);
                match block {
                    Some(b) => {
                        &&& end < all.len()
                        &&& b@ == all.take(end)
                        &&& final(self).pending@ == all.skip(end + 2)
                    },
                    None => end >= all.len() && final(self).pending@ == all,
                }
            }),
    {
        let chars = chars_of(self.pending.as_str());
        let ghost all = self.pending@;
        proof {
            lemma_blank_line(all, 0);
        }
        if chars.len() < 2 {
            return None;
        }
        let mut end: usize = 0;
        while end < chars.len() - 1 && !(chars[end] == '\n' && chars[end + 1] == '\n')
            invariant
                chars@ == all,
                chars@.len() >= 2,
                end <= chars@.len(),
                blank_line(all, 0) == blank_line(all, end as int),
            ensures
                end <= chars@.len(),
                blank_line(all, 0) == blank_line(all, end as int),
                end + 1 >= chars@.len() || (chars@[end as int] == '\n' && chars@[end + 1] == '\n'),
            decreases chars@.len() - end,
        {
            end += 1;
        }
        if end >= chars.len() - 1 {
            return None;
        }
        let text = self.pending.as_str();
        let block: String = text.substring_char(0, end).to_owned();
        let rest: String = text.substring_char(end + 2, chars.len()).to_owned();
        assert(all.subrange(0, end as int) =~= all.take(end as int));
        assert(all.subrange(end + 2, all.len() as int) =~= all.skip(end + 2));
        self.pending = rest;
        Some(block)
    }

    /// What was received behind the last block.
    pub fn take_remaining(&mut self) -> (rest: String)
        ensures
            rest@ == old(self).pending@,
            final(self).pending@.len() == 0,
    {
        let rest: String = self.pending.clone();
        self.pending = String::new();
        rest
    }
}

/// A block that is followed by an empty line comes out whole, whatever was
/// received behind it, where it neither holds an empty line nor ends in a line
/// end.
pub proof fn law_blocks_come_out_whole(block: Seq<char>, rest: Seq<char>)
    requires
        blank_line(block + seq!['\n'], 0) >= block.len() + 1,
    ensures
        blank_line(block + seq!['\n', '\n'] + rest, 0) == block.len(),
{
    lemma_first_blank_line(block, rest, 0);
}

proof fn lemma_first_blank_line(block: Seq<char>, rest: Seq<char>, from: int)
    requires
        0 <= from <= block.len(),
        blank_line(block + seq!['\n'], from) >= block.len() + 1,
    ensures
        blank_line(block + seq!['\n', '\n'] + rest, from) == block.len(),
    decreases block.len() - from,
{
    let s = block + seq!['\n', '\n'] + rest;
    let t = block + seq!['\n'];
    if from < block.len() {
        assert(s[from] == t[from] && s[from + 1] == t[from + 1]);
        lemma_first_blank_line(block, rest, from + 1);
    } else {
        assert(s[from] == '\n' && s[from + 1] == '\n');
    }
}

// ---------------------------------------------------------------------------
// Reading back what was written
// ---------------------------------------------------------------------------

/// The end of a line.
pub open spec fn line_end() -> Seq<char> {
    seq!['\n']
}

/// Whether a line can stand in a block: it has no line end in it, and it does
/// not end in a carriage return where it is a data line.
pub open spec fn is_plain_line(line: Seq<char>) -> bool {
    &&& forall|i: int| 0 <= i < line.len() ==> line[i] != '\n'
    &&& has_prefix(line, "data:"@) ==> line.last() != '\r'
}

proof fn lemma_next_index(s: Seq<char>, from: int)
    requires
        0 <= from <= s.len(),
    ensures
        from <= next_index(s, '\n', from) <= s.len(),
        next_index(s, '\n', from) < s.len() ==> s[next_index(s, '\n', from)] == '\n',
        forall|k: int| from <= k < next_index(s, '\n', from) ==> s[k] != '\n',
    decreases s.len() - from,
{
    if from < s.len() && s[from] != '\n' {
        lemma_next_index(s, from + 1);
    }
}

proof fn lemma_next_index_is(s: Seq<char>, from: int, at: int)
    requires
        0 <= from <= at <= s.len(),
        at < s.len() ==> s[at] == '\n',
        forall|k: int| from <= k < at ==> s[k] != '\n',
    ensures
        next_index(s, '\n', from) == at,
    decreases at - from,
{
    if from < at {
        lemma_next_index_is(s, from + 1, at);
    }
}

proof fn lemma_lines_behind(pre: Seq<char>, b: Seq<char>, k: int)
    requires
        0 <= k <= b.len(),
    ensures
        lines_from(pre + b, pre.len() + k) == lines_from(b, k),
    decreases b.len() - k,
{
    let s = pre + b;
    if k < b.len() {
        let end = next_index(b, '\n', k);
        lemma_next_index(b, k);
        assert forall|j: int| pre.len() + k <= j < pre.len() + end implies s[j] != '\n' by {
            assert(s[j] == b[j - pre.len()]);
        }
        if end < b.len() {
            assert(s[pre.len() + end] == b[end]);
        }
        lemma_next_index_is(s, pre.len() + k, pre.len() + end);
        if end < b.len() {
            lemma_lines_behind(pre, b, end + 1);
            assert(s.subrange(pre.len() + k, pre.len() + end) =~= b.subrange(k, end));
        } else {
            assert(s.skip(pre.len() + k) =~= b.skip(k));
        }
    }
}

proof fn lemma_lines_append(a: Seq<char>, b: Seq<char>, from: int)
    requires
        0 <= from <= a.len(),
    ensures
        lines_from(a + line_end() + b, from) == lines_from(a + line_end(), from) + lines_of(b),
    decreases a.len() - from,
{
    let t = a + line_end();
    let s = t + b;
    let end = next_index(t, '\n', from);
    lemma_next_index(t, from);
    assert(t[a.len() as int] == '\n');
    assert(end <= a.len());
    assert forall|j: int| from <= j < end implies s[j] != '\n' by {
        assert(s[j] == t[j]);
    }
    assert(s[end] == t[end]);
    lemma_next_index_is(s, from, end);
    assert(s.subrange(from, end) =~= t.subrange(from, end));
    let line = chomped(t.subrange(from, end));
    if end == a.len() {
        lemma_lines_behind(t, b, 0);
        assert(lines_from(t, end + 1) =~= Seq::<Seq<char>>::empty());
        assert(seq![line] + lines_of(b) =~= seq![line] + lines_from(t, end + 1) + lines_of(b));
    } else {
        lemma_lines_append(a, b, end + 1);
        assert(seq![line] + (lines_from(t, end + 1) + lines_of(b)) =~= seq![line] + lines_from(
            t,
            end + 1,
        ) + lines_of(b));
    }
}

proof fn lemma_line_ended(line: Seq<char>)
    requires
        forall|i: int| 0 <= i < line.len() ==> line[i] != '\n',
    ensures
        lines_of(line + line_end()) == seq![chomped(line)],
        lines_of(line) == (if line.len() == 0 {
            Seq::<Seq<char>>::empty()
        } else {
            seq![line]
        }),
{
    let t = line + line_end();
    lemma_next_index_is(t, 0, line.len() as int);
    assert(t.subrange(0, line.len() as int) =~= line);
    assert(lines_from(t, line.len() as int + 1) =~= Seq::<Seq<char>>::empty());
    assert(lines_of(t) =~= seq![chomped(line)]);
    lemma_next_index_is(line, 0, line.len() as int);
    assert(line.skip(0) =~= line);
}

proof fn lemma_lines_are_whole(s: Seq<char>, from: int, i: int, k: int)
    requires
        0 <= from <= s.len(),
        0 <= i < lines_from(s, from).len(),
        0 <= k < lines_from(s, from)[i].len(),
    ensures
        lines_from(s, from)[i][k] != '\n',
    decreases s.len() - from,
{
    let end = next_index(s, '\n', from);
    lemma_next_index(s, from);
    if from < s.len() {
        if end < s.len() {
            if i > 0 {
                lemma_lines_are_whole(s, end + 1, i - 1, k);
            } else {
                assert(lines_from(s, from)[0] == chomped(s.subrange(from, end)));
                assert(chomped(s.subrange(from, end))[k] == s[from + k]);
            }
        } else {
            assert(lines_from(s, from)[0][k] == s[from + k]);
        }
    }
}

/// What a single line says.
proof fn lemma_single_line(line: Seq<char>)
    ensures
        data_lines(seq![line]) == (match (
            after_prefix(line, "event:"@),
            after_prefix(line, "data:"@),
        ) {
            (None, Some(data)) => seq![trimmed_start(data)],
            _ => Seq::<Seq<char>>::empty(),
        }),
        event_name(seq![line]) == (match after_prefix(line, "event:"@) {
            Some(rest) => Some(trimmed(rest)),
            None => None,
        }),
{
    reveal_with_fuel(data_lines, 2);
    reveal_with_fuel(event_name, 2);
    let one = seq![line];
    assert(one.drop_last() =~= Seq::<Seq<char>>::empty());
    assert(one.last() == line);
    if let Some(data) = after_prefix(line, "data:"@) {
        assert(Seq::<Seq<char>>::empty().push(trimmed_start(data)) =~= seq![trimmed_start(data)]);
    }
}

proof fn lemma_data_lines_concat(x: Seq<Seq<char>>, y: Seq<Seq<char>>)
    ensures
        data_lines(x + y) == data_lines(x) + data_lines(y),
        event_name(x + y) == (if event_name(y) is Some {
            event_name(y)
        } else {
            event_name(x)
        }),
    decreases y.len(),
{
    if y.len() == 0 {
        assert(x + y =~= x);
        assert(data_lines(x) + data_lines(y) =~= data_lines(x));
    } else {
        assert((x + y).drop_last() =~= x + y.drop_last());
        assert((x + y).last() == y.last());
        lemma_data_lines_concat(x, y.drop_last());
        let rest = data_lines(y.drop_last());
        if let Some(data) = after_prefix(y.last(), "data:"@) {
            let line = trimmed_start(data);
            assert(data_lines(x) + rest.push(line) =~= (data_lines(x) + rest).push(line));
        }
    }
}

proof fn lemma_strip_tail(s: Seq<char>, drop: spec_fn(char) -> bool)
    requires
        s.len() > 0,
        drop(s.last()),
    ensures
        strip_ends(s.drop_last(), drop) == strip_ends(s, drop),
    decreases s.len(),
{
    if drop(s.first()) {
        if s.len() > 1 {
            lemma_strip_tail(s.drop_first(), drop);
            assert(s.drop_first().drop_last() =~= s.drop_last().drop_first());
        } else {
            assert(s.drop_first() =~= s.drop_last());
        }
    }
}

/// What a line says does not depend on the carriage return that a line end may
/// bring along.
proof fn lemma_chomped_line(line: Seq<char>)
    requires
        is_plain_line(line),
    ensures
        data_lines(seq![chomped(line)]) == data_lines(seq![line]),
        event_name(seq![chomped(line)]) == event_name(seq![line]),
{
    reveal_strlit("data:");
    reveal_strlit("event:");
    let c = chomped(line);
    lemma_single_line(c);
    lemma_single_line(line);
    if c != line {
        assert(line.last() == '\r');
        let prefix = "event:"@;
        if has_prefix(line, prefix) {
            assert(line.subrange(0, 6) == prefix);
            assert(line[5] == prefix[5]);
            assert(line.len() > 6);
            assert(c.subrange(0, 6) =~= line.subrange(0, 6));
            assert(c.skip(6) =~= line.skip(6).drop_last());
            lemma_strip_tail(line.skip(6), |x: char| is_space(x));
        }
        if has_prefix(c, prefix) {
            assert(line.subrange(0, 6) =~= c.subrange(0, 6));
        }
        if has_prefix(c, "data:"@) {
            assert(line.subrange(0, 5) =~= c.subrange(0, 5));
        }
    }
}

proof fn lemma_joined_ended(list: Seq<Seq<char>>)
    requires
        forall|i: int| 0 <= i < list.len() ==> is_plain_line(#[trigger] list[i]),
    ensures
        data_lines(lines_of(joined(list, line_end()) + line_end())) == data_lines(list),
        event_name(lines_of(joined(list, line_end()) + line_end())) == event_name(list),
    decreases list.len(),
{
    reveal_strlit("data:");
    reveal_strlit("event:");
    if list.len() == 0 {
        lemma_line_ended(Seq::empty());
        lemma_single_line(Seq::empty());
    } else {
        let last = list.last();
        let rest = list.drop_last();
        assert(is_plain_line(list[list.len() - 1]));
        lemma_line_ended(last);
        lemma_chomped_line(last);
        assert(rest.push(last) =~= list);
        assert(rest + seq![last] =~= list);
        lemma_data_lines_concat(rest, seq![last]);
        if list.len() == 1 {
            assert(list =~= seq![last]);
        } else {
            assert forall|i: int| 0 <= i < rest.len() implies is_plain_line(
                #[trigger] rest[i],
            ) by {
                assert(rest[i] == list[i]);
            }
            lemma_joined_ended(rest);
            let before = joined(rest, line_end());
            lemma_lines_append(before, last + line_end(), 0);
            assert(joined(list, line_end()) + line_end() =~= before + line_end() + (last
                + line_end()));
            lemma_data_lines_concat(lines_of(before + line_end()), seq![chomped(last)]);
        }
    }
}

/// A block of lines reads back as those lines say.
proof fn lemma_joined_reads_back(list: Seq<Seq<char>>)
    requires
        forall|i: int| 0 <= i < list.len() ==> is_plain_line(#[trigger] list[i]),
    ensures
        block_data(joined(list, "\n"@)) == joined(data_lines(list), "\n"@),
        event_name(lines_of(joined(list, "\n"@))) == event_name(list),
{
    reveal_strlit("data:");
    reveal_strlit("event:");
    reveal_strlit("\n");
    assert("\n"@ =~= line_end());
    if list.len() > 0 {
        let last = list.last();
        let rest = list.drop_last();
        assert(is_plain_line(list[list.len() - 1]));
        lemma_line_ended(last);
        let tail = lines_of(last);
        assert(data_lines(tail) == data_lines(seq![last]) && event_name(tail) == event_name(
            seq![last],
        )) by {
            lemma_single_line(last);
        }
        assert(rest + seq![last] =~= list);
        lemma_data_lines_concat(rest, seq![last]);
        if list.len() == 1 {
            assert(list =~= seq![last]);
        } else {
            assert forall|i: int| 0 <= i < rest.len() implies is_plain_line(
                #[trigger] rest[i],
            ) by {
                assert(rest[i] == list[i]);
            }
            lemma_joined_ended(rest);
            let before = joined(rest, line_end());
            lemma_lines_append(before, last, 0);
            lemma_data_lines_concat(lines_of(before + line_end()), tail);
        }
    }
}

/// The line that carries new data reads back as that data.
proof fn lemma_data_line(payload: Seq<char>)
    requires
        is_one_line(payload),
    ensures
        is_plain_line("data: "@ + payload),
        data_lines(seq!["data: "@ + payload]) == seq![payload],
        event_name(seq!["data: "@ + payload]) is None,
{
    reveal_strlit("data: ");
    reveal_strlit("data:");
    reveal_strlit("event:");
    let line = "data: "@ + payload;
    lemma_single_line(line);
    lemma_new_line_is_data(payload);
    assert(line[0] == 'd');
    assert(!has_prefix(line, "event:"@)) by {
        if has_prefix(line, "event:"@) {
            assert(line.subrange(0, 6)[0] == "event:"@[0]);
        }
    }
    let rest = line.skip(5);
    assert(rest.first() == ' ');
    assert(rest.drop_first() =~= payload);
    assert(trimmed_start(payload) == payload);
    assert(trimmed_start(rest) == payload);
}

proof fn lemma_rebuilt_reads(block: Seq<Seq<char>>, payload: Seq<char>)
    requires
        is_one_line(payload),
        forall|i: int, k: int|
            0 <= i < block.len() && 0 <= k < block[i].len() ==> #[trigger] block[i][k] != '\n',
    ensures
        forall|i: int|
            0 <= i < rebuilt(block, payload).len() ==> is_plain_line(
                #[trigger] rebuilt(block, payload)[i],
            ),
        data_lines(rebuilt(block, payload)) == (if has_data(block) {
            seq![payload]
        } else {
            Seq::<Seq<char>>::empty()
        }),
        event_name(rebuilt(block, payload)) == event_name(block),
    decreases block.len(),
{
    reveal_strlit("data:");
    reveal_strlit("event:");
    lemma_data_line(payload);
    if block.len() > 0 {
        let rest = block.drop_last();
        let last = block.last();
        assert forall|i: int, k: int|
            0 <= i < rest.len() && 0 <= k < rest[i].len() implies #[trigger] rest[i][k] != '\n' by {
            assert(block[i][k] != '\n');
        }
        lemma_rebuilt_reads(rest, payload);
        lemma_has_data_push(rest, last);
        assert(rest.push(last) =~= block);
        assert(rest + seq![last] =~= block);
        lemma_data_lines_concat(rest, seq![last]);
        lemma_single_line(last);
        let before = rebuilt(rest, payload);
        let line = "data: "@ + payload;
        if has_prefix(last, "data:"@) {
            assert(!has_prefix(last, "event:"@)) by {
                if has_prefix(last, "event:"@) {
                    assert(last.subrange(0, 6)[0] == "event:"@[0]);
                    assert(last.subrange(0, 5)[0] == "data:"@[0]);
                }
            }
            assert(before + seq![line] =~= before.push(line));
            lemma_data_lines_concat(before, seq![line]);
            assert(Seq::<Seq<char>>::empty() + seq![payload] =~= seq![payload]);
        } else {
            assert(is_plain_line(last)) by {
                assert forall|k: int| 0 <= k < last.len() implies last[k] != '\n' by {
                    assert(block[block.len() - 1][k] != '\n');
                }
            }
            assert(before + seq![last] =~= before.push(last));
            lemma_data_lines_concat(before, seq![last]);
            assert(data_lines(before) + data_lines(seq![last]) =~= data_lines(before));
        }
    }
}

proof fn lemma_rebuilt_twice(block: Seq<Seq<char>>, first: Seq<char>, second: Seq<char>)
    ensures
        rebuilt(rebuilt(block, first), second) == rebuilt(block, second),
        has_data(rebuilt(block, first)) == has_data(block),
    decreases block.len(),
{
    lemma_new_line_is_data(first);
    if block.len() > 0 {
        let rest = block.drop_last();
        let last = block.last();
        lemma_rebuilt_twice(rest, first, second);
        lemma_has_data_push(rest, last);
        assert(rest.push(last) =~= block);
        let before = rebuilt(rest, first);
        let line = "data: "@ + first;
        lemma_has_data_push(before, last);
        lemma_has_data_push(before, line);
        assert(before.push(last).drop_last() =~= before);
        assert(before.push(line).drop_last() =~= before);
    }
}

proof fn lemma_payload_twice(block: Seq<Seq<char>>, first: Seq<char>, second: Seq<char>)
    ensures
        with_payload(with_payload(block, first), second) == with_payload(block, second),
{
    lemma_rebuilt_twice(block, first, second);
    if !has_data(block) {
        let before = rebuilt(block, first);
        let line = "data: "@ + first;
        lemma_new_line_is_data(first);
        lemma_has_data_push(before, line);
        assert(before.push(line).drop_last() =~= before);
    }
}

/// Whether a line has no line end in it, neither of the two characters of one.
pub open spec fn is_bare_line(line: Seq<char>) -> bool {
    forall|k: int| 0 <= k < line.len() ==> line[k] != '\n' && line[k] != '\r'
}

proof fn lemma_bare_lines_ended(list: Seq<Seq<char>>)
    requires
        list.len() > 0,
        forall|i: int| 0 <= i < list.len() ==> is_bare_line(#[trigger] list[i]),
    ensures
        lines_of(joined(list, line_end()) + line_end()) == list,
    decreases list.len(),
{
    let last = list.last();
    let rest = list.drop_last();
    assert(is_bare_line(list[list.len() - 1]));
    lemma_line_ended(last);
    assert(chomped(last) == last);
    assert(rest.push(last) =~= list);
    if list.len() == 1 {
        reveal_with_fuel(joined, 2);
        assert(list =~= seq![last]);
        assert(joined(list, line_end()) =~= last);
    } else {
        assert forall|i: int| 0 <= i < rest.len() implies is_bare_line(#[trigger] rest[i]) by {
            assert(rest[i] == list[i]);
        }
        lemma_bare_lines_ended(rest);
        let before = joined(rest, line_end());
        lemma_lines_append(before, last + line_end(), 0);
        assert(joined(list, line_end()) + line_end() =~= before + line_end() + (last + line_end()));
        assert(rest + seq![last] =~= list);
    }
}

proof fn lemma_bare_lines(list: Seq<Seq<char>>)
    requires
        list.len() > 0,
        list.last().len() > 0,
        forall|i: int| 0 <= i < list.len() ==> is_bare_line(#[trigger] list[i]),
    ensures
        lines_of(joined(list, line_end())) == list,
{
    let last = list.last();
    let rest = list.drop_last();
    assert(is_bare_line(list[list.len() - 1]));
    lemma_line_ended(last);
    if list.len() == 1 {
        reveal_with_fuel(joined, 2);
        assert(list =~= seq![last]);
        assert(joined(list, line_end()) =~= last);
    } else {
        assert forall|i: int| 0 <= i < rest.len() implies is_bare_line(#[trigger] rest[i]) by {
            assert(rest[i] == list[i]);
        }
        lemma_bare_lines_ended(rest);
        let before = joined(rest, line_end());
        lemma_lines_append(before, last, 0);
        assert(joined(list, line_end()) =~= before + line_end() + last);
        assert(rest + seq![last] =~= list);
    }
}

proof fn lemma_lines_are_bare(s: Seq<char>, from: int, i: int)
    requires
        0 <= from <= s.len(),
        0 <= i < lines_from(s, from).len(),
        forall|k: int| 0 <= k < s.len() ==> s[k] != '\r',
    ensures
        is_bare_line(lines_from(s, from)[i]),
    decreases s.len() - from,
{
    let end = next_index(s, '\n', from);
    lemma_next_index(s, from);
    if from < s.len() {
        if end < s.len() {
            if i > 0 {
                lemma_lines_are_bare(s, end + 1, i - 1);
            } else {
                assert(lines_from(s, from)[0] == chomped(s.subrange(from, end)));
            }
        }
    }
}

proof fn lemma_rebuilt_is_bare(block: Seq<Seq<char>>, payload: Seq<char>)
    requires
        is_bare_line(payload),
        forall|i: int| 0 <= i < block.len() ==> is_bare_line(#[trigger] block[i]),
    ensures
        is_bare_line("data: "@ + payload),
        forall|i: int|
            0 <= i < rebuilt(block, payload).len() ==> is_bare_line(
                #[trigger] rebuilt(block, payload)[i],
            ),
    decreases block.len(),
{
    reveal_strlit("data: ");
    if block.len() > 0 {
        let rest = block.drop_last();
        assert forall|i: int| 0 <= i < rest.len() implies is_bare_line(#[trigger] rest[i]) by {
            assert(rest[i] == block[i]);
        }
        lemma_rebuilt_is_bare(rest, payload);
        let before = rebuilt(rest, payload);
        let after = rebuilt(block, payload);
        assert forall|i: int| 0 <= i < after.len() implies is_bare_line(#[trigger] after[i]) by {
            if i < before.len() {
                assert(after[i] == before[i]);
            } else {
                assert(is_bare_line(block[block.len() - 1]));
            }
        }
    }
}

/// Of two payloads that are written into a block one after the other, nothing is
/// left of the first one, where the block with its data replaced does not end in
/// an empty line.
pub proof fn law_last_payload_wins(block: Seq<char>, first: Seq<char>, second: Seq<char>)
    requires
        forall|k: int| 0 <= k < block.len() ==> block[k] != '\r',
        is_bare_line(first),
        with_payload(lines_of(block), first).last().len() > 0,
    ensures
        ({
            let once = joined(with_payload(lines_of(block), first), "\n"@);
            joined(with_payload(lines_of(once), second), "\n"@) == joined(
                with_payload(lines_of(block), second),
                "\n"@,
            )
        }),
{
    reveal_strlit("\n");
    assert("\n"@ =~= line_end());
    let all = lines_of(block);
    let list = with_payload(all, first);
    assert forall|i: int| 0 <= i < all.len() implies is_bare_line(#[trigger] all[i]) by {
        lemma_lines_are_bare(block, 0, i);
    }
    lemma_rebuilt_is_bare(all, first);
    law_block_keeps_other_lines(all, first);
    assert(list.len() > 0);
    lemma_bare_lines(list);
    lemma_payload_twice(all, first, second);
}

/// A block whose data was replaced reads back as the new data, under the name
/// that it had.
pub proof fn law_rebuilt_block_reads_back(block: Seq<char>, payload: Seq<char>)
    requires
        is_one_line(payload),
    ensures
        ({
            let new_block = joined(with_payload(lines_of(block), payload), "\n"@);
            &&& block_data(new_block) == payload
            &&& event_name(lines_of(new_block)) == event_name(lines_of(block))
        }),
{
    let list = lines_of(block);
    assert forall|i: int, k: int|
        0 <= i < list.len() && 0 <= k < list[i].len() implies #[trigger] list[i][k] != '\n' by {
        lemma_lines_are_whole(block, 0, i, k);
    }
    lemma_rebuilt_reads(list, payload);
    lemma_data_line(payload);
    let line = "data: "@ + payload;
    let before = rebuilt(list, payload);
    let all = with_payload(list, payload);
    assert(before + seq![line] =~= before.push(line));
    lemma_data_lines_concat(before, seq![line]);
    assert(Seq::<Seq<char>>::empty() + seq![payload] =~= seq![payload]);
    assert forall|i: int| 0 <= i < all.len() implies is_plain_line(#[trigger] all[i]) by {
        if i < before.len() {
            assert(all[i] == before[i]);
        }
    }
    assert(data_lines(all) == seq![payload]);
    lemma_joined_reads_back(all);
}

/// An event that was written reads back as its name and its data.
pub proof fn law_event_reads_back(name: Seq<char>, text: Seq<char>)
    requires
        is_one_line(name),
        is_one_line(text),
        !is_space(name.last()),
    ensures
        ({
            let block = "event: "@ + name + "\ndata: "@ + text;
            &&& event_name(lines_of(block)) == Some(name)
            &&& block_data(block) == text
        }),
{
    reveal_strlit("event: ");
    reveal_strlit("event:");
    reveal_strlit("data: ");
    reveal_strlit("data:");
    reveal_strlit("\ndata: ");
    reveal_strlit("\n");
    let first = "event: "@ + name;
    let second = "data: "@ + text;
    let list = seq![first, second];
    lemma_data_line(text);
    assert(first[0] == 'e');
    assert(!has_prefix(first, "data:"@)) by {
        if has_prefix(first, "data:"@) {
            assert(first.subrange(0, 5)[0] == "data:"@[0]);
        }
    }
    assert(is_plain_line(first));
    assert(first.subrange(0, 6) =~= "event:"@);
    let rest = first.skip(6);
    assert(rest.first() == ' ');
    assert(rest.drop_first() =~= name);
    assert(trimmed(rest) == name) by {
        reveal_with_fuel(strip_ends, 2);
    }
    lemma_single_line(first);
    assert(seq![first] + seq![second] =~= list);
    lemma_data_lines_concat(seq![first], seq![second]);
    assert(data_lines(list) =~= seq![text]);
    lemma_joined_reads_back(list);
    reveal_with_fuel(joined, 2);
    assert(list.drop_last() =~= seq![first]);
    assert("\ndata: "@ =~= "\n"@ + "data: "@);
    assert(joined(list, "\n"@) =~= "event: "@ + name + "\ndata: "@ + text);
}

/// A text is read line by line: a line ends at its line feed, and a carriage return
/// before that belongs to the line end. What is left behind the last line end is a
/// line, where there is something.
pub proof fn law_text_is_read_line_by_line(line: Seq<char>, rest: Seq<char>)
    requires
        forall|i: int| 0 <= i < line.len() ==> line[i] != '\n',
    ensures
        lines_of(line + seq!['\n'] + rest) == seq![
            if line.len() > 0 && line.last() == '\r' {
                line.drop_last()
            } else {
                line
            },
        ] + lines_of(rest),
        line.len() > 0 ==> lines_of(line) == seq![line],
        lines_of(Seq::empty()).len() == 0,
{
    lemma_lines_append(line, rest, 0);
    lemma_line_ended(line);
}

} // verus!
