//! Word wrapping of the input prompt, the placement of popups, and the
//! key-binding footer.
use vstd::prelude::*;
use vstd::string::StringExecFns;
use ratatui::layout::{Constraint, Direction, Layout, Rect};
use crate::text::{chars_of, push_str_chars, string_from_chars};

verus! {

broadcast use vstd::seq_lib::group_seq_properties;

/// The words that the wrapper works with: each space is a word of its own,
/// and each maximal run of other characters is one word.
pub open spec fn split_words(s: Seq<char>) -> Seq<Seq<char>>
    decreases s.len(),
{
    if s.len() == 0 {
        seq![]
    } else {
        let ws = split_words(s.drop_last());
        let c = s.last();
        if c == ' ' {
            ws.push(seq![' '])
        } else if ws.len() > 0 && ws.last() != seq![' '] {
            ws.update(ws.len() - 1, ws.last().push(c))
        } else {
            ws.push(seq![c])
        }
    }
}

/// `rest` cut into lines of exactly `width` characters, followed by the
/// shorter (possibly empty) remainder.
pub open spec fn chunk_lines(rest: Seq<char>, width: nat) -> Seq<Seq<char>>
    decreases rest.len(),
{
    if width == 0 || rest.len() < width {
        seq![rest]
    } else {
        seq![rest.take(width as int)] + chunk_lines(rest.skip(width as int), width)
    }
}

/// Whether a line break is put before a word that does not fit on the
/// current line: only after a non-empty line that does not already end in a
/// newline character.
pub open spec fn breaks_before(cur: Seq<char>) -> bool {
    cur.len() > 0 && cur.last() != '\n'
}

/// Lays out one more word. The state is the lines laid out so far, the last
/// of which is being filled, and the width that the wrapper counts for that
/// line; the count restarts at the word after a newline character that ends a
/// line, and otherwise is the length of the line.
pub open spec fn wrap_step(state: (Seq<Seq<char>>, nat), w: Seq<char>, width: nat) -> (
    Seq<Seq<char>>,
    nat,
) {
    let lines = state.0;
    let cur = state.1;
    let line = lines.last();
    let last = lines.len() - 1;
    if cur + w.len() <= width {
        (lines.update(last, line + w), cur + w.len())
    } else if w.len() > width {
        let room: int = if cur <= width { width - cur } else { 0 };
        let chunks = chunk_lines(w.skip(room), width);
        (lines.update(last, line + w.take(room)) + chunks, chunks.last().len())
    } else if breaks_before(line) {
        (lines.push(w), w.len())
    } else {
        (lines.update(last, line + w), w.len())
    }
}

/// The layout of the words `words` at width `width`: the lines, and the width
/// counted for the last line.
pub open spec fn wrap_words(words: Seq<Seq<char>>, width: nat) -> (Seq<Seq<char>>, nat)
    decreases words.len(),
{
    if words.len() == 0 {
        (seq![seq![]], 0)
    } else {
        wrap_step(wrap_words(words.drop_last(), width), words.last(), width)
    }
}

/// The lines that `text` is wrapped into at width `width`.
pub open spec fn wrap_lines(text: Seq<char>, width: nat) -> Seq<Seq<char>> {
    wrap_words(split_words(text), width).0
}

/// The number of lines reported for `text` wrapped at width `width`: a last
/// line left empty after a break is not counted, unless it is the only line.
pub open spec fn wrap_line_count(text: Seq<char>, width: nat) -> nat {
    let layout = wrap_words(split_words(text), width);
    if layout.1 > 0 || layout.0.len() == 1 {
        layout.0.len()
    } else {
        (layout.0.len() - 1) as nat
    }
}

/// The lines joined by newline characters.
pub open spec fn join_lines(lines: Seq<Seq<char>>) -> Seq<char>
    decreases lines.len(),
{
    if lines.len() == 0 {
        seq![]
    } else if lines.len() == 1 {
        lines[0]
    } else {
        join_lines(lines.drop_last()) + seq!['\n'] + lines.last()
    }
}

/// All the characters of the lines, in order.
pub open spec fn flatten(lines: Seq<Seq<char>>) -> Seq<char>
    decreases lines.len(),
{
    if lines.len() == 0 {
        seq![]
    } else {
        flatten(lines.drop_last()) + lines.last()
    }
}

proof fn lemma_join_append_last(lines: Seq<Seq<char>>, x: Seq<char>)
    requires
        lines.len() > 0,
    ensures
        join_lines(lines.update(lines.len() - 1, lines.last() + x)) == join_lines(lines) + x,
{
    let l2 = lines.update(lines.len() - 1, lines.last() + x);
    if lines.len() > 1 {
        assert(l2.drop_last() =~= lines.drop_last());
    }
}

proof fn lemma_join_push(lines: Seq<Seq<char>>, y: Seq<char>)
    requires
        lines.len() > 0,
    ensures
        join_lines(lines.push(y)) == join_lines(lines) + seq!['\n'] + y,
{
    assert(lines.push(y).drop_last() =~= lines);
}

proof fn lemma_flatten_single(x: Seq<char>)
    ensures
        flatten(seq![x]) == x,
{
    let e = Seq::<Seq<char>>::empty();
    assert(seq![x].drop_last() =~= e);
    assert(flatten(e) == Seq::<char>::empty());
    assert(Seq::<char>::empty() + x =~= x);
}

proof fn lemma_flatten_update_last(lines: Seq<Seq<char>>, x: Seq<char>)
    requires
        lines.len() > 0,
    ensures
        flatten(lines.update(lines.len() - 1, x)) == flatten(lines.drop_last()) + x,
{
    assert(lines.update(lines.len() - 1, x).drop_last() =~= lines.drop_last());
}

proof fn lemma_flatten_push(lines: Seq<Seq<char>>, x: Seq<char>)
    ensures
        flatten(lines.push(x)) == flatten(lines) + x,
{
    assert(lines.push(x).drop_last() =~= lines);
}

proof fn lemma_flatten_concat(a: Seq<Seq<char>>, b: Seq<Seq<char>>)
    ensures
        flatten(a + b) == flatten(a) + flatten(b),
    decreases b.len(),
{
    if b.len() == 0 {
        assert(a + b =~= a);
        assert(flatten(a) + flatten(b) =~= flatten(a));
    } else {
        lemma_flatten_concat(a, b.drop_last());
        assert((a + b).drop_last() =~= a + b.drop_last());
        assert(flatten(a) + flatten(b.drop_last()) + b.last() =~= flatten(a) + (flatten(
            b.drop_last(),
        ) + b.last()));
    }
}

proof fn lemma_flatten_chunks(rest: Seq<char>, width: nat)
    ensures
        flatten(chunk_lines(rest, width)) == rest,
    decreases rest.len(),
{
    if width == 0 || rest.len() < width {
        lemma_flatten_single(rest);
    } else {
        let head = seq![rest.take(width as int)];
        lemma_flatten_chunks(rest.skip(width as int), width);
        lemma_flatten_concat(head, chunk_lines(rest.skip(width as int), width));
        lemma_flatten_single(rest.take(width as int));
        assert(rest.take(width as int) + rest.skip(width as int) =~= rest);
    }
}

proof fn lemma_flatten_step(state: (Seq<Seq<char>>, nat), w: Seq<char>, width: nat)
    requires
        state.0.len() > 0,
    ensures
        flatten(wrap_step(state, w, width).0) == flatten(state.0) + w,
        wrap_step(state, w, width).0.len() >= state.0.len(),
{
    let lines = state.0;
    let cur = state.1;
    let line = lines.last();
    let last = lines.len() - 1;
    assert(flatten(lines) == flatten(lines.drop_last()) + line);
    if cur + w.len() <= width {
        lemma_flatten_update_last(lines, line + w);
        assert(flatten(lines.drop_last()) + (line + w) =~= flatten(lines) + w);
    } else if w.len() > width {
        let room: int = if cur <= width { width - cur } else { 0 };
        let l1 = lines.update(last, line + w.take(room));
        lemma_flatten_update_last(lines, line + w.take(room));
        lemma_flatten_concat(l1, chunk_lines(w.skip(room), width));
        lemma_flatten_chunks(w.skip(room), width);
        assert(w.take(room) + w.skip(room) =~= w);
        assert(flatten(lines.drop_last()) + (line + w.take(room)) + w.skip(room) =~= flatten(lines)
            + w);
    } else if breaks_before(line) {
        lemma_flatten_push(lines, w);
    } else {
        lemma_flatten_update_last(lines, line + w);
        assert(flatten(lines.drop_last()) + (line + w) =~= flatten(lines) + w);
    }
}

proof fn lemma_wrap_words_shape(words: Seq<Seq<char>>, width: nat)
    ensures
        wrap_words(words, width).0.len() > 0,
        flatten(wrap_words(words, width).0) == flatten(words),
    decreases words.len(),
{
    if words.len() == 0 {
        lemma_flatten_single(seq![]);
    } else {
        lemma_wrap_words_shape(words.drop_last(), width);
        lemma_flatten_step(wrap_words(words.drop_last(), width), words.last(), width);
    }
}

proof fn lemma_flatten_split_words(s: Seq<char>)
    ensures
        flatten(split_words(s)) == s,
    decreases s.len(),
{
    if s.len() > 0 {
        let ws = split_words(s.drop_last());
        let c = s.last();
        lemma_flatten_split_words(s.drop_last());
        if c == ' ' {
            lemma_flatten_push(ws, seq![' ']);
        } else if ws.len() > 0 && ws.last() != seq![' '] {
            lemma_flatten_update_last(ws, ws.last().push(c));
            assert(flatten(ws) == flatten(ws.drop_last()) + ws.last());
        } else {
            lemma_flatten_push(ws, seq![c]);
        }
        assert(s.drop_last().push(c) =~= s);
    }
}

proof fn lemma_flatten_take_len(ws: Seq<Seq<char>>, k: int)
    requires
        0 <= k <= ws.len(),
    ensures
        flatten(ws.take(k)).len() <= flatten(ws).len(),
    decreases ws.len() - k,
{
    if k < ws.len() {
        lemma_flatten_take_len(ws, k + 1);
        assert(ws.take(k + 1).drop_last() =~= ws.take(k));
    } else {
        assert(ws.take(k) =~= ws);
    }
}

proof fn lemma_join_len(lines: Seq<Seq<char>>)
    requires
        lines.len() > 0,
    ensures
        join_lines(lines).len() + 1 >= lines.len() + lines.last().len(),
    decreases lines.len(),
{
    if lines.len() > 1 {
        lemma_join_len(lines.drop_last());
    }
}

proof fn lemma_join_last(lines: Seq<Seq<char>>)
    requires
        lines.len() > 0,
        lines.last().len() > 0,
    ensures
        join_lines(lines).last() == lines.last().last(),
{
}

/// `s` holds no newline character.
pub open spec fn no_newline(s: Seq<char>) -> bool {
    forall|i: int| 0 <= i < s.len() ==> s[i] != '\n'
}

/// Every line is at most `width` wide and holds no newline character.
pub open spec fn lines_fit(lines: Seq<Seq<char>>, width: nat) -> bool {
    forall|i: int| 0 <= i < lines.len() ==> #[trigger] lines[i].len() <= width && no_newline(lines[i])
}

proof fn lemma_chunks_fit(rest: Seq<char>, width: nat)
    requires
        width > 0,
        no_newline(rest),
    ensures
        lines_fit(chunk_lines(rest, width), width),
        chunk_lines(rest, width).len() > 0,
    decreases rest.len(),
{
    if rest.len() >= width {
        let tail = rest.skip(width as int);
        lemma_chunks_fit(tail, width);
        let c = chunk_lines(rest, width);
        assert(c == seq![rest.take(width as int)] + chunk_lines(tail, width));
        assert forall|i: int| 0 <= i < c.len() implies #[trigger] c[i].len() <= width && no_newline(
            c[i],
        ) by {
            if i > 0 {
                assert(c[i] == chunk_lines(tail, width)[i - 1]);
            }
        }
    }
}

proof fn lemma_split_words_no_newline(s: Seq<char>)
    requires
        no_newline(s),
    ensures
        forall|i: int| 0 <= i < split_words(s).len() ==> no_newline(#[trigger] split_words(s)[i]),
    decreases s.len(),
{
    if s.len() > 0 {
        let ws = split_words(s.drop_last());
        lemma_split_words_no_newline(s.drop_last());
        let c = s.last();
        assert(c != '\n');
        let r = split_words(s);
        assert forall|i: int| 0 <= i < r.len() implies no_newline(#[trigger] r[i]) by {
            if i < ws.len() && !(c != ' ' && ws.len() > 0 && ws.last() != seq![' '] && i == ws.len()
                - 1) {
                assert(r[i] == ws[i]);
            }
        }
    }
}

/// The invariant of a layout whose words hold no newline character.
spec fn fits_state(state: (Seq<Seq<char>>, nat), width: nat) -> bool {
    &&& state.0.len() > 0
    &&& state.1 == state.0.last().len()
    &&& lines_fit(state.0, width)
}

proof fn lemma_step_fits(state: (Seq<Seq<char>>, nat), w: Seq<char>, width: nat)
    requires
        width > 0,
        fits_state(state, width),
        no_newline(w),
    ensures
        fits_state(wrap_step(state, w, width), width),
{
    let lines = state.0;
    let cur = state.1;
    let line = lines.last();
    let last = lines.len() - 1;
    let next = wrap_step(state, w, width);
    assert(line.len() <= width && no_newline(line)) by {
        assert(lines[last] == line);
    }
    if cur + w.len() <= width {
        let nl = line + w;
        assert(no_newline(nl)) by {
            assert forall|j: int| 0 <= j < nl.len() implies nl[j] != '\n' by {
                if j < line.len() {
                    assert(nl[j] == line[j]);
                } else {
                    assert(nl[j] == w[j - line.len()]);
                }
            }
        }
        assert(lines_fit(next.0, width)) by {
            assert forall|i: int| 0 <= i < next.0.len() implies #[trigger] next.0[i].len() <= width
                && no_newline(next.0[i]) by {
                if i != last {
                    assert(next.0[i] == lines[i]);
                }
            }
        }
    } else if w.len() > width {
        let room: int = width - cur;
        let head = w.take(room);
        let nl = line + head;
        let rest = w.skip(room);
        assert(no_newline(rest)) by {
            assert forall|j: int| 0 <= j < rest.len() implies rest[j] != '\n' by {
                assert(rest[j] == w[j + room]);
            }
        }
        lemma_chunks_fit(rest, width);
        let chunks = chunk_lines(rest, width);
        let l1 = lines.update(last, nl);
        assert(no_newline(nl)) by {
            assert forall|j: int| 0 <= j < nl.len() implies nl[j] != '\n' by {
                if j < line.len() {
                    assert(nl[j] == line[j]);
                } else {
                    assert(nl[j] == w[j - line.len()]);
                }
            }
        }
        assert(next.0 == l1 + chunks);
        assert(lines_fit(next.0, width)) by {
            assert forall|i: int| 0 <= i < next.0.len() implies #[trigger] next.0[i].len() <= width
                && no_newline(next.0[i]) by {
                if i < l1.len() {
                    assert(next.0[i] == l1[i]);
                    if i != last {
                        assert(l1[i] == lines[i]);
                    }
                } else {
                    assert(next.0[i] == chunks[i - l1.len()]);
                }
            }
        }
        assert(next.0.last() == chunks.last());
    } else {
        assert(cur > 0);
        assert(line.last() == line[line.len() - 1]);
        assert(breaks_before(line));
        assert(next.0 == lines.push(w));
        assert(lines_fit(next.0, width)) by {
            assert forall|i: int| 0 <= i < next.0.len() implies #[trigger] next.0[i].len() <= width
                && no_newline(next.0[i]) by {
                if i < lines.len() {
                    assert(next.0[i] == lines[i]);
                }
            }
        }
    }
}

proof fn lemma_words_fit(words: Seq<Seq<char>>, width: nat)
    requires
        width > 0,
        forall|i: int| 0 <= i < words.len() ==> no_newline(#[trigger] words[i]),
    ensures
        fits_state(wrap_words(words, width), width),
    decreases words.len(),
{
    if words.len() == 0 {
        let l = seq![Seq::<char>::empty()];
        assert(lines_fit(l, width)) by {
            assert forall|i: int| 0 <= i < l.len() implies #[trigger] l[i].len() <= width
                && no_newline(l[i]) by {
                assert(l[i] == Seq::<char>::empty());
            }
        }
    } else {
        let prefix = words.drop_last();
        assert forall|i: int| 0 <= i < prefix.len() implies no_newline(#[trigger] prefix[i]) by {
            assert(prefix[i] == words[i]);
        }
        lemma_words_fit(prefix, width);
        assert(no_newline(words[words.len() - 1]));
        lemma_step_fits(wrap_words(prefix, width), words.last(), width);
    }
}

/// Wrapping only inserts line breaks: the lines, put back together, are the
/// text again, character for character.
pub proof fn lemma_wrap_keeps_text(text: Seq<char>, width: nat)
    ensures
        flatten(wrap_lines(text, width)) == text,
        wrap_lines(text, width).len() > 0,
{
    lemma_wrap_words_shape(split_words(text), width);
    lemma_flatten_split_words(text);
}

/// A text without newline characters is wrapped into lines that are each at
/// most `width` wide, and the reported line count is at least one and at most
/// the number of lines.
pub proof fn lemma_wrap_lines_fit(text: Seq<char>, width: nat)
    requires
        width > 0,
        no_newline(text),
    ensures
        forall|i: int|
            0 <= i < wrap_lines(text, width).len() ==> #[trigger] wrap_lines(text, width)[i].len()
                <= width,
        1 <= wrap_line_count(text, width) <= wrap_lines(text, width).len(),
{
    lemma_split_words_no_newline(text);
    lemma_words_fit(split_words(text), width);
    let lines = wrap_lines(text, width);
    assert forall|i: int| 0 <= i < lines.len() implies #[trigger] lines[i].len() <= width by {
        assert(lines[i].len() <= width && no_newline(lines[i]));
    }
}

/// Appends `src[from..to]` to `dst`.
fn push_range(dst: &mut Vec<char>, src: &Vec<char>, from: usize, to: usize)
    requires
        from <= to <= src.len(),
    ensures
        final(dst)@ == old(dst)@ + src@.subrange(from as int, to as int),
{
    let mut i = from;
    while i < to
        invariant
            from <= i <= to <= src.len(),
            dst@ == old(dst)@ + src@.subrange(from as int, i as int),
        decreases to - i,
    {
        dst.push(src[i]);
        proof {
            assert(src@.subrange(from as int, i + 1) =~= src@.subrange(from as int, i as int).push(
                src@[i as int],
            ));
        }
        i = i + 1;
    }
}

/// Splits the characters of a text into the words of `split_words`.
fn words_of(v: &Vec<char>) -> (words: Vec<Vec<char>>)
    ensures
        words@.map_values(|w: Vec<char>| w@) == split_words(v@),
{
    let mut words: Vec<Vec<char>> = Vec::new();
    let mut current: Vec<char> = Vec::new();
    let mut i: usize = 0;
    while i < v.len()
        invariant
            i <= v.len(),
            forall|j: int| 0 <= j < current@.len() ==> current@[j] != ' ',
            current@.len() == 0 ==> words@.len() == 0 || words@.last()@ == seq![' '],
            split_words(v@.take(i as int)) == if current@.len() == 0 {
                words@.map_values(|w: Vec<char>| w@)
            } else {
                words@.map_values(|w: Vec<char>| w@).push(current@)
            },
        decreases v.len() - i,
    {
        let c = v[i];
        let ghost before = words@.map_values(|w: Vec<char>| w@);
        assert(v@.take(i + 1).drop_last() =~= v@.take(i as int));
        if c == ' ' {
            if current.len() > 0 {
                let ghost cw = current@;
                words.push(current);
                current = Vec::new();
                assert(words@.map_values(|w: Vec<char>| w@) =~= before.push(cw));
            } else {
                assert(words@.map_values(|w: Vec<char>| w@) =~= before);
            }
            let ghost mid = words@.map_values(|w: Vec<char>| w@);
            assert(mid == split_words(v@.take(i as int)));
            let sp = vec![' '];
            assert(sp@ =~= seq![' ']);
            words.push(sp);
            assert(words@.map_values(|w: Vec<char>| w@) =~= mid.push(seq![' ']));
            assert(v@.take(i + 1).last() == ' ');
        } else {
            let ghost cur_before = current@;
            current.push(c);
            proof {
                if cur_before.len() > 0 {
                    assert(cur_before != seq![' ']) by {
                        assert(cur_before[0] != ' ');
                    }
                    assert(before.push(cur_before).last() != seq![' ']);
                    assert(before.push(cur_before).update(before.len() as int, cur_before.push(c))
                        =~= before.push(current@));
                } else {
                    if before.len() > 0 {
                        assert(before.last() == words@.last()@);
                    }
                }
            }
        }
        i = i + 1;
    }
    if current.len() > 0 {
        words.push(current);
    }
    assert(v@.take(v.len() as int) =~= v@);
    assert(words@.map_values(|w: Vec<char>| w@) =~= split_words(v@));
    words
}

/// Simulates word wrapping on the input buffer and returns the wrapped string and line count.
///
/// With a width of zero the text is returned as it is, as one line.
#[verifier::rlimit(40)]
pub fn wrap_text(text: &str, max_width: usize) -> (res: (String, usize))
    ensures
        max_width == 0 ==> res.0@ == text@ && res.1 == 1,
        max_width > 0 ==> res.0@ == join_lines(wrap_lines(text@, max_width as nat)) && res.1
            == wrap_line_count(text@, max_width as nat),
{
    let chars = chars_of(text);
    if max_width == 0 {
        return (string_from_chars(chars.as_slice()), 1);
    }
    let words = words_of(&chars);
    let ghost wseq = words@.map_values(|w: Vec<char>| w@);
    let mut wrapped: Vec<char> = Vec::new();
    let mut current_line_len: usize = 0;
    let mut line_count: usize = 0;
    let ghost mut lines: Seq<Seq<char>> = seq![seq![]];
    let mut k: usize = 0;
    proof {
        lemma_flatten_split_words(chars@);
    }
    while k < words.len()
        invariant
            wseq == words@.map_values(|w: Vec<char>| w@),
            wseq == split_words(chars@),
            flatten(wseq) == chars@,
            k <= words.len(),
            max_width > 0,
            (lines, current_line_len as nat) == wrap_words(wseq.take(k as int), max_width as nat),
            lines.len() > 0,
            wrapped@ == join_lines(lines),
            current_line_len <= lines.last().len(),
            line_count == lines.len() - 1,
        decreases words.len() - k,
    {
        let w = &words[k];
        let ww = w.len();
        proof {
            assert(wseq.take(k + 1).drop_last() =~= wseq.take(k as int));
            assert(wseq.take(k + 1).last() == w@);
            lemma_wrap_words_shape(wseq.take(k as int), max_width as nat);
            lemma_flatten_push(wseq.take(k as int), w@);
            assert(wseq.take(k as int).push(w@) =~= wseq.take(k + 1));
            lemma_flatten_take_len(wseq, k + 1);
            assert(flatten(lines) == flatten(lines.drop_last()) + lines.last());
            assert(flatten(wseq.take(k + 1)).len() <= chars@.len());
            assert(current_line_len + ww <= flatten(wseq.take(k + 1)).len());

        }
        assert(chars@.len() == chars.len());
        let ghost target = wrap_step((lines, current_line_len as nat), w@, max_width as nat);
        assert(target == wrap_words(wseq.take(k + 1), max_width as nat));
        proof {
            lemma_flatten_step((lines, current_line_len as nat), w@, max_width as nat);
        }
        if current_line_len + ww <= max_width {
            push_range(&mut wrapped, w, 0, ww);
            proof {
                assert(w@.subrange(0, ww as int) =~= w@);
                lemma_join_append_last(lines, w@);
                lines = lines.update(lines.len() - 1, lines.last() + w@);
            }
            current_line_len = current_line_len + ww;
            assert(current_line_len <= lines.last().len());
        } else if ww > max_width {
            let room: usize = if current_line_len <= max_width {
                max_width - current_line_len
            } else {
                0
            };
            push_range(&mut wrapped, w, 0, room);
            proof {
                assert(w@.subrange(0, room as int) =~= w@.take(room as int));
                lemma_join_append_last(lines, w@.take(room as int));
                lines = lines.update(lines.len() - 1, lines.last() + w@.take(room as int));
                lemma_join_len(lines);
            }
            let ghost base = lines;
            wrapped.push('\n');
            proof {
                lemma_join_push(lines, seq![]);
                lines = lines.push(seq![]);
                lemma_join_len(lines);
            }
            // The length of `wrapped` fits in a `usize`, and it bounds the line count.
            let _ = wrapped.len();
            line_count = line_count + 1;
            let mut pos: usize = room;
            while ww - pos >= max_width
                invariant
                    room <= pos <= ww,
                    ww == w@.len(),
                    max_width > 0,
                    lines.len() > 0,
                    lines.last() == Seq::<char>::empty(),
                    lines.drop_last() + chunk_lines(w@.skip(pos as int), max_width as nat)
                        == base + chunk_lines(w@.skip(room as int), max_width as nat),
                    wrapped@ == join_lines(lines),
                    line_count == lines.len() - 1,
                decreases ww - pos,
            {
                let ghost r = w@.skip(pos as int);
                push_range(&mut wrapped, w, pos, pos + max_width);
                proof {
                    assert(w@.subrange(pos as int, pos + max_width) =~= r.take(max_width as int));
                    assert(r.skip(max_width as int) =~= w@.skip(pos + max_width));
                    lemma_join_append_last(lines, r.take(max_width as int));
                    let l1 = lines.update(lines.len() - 1, lines.last() + r.take(max_width as int));
                    assert(Seq::<char>::empty() + r.take(max_width as int) =~= r.take(
                        max_width as int,
                    ));
                    assert(l1 =~= lines.drop_last().push(r.take(max_width as int)));
                    lemma_join_push(l1, seq![]);
                    assert(l1.push(seq![]).drop_last() =~= l1);
                    assert(chunk_lines(r, max_width as nat) == seq![r.take(max_width as int)]
                        + chunk_lines(r.skip(max_width as int), max_width as nat));
                    assert(lines.drop_last() + chunk_lines(r, max_width as nat) =~= l1 + chunk_lines(
                        r.skip(max_width as int),
                        max_width as nat,
                    ));
                    lines = l1.push(seq![]);
                    lemma_join_len(lines);
                }
                wrapped.push('\n');
                // The length of `wrapped` fits in a `usize`, and it bounds the line count.
                let _ = wrapped.len();
                line_count = line_count + 1;
                pos = pos + max_width;
            }
            push_range(&mut wrapped, w, pos, ww);
            proof {
                let r = w@.skip(pos as int);
                assert(w@.subrange(pos as int, ww as int) =~= r);
                assert(chunk_lines(r, max_width as nat) == seq![r]);
                lemma_join_append_last(lines, r);
                assert(Seq::<char>::empty() + r =~= r);
                lines = lines.update(lines.len() - 1, lines.last() + r);
                assert(lines.last() == r);
                assert(r.len() == ww - pos);
                assert(lines =~= base + chunk_lines(w@.skip(room as int), max_width as nat));
            }
            current_line_len = ww - pos;
            assert(current_line_len <= lines.last().len());
        } else {
            proof {
                lemma_join_len(lines);
            }
            if wrapped[wrapped.len() - 1] != '\n' {
                proof {
                    lemma_join_last(lines);
                }
                wrapped.push('\n');
                proof {
                    lemma_join_push(lines, seq![]);
                    lines = lines.push(seq![]);
                    lemma_join_len(lines);
                }
                // The length of `wrapped` fits in a `usize`, and it bounds the line count.
                let _ = wrapped.len();
                line_count = line_count + 1;
            } else {
                proof {
                    lemma_join_last(lines);
                }
            }
            push_range(&mut wrapped, w, 0, ww);
            proof {
                assert(w@.subrange(0, ww as int) =~= w@);
                lemma_join_append_last(lines, w@);
                assert(Seq::<char>::empty() + w@ =~= w@);
                lines = lines.update(lines.len() - 1, lines.last() + w@);
            }
            current_line_len = ww;
            assert(current_line_len <= lines.last().len());
        }
        assert(lines =~= target.0);
        k = k + 1;
    }
    proof {
        assert(wseq.take(words.len() as int) =~= wseq);
        lemma_join_len(lines);
    }
    // The length of `wrapped` fits in a `usize`, and it bounds the line count.
    let _ = wrapped.len();
    if current_line_len > 0 || line_count == 0 {
        line_count = line_count + 1;
    }
    (string_from_chars(wrapped.as_slice()), line_count)
}


/// A rectangle of terminal cells.
#[derive(Debug, Clone, Copy, PartialEq, Eq, Structural)]
pub struct Area {
    pub x: u16,
    pub y: u16,
    pub width: u16,
    pub height: u16,
}

/// The direction in which an area is split.
#[derive(Debug, Clone, Copy, PartialEq, Eq, Structural)]
pub enum SplitDirection {
    /// Into columns, side by side.
    Horizontal,
    /// Into rows, one above the other.
    Vertical,
}

/// The size wanted for one part of a split area.
#[derive(Debug, Clone, Copy, PartialEq, Eq, Structural)]
pub enum SizeConstraint {
    /// Exactly this many cells.
    Length(u16),
    /// At least this many cells.
    Min(u16),
    /// This percentage of the area.
    Percentage(u16),
}

/// The column just right of `a`, as ratatui's `Rect::right` computes it
/// (saturating at `u16::MAX`).
pub open spec fn right_edge(a: Area) -> int {
    if a.x + a.width <= 65535 {
        a.x + a.width
    } else {
        65535
    }
}

/// The row just below `a`, as ratatui's `Rect::bottom` computes it
/// (saturating at `u16::MAX`).
pub open spec fn bottom_edge(a: Area) -> int {
    if a.y + a.height <= 65535 {
        a.y + a.height
    } else {
        65535
    }
}

/// Whether `parts` is a split that ratatui's `Layout`, with no margin and no
/// spacing, can give of `area` under `constraints`.
///
/// This names a relation, not a function: its constraint solver (kasuari)
/// walks hash maps seeded per process when it picks pivots, so where two
/// splits are equally good, which one comes back is not fixed by the
/// arguments.
pub uninterp spec fn layout_outcome(
    direction: SplitDirection,
    constraints: Seq<SizeConstraint>,
    area: Area,
    parts: Seq<Area>,
) -> bool;

/// Splits `area` into one part per constraint.
///
/// Trusted: calls ratatui's `Layout::split` (ratatui-core 0.1.2,
/// `layout.rs`). The parts are an outcome of its solver for these
/// arguments (`layout_outcome`); where they fall along the split is not
/// stated further. What its source shows of every
/// outcome is stated: one part per constraint (`changes_to_rects` maps each
/// segment to a part); each part keeps the row and height of the area in a
/// horizontal split, its column and width in a vertical one; and along the
/// split each part lies within the area, because every boundary is held
/// there by a required constraint (`configure_variable_in_area_constraints`)
/// and a part's size is its end less its start, saturating at zero.
#[verifier::external_body]
fn split_area(direction: SplitDirection, constraints: &[SizeConstraint], area: Area) -> (parts: Vec<Area>)
    ensures
        layout_outcome(direction, constraints@, area, parts@),
        parts@.len() == constraints@.len(),
        forall|i: int|
            #![trigger parts@[i]]
            0 <= i < parts@.len() ==> {
                &&& direction == SplitDirection::Horizontal ==> {
                    &&& parts@[i].y == area.y
                    &&& parts@[i].height == area.height
                    &&& area.x <= parts@[i].x
                    &&& parts@[i].x + parts@[i].width <= right_edge(area)
                }
                &&& direction == SplitDirection::Vertical ==> {
                    &&& parts@[i].x == area.x
                    &&& parts@[i].width == area.width
                    &&& area.y <= parts@[i].y
                    &&& parts@[i].y + parts@[i].height <= bottom_edge(area)
                }
            },
{
    let d = match direction {
        SplitDirection::Horizontal => Direction::Horizontal,
        SplitDirection::Vertical => Direction::Vertical,
    };
    let cs = constraints.iter().map(|c| match *c {
        SizeConstraint::Length(n) => Constraint::Length(n),
        SizeConstraint::Min(n) => Constraint::Min(n),
        SizeConstraint::Percentage(n) => Constraint::Percentage(n),
    });
    let r = Rect { x: area.x, y: area.y, width: area.width, height: area.height };
    let parts = Layout::default().direction(d).constraints(cs).split(r);
    parts.iter().map(|p| Area { x: p.x, y: p.y, width: p.width, height: p.height }).collect()
}

/// What holds of every split that `split_layout` gives: an outcome of the
/// solver, one part per constraint, each keeping the area's extent across
/// the split and lying within it along the split.
pub open spec fn is_split(
    direction: SplitDirection,
    constraints: Seq<SizeConstraint>,
    area: Area,
    parts: Seq<Area>,
) -> bool {
    &&& layout_outcome(direction, constraints, area, parts)
    &&& parts.len() == constraints.len()
    &&& forall|i: int|
        #![trigger parts[i]]
        0 <= i < parts.len() ==> {
            &&& direction == SplitDirection::Horizontal ==> {
                &&& parts[i].y == area.y
                &&& parts[i].height == area.height
                &&& area.x <= parts[i].x
                &&& parts[i].x + parts[i].width <= right_edge(area)
            }
            &&& direction == SplitDirection::Vertical ==> {
                &&& parts[i].x == area.x
                &&& parts[i].width == area.width
                &&& area.y <= parts[i].y
                &&& parts[i].y + parts[i].height <= bottom_edge(area)
            }
        }
}

/// Splits `area` into one part per constraint with ratatui's layout solver.
pub fn split_layout(direction: SplitDirection, constraints: &[SizeConstraint], area: Area) -> (parts: Vec<Area>)
    ensures
        is_split(direction, constraints@, area, parts@),
{
    split_area(direction, constraints, area)
}

/// `area` less `margin` cells on every side, as ratatui's `Rect::inner`
/// computes it: nothing is left of an area too small for the margins.
pub open spec fn inner_spec(area: Area, margin: u16) -> Area {
    if area.width < 2 * margin || area.height < 2 * margin {
        Area { x: 0, y: 0, width: 0, height: 0 }
    } else {
        Area {
            x: if area.x + margin <= 65535 { (area.x + margin) as u16 } else { 65535 },
            y: if area.y + margin <= 65535 { (area.y + margin) as u16 } else { 65535 },
            width: (area.width - 2 * margin) as u16,
            height: (area.height - 2 * margin) as u16,
        }
    }
}

/// `area` less `margin` cells on every side.
pub fn inner_area(area: Area, margin: u16) -> (a: Area)
    ensures
        a == inner_spec(area, margin),
{
    let doubled: u32 = 2 * (margin as u32);
    if (area.width as u32) < doubled || (area.height as u32) < doubled {
        Area { x: 0, y: 0, width: 0, height: 0 }
    } else {
        Area {
            x: area.x.saturating_add(margin),
            y: area.y.saturating_add(margin),
            width: ((area.width as u32) - doubled) as u16,
            height: ((area.height as u32) - doubled) as u16,
        }
    }
}

/// `a - b`, or 0 when `b` is larger.
pub open spec fn saturating_sub(a: u16, b: u16) -> u16 {
    if a >= b {
        (a - b) as u16
    } else {
        0
    }
}

/// The constraints that center a part of `size` cells in `total` cells:
/// half of the room left over, then `size`, then the rest.
pub open spec fn centering_spec(total: u16, size: u16) -> Seq<SizeConstraint> {
    seq![
        SizeConstraint::Length((saturating_sub(total, size) / 2) as u16),
        SizeConstraint::Length(size),
        SizeConstraint::Min(0),
    ]
}

/// The constraints that center a part of `size` cells in `total` cells.
pub fn centering(total: u16, size: u16) -> (cs: Vec<SizeConstraint>)
    ensures
        cs@ == centering_spec(total, size),
{
    let before = if total >= size { (total - size) / 2 } else { 0 };
    vec![SizeConstraint::Length(before), SizeConstraint::Length(size), SizeConstraint::Min(0)]
}

/// Helper function to create a centered rect of a specific size inside a parent rect.
///
/// The area is asked of ratatui's layout solver: the middle of three rows
/// (the space above, `height`, the rest), then the middle of three columns
/// of that row (the space to the left, `width`, the rest), each split under
/// the constraints of `centering`. The result is the middle column of such
/// splits, whichever the solver picks, and lies within `r`.
pub fn centered_rect(width: u16, height: u16, r: Area) -> (c: Area)
    ensures
        exists|rows: Seq<Area>, cols: Seq<Area>|
            #![trigger
                is_split(SplitDirection::Vertical, centering_spec(r.height, height), r, rows),
                is_split(SplitDirection::Horizontal, centering_spec(r.width, width), rows[1], cols)]
            {
                &&& is_split(SplitDirection::Vertical, centering_spec(r.height, height), r, rows)
                &&& is_split(SplitDirection::Horizontal, centering_spec(r.width, width), rows[1], cols)
                &&& c == cols[1]
            },
        r.x <= c.x,
        c.x + c.width <= right_edge(r),
        r.y <= c.y,
        c.y + c.height <= bottom_edge(r),
{
    let rows = split_layout(SplitDirection::Vertical, centering(r.height, height).as_slice(), r);
    let cols = split_layout(SplitDirection::Horizontal, centering(r.width, width).as_slice(), rows[1]);
    assert(is_split(SplitDirection::Vertical, centering_spec(r.height, height), r, rows@));
    cols[1]
}

/// How a piece of the key-binding footer is styled: the separator and the
/// descriptions are dim, a key is bold in its own colour.
#[derive(Debug, Clone, Copy)]
pub enum FooterStyle<C> {
    Separator,
    Key(C),
    Description,
}

/// A piece of the key-binding footer.
#[derive(Debug)]
pub struct FooterSpan<C> {
    pub text: String,
    pub style: FooterStyle<C>,
}

/// The pieces of the footer, by value.
pub open spec fn footer_view<C>(v: Seq<FooterSpan<C>>) -> Seq<(Seq<char>, FooterStyle<C>)> {
    v.map_values(|s: FooterSpan<C>| (s.text@, s.style))
}

/// The footer for `bindings` (key, description, colour): for each binding
/// the key and then a space and the description, with `"  |  "` between
/// bindings.
pub open spec fn footer_spans<C>(bindings: Seq<(&str, &str, C)>) -> Seq<(Seq<char>, FooterStyle<C>)>
    decreases bindings.len(),
{
    if bindings.len() == 0 {
        seq![]
    } else {
        let b = bindings.last();
        let sep: Seq<(Seq<char>, FooterStyle<C>)> = if bindings.len() > 1 {
            seq![("  |  "@, FooterStyle::Separator)]
        } else {
            seq![]
        };
        footer_spans(bindings.drop_last()) + sep + seq![
            (b.0@, FooterStyle::Key(b.2)),
            (seq![' '] + b.1@, FooterStyle::Description),
        ]
    }
}

/// Helper function to dynamically construct a footer line showing colored keybindings with dim descriptions.
pub fn make_keybindings_footer<C: Copy>(bindings: &[(&str, &str, C)]) -> (spans: Vec<FooterSpan<C>>)
    ensures
        footer_view(spans@) == footer_spans(bindings@),
{
    let mut spans: Vec<FooterSpan<C>> = Vec::new();
    let mut i: usize = 0;
    while i < bindings.len()
        invariant
            i <= bindings@.len(),
            footer_view(spans@) == footer_spans(bindings@.take(i as int)),
        decreases bindings@.len() - i,
    {
        let (key, desc, color) = bindings[i];
        let ghost before = footer_view(spans@);
        proof {
            assert(bindings@.take(i + 1).drop_last() =~= bindings@.take(i as int));
            assert(bindings@.take(i + 1).last() == (key, desc, color));
        }
        if i > 0 {
            spans.push(FooterSpan { text: String::from_str("  |  "), style: FooterStyle::Separator });
        }
        spans.push(FooterSpan { text: String::from_str(key), style: FooterStyle::Key(color) });
        let mut d: Vec<char> = Vec::new();
        d.push(' ');
        push_str_chars(&mut d, desc);
        spans.push(FooterSpan { text: string_from_chars(d.as_slice()), style: FooterStyle::Description });
        assert(footer_view(spans@) =~= footer_spans(bindings@.take(i + 1)));
        i = i + 1;
    }
    assert(bindings@.take(bindings@.len() as int) =~= bindings@);
    spans
}

/// How the chat room divides the screen: its rows from the top (header,
/// history, input prompt, footer), and, when the screen is wide enough, the
/// width of the users column at the right of the history.
pub struct ChatRoomLayout {
    pub rows: Vec<SizeConstraint>,
    pub users_column: Option<u16>,
    /// The columns of the body when the users column is shown: the history,
    /// then the users.
    pub body_columns: Vec<SizeConstraint>,
}

/// The chat room's layout on a screen `screen_width` wide, for an input
/// prompt `input_height` rows high: a one-row header, the history taking the
/// rest, the prompt, a one-row footer; the users column, 25 wide, is shown
/// from a width of 60 on.
pub fn chat_room_layout(screen_width: u16, input_height: u16) -> (l: ChatRoomLayout)
    ensures
        l.rows@ == seq![
            SizeConstraint::Length(1),
            SizeConstraint::Min(1),
            SizeConstraint::Length(input_height),
            SizeConstraint::Length(1),
        ],
        l.users_column == if screen_width >= 60 {
            Some(25u16)
        } else {
            None::<u16>
        },
        l.body_columns@ == seq![SizeConstraint::Min(0), SizeConstraint::Length(25)],
{
    let rows = vec![
        SizeConstraint::Length(1),
        SizeConstraint::Min(1),
        SizeConstraint::Length(input_height),
        SizeConstraint::Length(1),
    ];
    let users_column = if screen_width >= 60 {
        Some(25)
    } else {
        None
    };
    let body_columns = vec![SizeConstraint::Min(0), SizeConstraint::Length(25)];
    ChatRoomLayout { rows, users_column, body_columns }
}

} // verus!
