//! Texts made of lines, and how the handshake's readers walk them.
//!
//! A line ends with a line feed and holds no other. What is proved here is
//! that the readers of the handshake, set on a text made of such lines,
//! see exactly those lines, one after another.

use crate::ascii::{
    eq_ignore_case, first_index, is_space, lemma_first_index, lemma_first_index_is,
    lemma_trim_padded, lemma_trim_tidy, tidy, trim,
};
use crate::handshake::{block_end, crlf, field_of, header_line, is_blank, lookup, COLON, LF};
use vstd::prelude::*;
use vstd::utf8::*;

verus! {

/// Whether `line` ends with a line feed and holds no other.
pub open spec fn is_line(line: Seq<u8>) -> bool {
    line.len() > 0 && line.last() == LF && forall|i: int|
        0 <= i < line.len() - 1 ==> line[i] != LF
}

/// Whether `s` holds no line feed.
pub open spec fn on_one_line(s: Seq<u8>) -> bool {
    forall|i: int| 0 <= i < s.len() ==> s[i] != LF
}

/// Whether `s` holds no colon.
pub open spec fn without_colon(s: Seq<u8>) -> bool {
    forall|i: int| 0 <= i < s.len() ==> s[i] != COLON
}

/// The lines put one after another.
pub open spec fn flat(lines: Seq<Seq<u8>>) -> Seq<u8>
    decreases lines.len(),
{
    if lines.len() == 0 {
        Seq::empty()
    } else {
        flat(lines.drop_last()) + lines.last()
    }
}

/// The index at which line `k` begins in the text of `lines`.
pub open spec fn offset(lines: Seq<Seq<u8>>, k: int) -> int {
    flat(lines.take(k)).len() as int
}

/// The value of a header after the lines from `k` on, with `found` for the
/// lines before: the last line that names the header decides.
pub open spec fn fold_fields(
    lines: Seq<Seq<u8>>,
    k: int,
    name: Seq<u8>,
    trim_name: bool,
    found: Option<Seq<u8>>,
) -> Option<Seq<u8>>
    decreases lines.len() - k,
{
    if k < 0 || k >= lines.len() {
        found
    } else {
        match field_of(lines[k], name, trim_name) {
            Some(v) => fold_fields(lines, k + 1, name, trim_name, Some(v)),
            None => fold_fields(lines, k + 1, name, trim_name, found),
        }
    }
}

/// One more line makes the text longer by that line.
pub proof fn lemma_flat_push(lines: Seq<Seq<u8>>, line: Seq<u8>)
    ensures
        flat(lines.push(line)) == flat(lines) + line,
{
    assert(lines.push(line).drop_last() =~= lines);
}

/// Line `k` stands in the text where `offset` says.
pub proof fn lemma_flat_slice(lines: Seq<Seq<u8>>, k: int)
    requires
        0 <= k < lines.len(),
    ensures
        0 <= offset(lines, k),
        offset(lines, k + 1) == offset(lines, k) + lines[k].len(),
        offset(lines, k + 1) <= flat(lines).len(),
        flat(lines).subrange(offset(lines, k), offset(lines, k + 1)) == lines[k],
    decreases lines.len(),
{
    let front = lines.drop_last();
    if k == lines.len() - 1 {
        assert(lines.take(k) =~= front);
        assert(lines.take(k + 1) =~= lines);
        assert(flat(lines).subrange(flat(front).len() as int, flat(lines).len() as int)
            =~= lines.last());
    } else {
        lemma_flat_slice(front, k);
        assert(lines.take(k) =~= front.take(k));
        assert(lines.take(k + 1) =~= front.take(k + 1));
        assert(flat(lines).subrange(offset(lines, k), offset(lines, k + 1)) =~= flat(
            front,
        ).subrange(offset(front, k), offset(front, k + 1)));
    }
}

/// The text ends where the line after the last would begin.
pub proof fn lemma_offset_ends(lines: Seq<Seq<u8>>)
    ensures
        offset(lines, 0) == 0,
        offset(lines, lines.len() as int) == flat(lines).len(),
{
    assert(lines.take(0) =~= Seq::<Seq<u8>>::empty());
    assert(lines.take(lines.len() as int) =~= lines);
}

/// From the beginning of line `k`, the first line feed is the one that
/// ends line `k`.
pub proof fn lemma_line_end(lines: Seq<Seq<u8>>, k: int)
    requires
        0 <= k < lines.len(),
        is_line(lines[k]),
    ensures
        first_index(flat(lines), offset(lines, k), LF) == Some(offset(lines, k + 1) - 1),
{
    lemma_flat_slice(lines, k);
    let s = flat(lines);
    let from = offset(lines, k);
    let to = offset(lines, k + 1);
    assert forall|j: int| from <= j < to implies s[j] == lines[k][j - from] by {
        assert(s.subrange(from, to)[j - from] == s[j]);
    }
    lemma_first_index_is(s, from, LF, to - 1);
}

/// The header block that begins at line `k` ends with the whole text, where
/// the last line is blank and none before it, from `k` on, is.
pub proof fn lemma_block_end_lines(lines: Seq<Seq<u8>>, k: int, strict: bool)
    requires
        0 <= k < lines.len(),
        forall|i: int| 0 <= i < lines.len() ==> is_line(#[trigger] lines[i]),
        forall|i: int| k <= i < lines.len() - 1 ==> !is_blank(#[trigger] lines[i], strict),
        is_blank(lines.last(), strict),
    ensures
        block_end(flat(lines), offset(lines, k), strict) == Some(flat(lines).len() as int),
    decreases lines.len() - k,
{
    lemma_flat_slice(lines, k);
    lemma_line_end(lines, k);
    lemma_offset_ends(lines);
    if k < lines.len() - 1 {
        lemma_block_end_lines(lines, k + 1, strict);
    }
}

/// Looking a header up in the text of `lines`, from line `k` to the end,
/// comes to the same as asking line after line.
pub proof fn lemma_lookup_lines(
    lines: Seq<Seq<u8>>,
    k: int,
    name: Seq<u8>,
    trim_name: bool,
    found: Option<Seq<u8>>,
)
    requires
        0 <= k <= lines.len(),
        forall|i: int| 0 <= i < lines.len() ==> is_line(#[trigger] lines[i]),
    ensures
        lookup(flat(lines), offset(lines, k), flat(lines).len() as int, name, trim_name, found)
            == fold_fields(lines, k, name, trim_name, found),
    decreases lines.len() - k,
{
    lemma_offset_ends(lines);
    if k < lines.len() {
        lemma_flat_slice(lines, k);
        lemma_line_end(lines, k);
        match field_of(lines[k], name, trim_name) {
            Some(v) => lemma_lookup_lines(lines, k + 1, name, trim_name, Some(v)),
            None => lemma_lookup_lines(lines, k + 1, name, trim_name, found),
        }
    }
}

/// A header line whose name and value hold no line feed is a line, and not
/// a blank one.
pub proof fn lemma_header_line_is_line(name: Seq<char>, value: Seq<u8>)
    requires
        on_one_line(encode_utf8(name)),
        on_one_line(value),
        encode_utf8(name).len() > 0,
        !is_space(encode_utf8(name)[0]),
    ensures
        is_line(header_line(name, value)),
        !is_blank(header_line(name, value), true),
        !is_blank(header_line(name, value), false),
{
    let line = header_line(name, value);
    let n = encode_utf8(name);
    assert(line[0] == n[0]);
    crate::ascii::lemma_trim_end_keeps(line);
    assert(line.len() > 2);
}

/// The end of a line, alone, is a blank line that names no header.
pub proof fn lemma_crlf_is_blank(name: Seq<u8>, trim_name: bool)
    ensures
        is_line(crlf()),
        is_blank(crlf(), true),
        is_blank(crlf(), false),
        field_of(crlf(), name, trim_name) is None,
{
    let c = crlf();
    assert(c.drop_last() =~= seq![13u8]);
    assert(seq![13u8].drop_last() =~= Seq::<u8>::empty());
    reveal_with_fuel(crate::ascii::trim_end, 3);
    lemma_first_index(c, 0, COLON);
}

/// What a header line gives to a name: its value, trimmed, where the line's
/// own name is that name but for the case of letters, and nothing
/// otherwise. A tidy value is given as it is.
pub proof fn lemma_field_of_header_line(
    name: Seq<char>,
    value: Seq<u8>,
    wanted: Seq<u8>,
    trim_name: bool,
)
    requires
        without_colon(encode_utf8(name)),
        tidy(encode_utf8(name)),
    ensures
        field_of(header_line(name, value), wanted, trim_name) == if eq_ignore_case(
            encode_utf8(name),
            wanted,
        ) {
            Some(trim(seq![32u8] + value + crlf()))
        } else {
            None
        },
        tidy(value) ==> trim(seq![32u8] + value + crlf()) == value,
{
    let n = encode_utf8(name);
    let line = header_line(name, value);
    let c = n.len() as int;
    assert(line[c] == COLON);
    assert forall|j: int| 0 <= j < c implies line[j] != COLON by {
        assert(line[j] == n[j]);
    }
    lemma_first_index_is(line, 0, COLON, c);
    assert(line.subrange(0, c) =~= n);
    lemma_trim_tidy(n);
    assert(line.subrange(c + 1, line.len() as int) =~= seq![32u8] + value + crlf());
    if tidy(value) {
        lemma_trim_padded(seq![32u8], value, crlf());
    }
}

} // verus!
