//! Laws of the pieces that whitespace parts a text into, and of their
//! places in the source.

use crate::compound::{
    lemma_token_end, lemma_token_start, pieces_from, pieces_of, token_end, token_span,
    token_start, tokens_of, Piece, TokenView,
};
use crate::span::{offset_by, Span};
use crate::text::{byte_len, lemma_byte_len_concat, white_space};
use vstd::prelude::*;
use vstd::utf8::encode_utf8;

verus! {

/// Whether `text` is nothing but whitespace.
pub open spec fn all_white(text: Seq<char>) -> bool {
    forall|k: int| 0 <= k < text.len() ==> white_space(text[k])
}

/// Whether `text` holds no whitespace.
pub open spec fn none_white(text: Seq<char>) -> bool {
    forall|k: int| 0 <= k < text.len() ==> !white_space(text[k])
}

/// Whitespace before a piece does not count: the search for the next piece
/// may as well begin behind it.
pub proof fn lemma_skip_white(text: Seq<char>, from: int, to: int)
    requires
        0 <= from <= to <= text.len(),
        forall|k: int| from <= k < to ==> white_space(text[k]),
    ensures
        token_start(text, from) == token_start(text, to),
    decreases to - from,
{
    if from < to {
        lemma_skip_white(text, from + 1, to);
    }
}

/// A row of characters that are no whitespace, with whitespace or the end
/// of the text behind it, is where a piece ends.
pub proof fn lemma_token_end_run(text: Seq<char>, from: int, to: int)
    requires
        0 <= from <= to <= text.len(),
        forall|k: int| from <= k < to ==> !white_space(text[k]),
        to < text.len() ==> white_space(text[to]),
    ensures
        token_end(text, from) == to,
    decreases to - from,
{
    if from < to {
        lemma_token_end_run(text, from + 1, to);
    }
}

/// What the pieces found from `from` on are like: each is a row of
/// characters that are no whitespace, which begins where the search began or
/// behind whitespace, and ends at whitespace or with the text.
proof fn lemma_pieces_shape(text: Seq<char>, from: int)
    requires
        0 <= from,
    ensures
        forall|k: int|
            0 <= k < pieces_from(text, from).len() ==> {
                let piece = #[trigger] pieces_from(text, from)[k];
                &&& from <= piece.start < piece.end <= text.len()
                &&& none_white(text.subrange(piece.start, piece.end))
                &&& piece.start == from || white_space(text[piece.start - 1])
                &&& piece.end == text.len() || white_space(text[piece.end])
            },
    decreases text.len() - from,
{
    lemma_token_start(text, from);
    let start = token_start(text, from);
    if start < text.len() {
        lemma_token_end(text, start);
        let end = token_end(text, start);
        lemma_pieces_shape(text, end);
        let first = Piece { start, end };
        let rest = pieces_from(text, end);
        assert(pieces_from(text, from) == seq![first] + rest);
        assert forall|k: int| 0 <= k < pieces_from(text, from).len() implies {
            let piece = #[trigger] pieces_from(text, from)[k];
            &&& from <= piece.start < piece.end <= text.len()
            &&& none_white(text.subrange(piece.start, piece.end))
            &&& piece.start == from || white_space(text[piece.start - 1])
            &&& piece.end == text.len() || white_space(text[piece.end])
        } by {
            let piece = pieces_from(text, from)[k];
            if k > 0 {
                assert(piece == rest[k - 1]);
                assert(!white_space(text.subrange(piece.start, piece.end)[0]));
            } else {
                assert(piece == first);
                assert forall|j: int| 0 <= j < end - start implies !white_space(
                    text.subrange(start, end)[j],
                ) by {
                    assert(text.subrange(start, end)[j] == text[start + j]);
                }
            }
        }
    }
}

/// The pieces found from `from` on stand in the order of the text, with
/// whitespace between one and the next.
proof fn lemma_pieces_ordered(text: Seq<char>, from: int)
    requires
        0 <= from,
    ensures
        forall|k: int, l: int|
            0 <= k < l < pieces_from(text, from).len() ==> (#[trigger] pieces_from(
                text,
                from,
            )[k]).end < (#[trigger] pieces_from(text, from)[l]).start,
    decreases text.len() - from,
{
    lemma_token_start(text, from);
    let start = token_start(text, from);
    if start < text.len() {
        lemma_token_end(text, start);
        let end = token_end(text, start);
        lemma_pieces_ordered(text, end);
        lemma_pieces_shape(text, end);
        let first = Piece { start, end };
        let rest = pieces_from(text, end);
        assert(pieces_from(text, from) == seq![first] + rest);
        assert forall|k: int, l: int| 0 <= k < l < pieces_from(text, from).len() implies (
        #[trigger] pieces_from(text, from)[k]).end < (#[trigger] pieces_from(
            text,
            from,
        )[l]).start by {
            assert(pieces_from(text, from)[l] == rest[l - 1]);
            if k > 0 {
                assert(pieces_from(text, from)[k] == rest[k - 1]);
            } else {
                let later = rest[l - 1];
                assert(end <= later.start);
                assert(!white_space(text.subrange(later.start, later.end)[0]));
            }
        }
    }
}

/// No character that is no whitespace is left out: each one at or after
/// `from` stands in one of the pieces found from `from` on.
proof fn lemma_pieces_complete(text: Seq<char>, from: int, i: int)
    requires
        0 <= from <= i < text.len(),
        !white_space(text[i]),
    ensures
        exists|k: int|
            0 <= k < pieces_from(text, from).len() && (#[trigger] pieces_from(text, from)[k]).start
                <= i < pieces_from(text, from)[k].end,
    decreases text.len() - from,
{
    lemma_token_start(text, from);
    let start = token_start(text, from);
    lemma_token_end(text, start);
    let end = token_end(text, start);
    let first = Piece { start, end };
    let rest = pieces_from(text, end);
    assert(pieces_from(text, from) == seq![first] + rest);
    if i < end {
        assert(pieces_from(text, from)[0] == first);
    } else {
        lemma_pieces_complete(text, end, i);
        let k = choose|k: int| 0 <= k < rest.len() && (#[trigger] rest[k]).start <= i < rest[k].end;
        assert(pieces_from(text, from)[k + 1] == rest[k]);
    }
}

/// The pieces of a text are its words: the rows of characters that are no
/// whitespace and that cannot be made longer. Each piece is such a row; the
/// pieces stand in the order of the text; and every character that is no
/// whitespace stands in one of them.
pub proof fn law_pieces_are_the_words(text: Seq<char>)
    ensures
        forall|k: int|
            0 <= k < pieces_of(text).len() ==> {
                let piece = #[trigger] pieces_of(text)[k];
                &&& 0 <= piece.start < piece.end <= text.len()
                &&& none_white(text.subrange(piece.start, piece.end))
                &&& piece.start == 0 || white_space(text[piece.start - 1])
                &&& piece.end == text.len() || white_space(text[piece.end])
            },
        forall|k: int, l: int|
            0 <= k < l < pieces_of(text).len() ==> (#[trigger] pieces_of(text)[k]).end < (
            #[trigger] pieces_of(text)[l]).start,
        forall|i: int|
            0 <= i < text.len() && !white_space(#[trigger] text[i]) ==> exists|k: int|
                0 <= k < pieces_of(text).len() && (#[trigger] pieces_of(text)[k]).start <= i
                    < pieces_of(text)[k].end,
{
    lemma_pieces_shape(text, 0);
    lemma_pieces_ordered(text, 0);
    assert forall|i: int| 0 <= i < text.len() && !white_space(#[trigger] text[i]) implies exists|
        k: int,
    |
        0 <= k < pieces_of(text).len() && (#[trigger] pieces_of(text)[k]).start <= i < pieces_of(
            text,
        )[k].end by {
        lemma_pieces_complete(text, 0, i);
        let k = choose|k: int|
            0 <= k < pieces_from(text, 0).len() && (#[trigger] pieces_from(text, 0)[k]).start <= i
                < pieces_from(text, 0)[k].end;
        assert(pieces_of(text)[k] == pieces_from(text, 0)[k]);
    }
}

/// The place of a piece is byte-accurate: the bytes of the text between the
/// two addresses that make the place are the bytes of the piece, no more
/// and no less.
pub proof fn law_place_holds_the_piece(text: Seq<char>, start: int, end: int)
    requires
        0 <= start <= end <= text.len(),
    ensures
        byte_len(text.take(start)) <= byte_len(text.take(end)) <= byte_len(text),
        encode_utf8(text).subrange(
            byte_len(text.take(start)) as int,
            byte_len(text.take(end)) as int,
        ) == encode_utf8(text.subrange(start, end)),
{
    let head = text.take(start);
    let piece = text.subrange(start, end);
    let tail = text.skip(end);
    assert(text.take(end) == head + piece);
    assert(text == (head + piece) + tail);
    lemma_byte_len_concat(head, piece);
    lemma_byte_len_concat(head + piece, tail);
    assert(encode_utf8(text).subrange(
        encode_utf8(head).len() as int,
        encode_utf8(head + piece).len() as int,
    ) == encode_utf8(piece));
}

/// The places of the pieces of a text follow one another as the pieces do:
/// none begins before the one before it has ended, and each ends no earlier
/// than it begins.
pub proof fn law_places_in_order(text: Seq<char>, span: Span)
    ensures
        forall|k: int|
            0 <= k < tokens_of(text, span).len() ==> (#[trigger] tokens_of(text, span)[k]).span.start
                <= tokens_of(text, span)[k].span.end,
        forall|k: int, l: int|
            0 <= k < l < tokens_of(text, span).len() ==> (#[trigger] tokens_of(
                text,
                span,
            )[k]).span.end <= (#[trigger] tokens_of(text, span)[l]).span.start,
{
    lemma_pieces_shape(text, 0);
    lemma_pieces_ordered(text, 0);
    let pieces = pieces_of(text);
    assert forall|k: int| 0 <= k < tokens_of(text, span).len() implies (#[trigger] tokens_of(
        text,
        span,
    )[k]).span.start <= tokens_of(text, span)[k].span.end by {
        law_place_holds_the_piece(text, pieces[k].start, pieces[k].end);
    }
    assert forall|k: int, l: int| 0 <= k < l < tokens_of(text, span).len() implies (
    #[trigger] tokens_of(text, span)[k]).span.end <= (#[trigger] tokens_of(
        text,
        span,
    )[l]).span.start by {
        law_place_holds_the_piece(text, pieces[k].end, pieces[l].start);
    }
}

/// The piece that lies `by` characters further on.
pub open spec fn moved_by(piece: Piece, by: int) -> Piece {
    Piece { start: piece.start + by, end: piece.end + by }
}

/// Behind a prefix the pieces of a text are those of the rest, each moved by
/// the length of the prefix.
proof fn lemma_pieces_shift(prefix: Seq<char>, rest: Seq<char>, from: int)
    requires
        0 <= from <= rest.len(),
    ensures
        pieces_from(prefix + rest, prefix.len() + from) == pieces_from(rest, from).map_values(
            |piece: Piece| moved_by(piece, prefix.len() as int),
        ),
    decreases rest.len() - from,
{
    let text = prefix + rest;
    let n = prefix.len() as int;
    lemma_token_start(rest, from);
    let start = token_start(rest, from);
    assert forall|k: int| n + from <= k < n + start implies white_space(text[k]) by {
        assert(text[k] == rest[k - n]);
    }
    lemma_skip_white(text, n + from, n + start);
    if start < rest.len() {
        assert(text[n + start] == rest[start]);
        assert(token_start(text, n + start) == n + start);
        lemma_token_end(rest, start);
        let end = token_end(rest, start);
        assert forall|k: int| n + start <= k < n + end implies !white_space(text[k]) by {
            assert(text[k] == rest[k - n]);
        }
        if end < rest.len() {
            assert(text[n + end] == rest[end]);
        }
        lemma_token_end_run(text, n + start, n + end);
        lemma_pieces_shift(prefix, rest, end);
        let first = Piece { start, end };
        assert(pieces_from(rest, from) == seq![first] + pieces_from(rest, end));
        assert(pieces_from(text, n + from) == seq![moved_by(first, n)] + pieces_from(
            text,
            n + end,
        ));
        assert(pieces_from(text, n + from) == pieces_from(rest, from).map_values(
            |piece: Piece| moved_by(piece, n),
        ));
    } else {
        assert(token_start(text, n + start) == n + start);
        assert(pieces_from(text, n + from) == pieces_from(rest, from).map_values(
            |piece: Piece| moved_by(piece, n),
        ));
    }
}

/// Up to its end a text has the same pieces whatever follows it, as long as
/// whitespace comes first in what follows.
proof fn lemma_pieces_prefix(a: Seq<char>, gap: Seq<char>, b: Seq<char>, from: int)
    requires
        0 <= from <= a.len(),
        gap.len() > 0,
        all_white(gap),
    ensures
        pieces_from(a + gap + b, from) == pieces_from(a, from) + pieces_of(b).map_values(
            |piece: Piece| moved_by(piece, (a + gap).len() as int),
        ),
    decreases a.len() - from,
{
    let text = a + gap + b;
    let n = a.len() as int;
    let m = n + gap.len();
    let behind = pieces_of(b).map_values(|piece: Piece| moved_by(piece, m));
    lemma_token_start(a, from);
    let start = token_start(a, from);
    assert forall|k: int| from <= k < start implies white_space(text[k]) by {
        assert(text[k] == a[k]);
    }
    lemma_skip_white(text, from, start);
    if start < a.len() {
        assert(text[start] == a[start]);
        assert(token_start(text, start) == start);
        lemma_token_end(a, start);
        let end = token_end(a, start);
        assert forall|k: int| start <= k < end implies !white_space(text[k]) by {
            assert(text[k] == a[k]);
        }
        if end < a.len() {
            assert(text[end] == a[end]);
        } else {
            assert(text[end] == gap[0]);
        }
        lemma_token_end_run(text, start, end);
        lemma_pieces_prefix(a, gap, b, end);
        let first = Piece { start, end };
        assert(pieces_from(a, from) == seq![first] + pieces_from(a, end));
        assert(pieces_from(text, from) == seq![first] + pieces_from(text, end));
        assert(seq![first] + (pieces_from(a, end) + behind) == (seq![first] + pieces_from(a, end))
            + behind);
    } else {
        assert(pieces_from(a, from) == Seq::<Piece>::empty());
        assert forall|k: int| n <= k < m implies white_space(text[k]) by {
            assert(text[k] == gap[k - n]);
        }
        lemma_skip_white(text, n, m);
        assert(text == (a + gap) + b);
        lemma_pieces_shift(a + gap, b, 0);
        assert(token_start(text, from) == token_start(text, m));
        assert(pieces_from(text, from) == pieces_from(text, m));
        assert(Seq::<Piece>::empty() + behind == behind);
    }
}

/// The pieces of two texts that whitespace holds apart are those of the
/// first followed by those of the second, the latter placed behind the first
/// text and the whitespace.
pub proof fn law_tokens_concat(a: Seq<char>, gap: Seq<char>, b: Seq<char>, span: Span, moved: Span)
    requires
        gap.len() > 0,
        all_white(gap),
        moved.start == offset_by(span.start, byte_len(a + gap)),
    ensures
        tokens_of(a + gap + b, span) == tokens_of(a, span) + tokens_of(b, moved),
{
    let text = a + gap + b;
    let m = (a + gap).len() as int;
    lemma_pieces_prefix(a, gap, b, 0);
    lemma_pieces_shape(a, 0);
    lemma_pieces_shape(b, 0);
    let front = pieces_of(a);
    let back = pieces_of(b);
    assert(tokens_of(text, span).len() == front.len() + back.len());
    assert forall|k: int| 0 <= k < front.len() + back.len() implies tokens_of(text, span)[k] == (
    tokens_of(a, span) + tokens_of(b, moved))[k] by {
        if k < front.len() {
            let piece = front[k];
            assert(pieces_of(text)[k] == piece);
            assert(text.subrange(piece.start, piece.end) == a.subrange(piece.start, piece.end));
            assert(text.take(piece.start) == a.take(piece.start));
            assert(text.take(piece.end) == a.take(piece.end));
        } else {
            let piece = back[k - front.len()];
            assert(pieces_of(text)[k] == moved_by(piece, m));
            assert(text == (a + gap) + b);
            assert(text.subrange(piece.start + m, piece.end + m) == b.subrange(
                piece.start,
                piece.end,
            ));
            assert(text.take(piece.start + m) == (a + gap) + b.take(piece.start));
            assert(text.take(piece.end + m) == (a + gap) + b.take(piece.end));
            lemma_byte_len_concat(a + gap, b.take(piece.start));
            lemma_byte_len_concat(a + gap, b.take(piece.end));
        }
    }
}

/// The place of a text that is one piece: the whole of the text.
pub open spec fn whole(text: Seq<char>, span: Span) -> Span {
    token_span(text, span, 0, text.len() as int)
}

/// A text without whitespace is one piece.
pub proof fn law_single_token(text: Seq<char>, span: Span)
    requires
        text.len() > 0,
        none_white(text),
    ensures
        tokens_of(text, span) == seq![
            TokenView { text, span: token_span(text, span, 0, text.len() as int) },
        ],
{
    let n = text.len() as int;
    assert(token_start(text, 0) == 0);
    lemma_token_end_run(text, 0, n);
    assert(token_start(text, n) == n);
    assert(pieces_from(text, n) == Seq::<Piece>::empty());
    assert(text.subrange(0, n) == text);
    let piece = Piece { start: 0, end: n };
    assert(pieces_of(text) == seq![piece] + Seq::<Piece>::empty());
    assert(pieces_of(text) == seq![piece]);
    let only = TokenView { text, span: token_span(text, span, 0, n) };
    assert(tokens_of(text, span) == seq![only]);
}

} // verus!
