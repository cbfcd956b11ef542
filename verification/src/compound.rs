//! Compound duration literals: single literals set apart by whitespace, such
//! as `1day 2hr 3min 4sec`, which stand for the sum of their parts.

use crate::error::{ParseError, ParseErrorView, ParseFailure};
use crate::span::{offset_by, Span};
use crate::text::{addr_of, byte_len, chars_of, is_whitespace, lemma_byte_len_concat, white_space};
use crate::token::{failed, parse_error, parsed_token, string_to_duration};
use vstd::prelude::*;
use vstd::string::StrSliceExecFns;

verus! {

/// One piece of a compound literal, with the place it has in the source.
#[derive(Clone, Copy, Debug, PartialEq, Eq)]
pub struct ParsedToken<'a> {
    pub text: &'a str,
    pub span: Span,
}

/// What a [`ParsedToken`] stands for.
pub struct TokenView {
    pub text: Seq<char>,
    pub span: Span,
}

impl<'a> View for ParsedToken<'a> {
    type V = TokenView;

    open spec fn view(&self) -> TokenView {
        TokenView { text: self.text@, span: self.span }
    }
}

/// The index of the first character at or after `from` that is no
/// whitespace, or the length of `text`.
pub open spec fn token_start(text: Seq<char>, from: int) -> int
    decreases text.len() - from,
{
    if 0 <= from < text.len() && white_space(text[from]) {
        token_start(text, from + 1)
    } else {
        from
    }
}

/// The index of the first character at or after `from` that is whitespace,
/// or the length of `text`.
pub open spec fn token_end(text: Seq<char>, from: int) -> int
    decreases text.len() - from,
{
    if 0 <= from < text.len() && !white_space(text[from]) {
        token_end(text, from + 1)
    } else {
        from
    }
}

/// A piece of a text: the characters from the index `start` up to, and not
/// including, the index `end`.
pub struct Piece {
    pub start: int,
    pub end: int,
}

/// The pieces of `text` that begin at or after the index `from`: the longest
/// rows of characters that hold no whitespace, in the order in which they
/// stand.
pub open spec fn pieces_from(text: Seq<char>, from: int) -> Seq<Piece>
    decreases text.len() - from,
{
    let start = token_start(text, from);
    if 0 <= from && start < text.len() {
        let end = token_end(text, start);
        proof {
            lemma_token_start(text, from);
            lemma_token_end(text, start + 1);
        }
        seq![Piece { start, end }] + pieces_from(text, end)
    } else {
        Seq::empty()
    }
}

/// The pieces of `text`.
pub open spec fn pieces_of(text: Seq<char>) -> Seq<Piece> {
    pieces_from(text, 0)
}

/// The place in the source of the characters `start..end` of a text whose
/// first byte stands at `span.start`: as many bytes behind `span.start` as
/// the characters before them take.
pub open spec fn token_span(text: Seq<char>, span: Span, start: int, end: int) -> Span {
    Span {
        start: offset_by(span.start, byte_len(text.take(start))),
        end: offset_by(span.start, byte_len(text.take(end))),
    }
}

/// A piece of `text` with its characters and its place in the source.
pub open spec fn token_at(text: Seq<char>, span: Span, piece: Piece) -> TokenView {
    TokenView {
        text: text.subrange(piece.start, piece.end),
        span: token_span(text, span, piece.start, piece.end),
    }
}

/// The pieces of `text` that begin at or after the index `from`, each with
/// its characters and its place in the source.
pub open spec fn tokens_from(text: Seq<char>, span: Span, from: int) -> Seq<TokenView> {
    pieces_from(text, from).map_values(|piece: Piece| token_at(text, span, piece))
}

/// The pieces of `text`, which stands at `span`, each with its characters and
/// its place in the source.
pub open spec fn tokens_of(text: Seq<char>, span: Span) -> Seq<TokenView> {
    tokens_from(text, span, 0)
}

/// The sum of `total` and of what the literals `tokens` stand for, taken one
/// after the other, or the first failure: that of the first literal that
/// cannot be read, or of the first whose addition leaves the range of a signed
/// 64-bit integer.
pub open spec fn summed(tokens: Seq<TokenView>, total: i64) -> Result<i64, ParseErrorView>
    decreases tokens.len(),
{
    if tokens.len() == 0 {
        Ok(total)
    } else {
        match parsed_token(tokens[0].text, tokens[0].span) {
            Err(e) => Err(e),
            Ok(nanos) => if i64::MIN <= total + nanos <= i64::MAX {
                summed(tokens.drop_first(), (total + nanos) as i64)
            } else {
                Err(parse_error(ParseFailure::Overflow, tokens[0].text, tokens[0].span))
            },
        }
    }
}

/// What reading the compound literal `text`, which stands at `span`, comes to.
pub open spec fn parsed_compound(text: Seq<char>, span: Span) -> Result<i64, ParseErrorView> {
    summed(tokens_of(text, span), 0)
}

/// Where the row of whitespace that begins at `from` ends.
pub proof fn lemma_token_start(text: Seq<char>, from: int)
    requires
        0 <= from,
    ensures
        from <= token_start(text, from),
        from <= text.len() ==> token_start(text, from) <= text.len(),
        forall|k: int| from <= k < token_start(text, from) ==> white_space(text[k]),
        token_start(text, from) < text.len() ==> !white_space(text[token_start(text, from)]),
    decreases text.len() - from,
{
    if from < text.len() && white_space(text[from]) {
        lemma_token_start(text, from + 1);
    }
}

/// Where the row of other characters that begins at `from` ends.
pub proof fn lemma_token_end(text: Seq<char>, from: int)
    requires
        0 <= from,
    ensures
        from <= token_end(text, from),
        from <= text.len() ==> token_end(text, from) <= text.len(),
        forall|k: int| from <= k < token_end(text, from) ==> !white_space(text[k]),
        token_end(text, from) < text.len() ==> white_space(text[token_end(text, from)]),
    decreases text.len() - from,
{
    if from < text.len() && !white_space(text[from]) {
        lemma_token_end(text, from + 1);
    }
}

/// Splits `s` at whitespace. Each piece comes with its place in the source,
/// reckoned from `span.start`, the place of the first byte of `s`.
pub fn split_whitespace_indices<'a>(s: &'a str, span: Span) -> (tokens: Vec<ParsedToken<'a>>)
    ensures
        tokens@.map_values(|t: ParsedToken<'a>| t@) == tokens_of(s@, span),
{
    let chars = chars_of(s);
    let n = chars.len();
    let mut tokens: Vec<ParsedToken<'a>> = Vec::new();
    let mut i: usize = 0;
    while i < n
        invariant
            i <= n,
            n == chars@.len(),
            chars@ == s@,
            tokens@.map_values(|t: ParsedToken<'a>| t@) + tokens_from(s@, span, i as int)
                == tokens_of(s@, span),
        decreases n - i,
    {
        let mut start = i;
        while start < n && is_whitespace(chars[start])
            invariant
                i <= start <= n,
                n == chars@.len(),
                chars@ == s@,
                token_start(s@, i as int) == token_start(s@, start as int),
            decreases n - start,
        {
            start = start + 1;
        }
        if start == n {
            assert(tokens_from(s@, span, i as int) == tokens_from(s@, span, n as int));
            i = n;
        } else {
            let mut end = start + 1;
            while end < n && !is_whitespace(chars[end])
                invariant
                    start < end <= n,
                    n == chars@.len(),
                    chars@ == s@,
                    token_end(s@, start as int) == token_end(s@, end as int),
                decreases n - end,
            {
                end = end + 1;
            }
            let text = s.substring_char(start, end);
            let start_offset = span.start.saturating_add(addr_of(s, start));
            let end_offset = start_offset.saturating_add(text.as_bytes().len());
            let token = ParsedToken { text, span: Span::new(start_offset, end_offset) };
            proof {
                let head = s@.take(start as int);
                assert(s@.take(end as int) == head + s@.subrange(start as int, end as int));
                lemma_byte_len_concat(head, s@.subrange(start as int, end as int));
                let piece = Piece { start: start as int, end: end as int };
                assert(token@ == token_at(s@, span, piece));
                assert(pieces_from(s@, i as int) == seq![piece] + pieces_from(s@, end as int));
                assert(tokens_from(s@, span, i as int) == seq![token@] + tokens_from(
                    s@,
                    span,
                    end as int,
                ));
                let before = tokens@.map_values(|t: ParsedToken<'a>| t@);
                let after = tokens@.push(token).map_values(|t: ParsedToken<'a>| t@);
                assert(after == before + seq![token@]);
                assert(after + tokens_from(s@, span, end as int) == before + (seq![token@]
                    + tokens_from(s@, span, end as int)));
            }
            tokens.push(token);
            i = end;
        }
    }
    proof {
        assert(tokens_from(s@, span, n as int) == Seq::<TokenView>::empty());
        assert(tokens@.map_values(|t: ParsedToken<'a>| t@) + Seq::<TokenView>::empty()
            == tokens@.map_values(|t: ParsedToken<'a>| t@));
    }
    tokens
}

/// Reads a compound literal: the sum of its pieces, in nanoseconds. A text
/// without any piece stands for 0.
pub fn compound_to_duration(s: &str, span: Span) -> (r: Result<i64, ParseError>)
    ensures
        match r {
            Ok(nanos) => parsed_compound(s@, span) == Ok::<i64, ParseErrorView>(nanos),
            Err(e) => parsed_compound(s@, span) == Err::<i64, ParseErrorView>(e@),
        },
{
    let tokens = split_whitespace_indices(s, span);
    let ghost views = tokens@.map_values(|t: ParsedToken| t@);
    let mut duration_ns: i64 = 0;
    let mut k: usize = 0;
    assert(views.skip(0) == views);
    while k < tokens.len()
        invariant
            k <= tokens.len(),
            views == tokens@.map_values(|t: ParsedToken| t@),
            views == tokens_of(s@, span),
            summed(views.skip(k as int), duration_ns) == parsed_compound(s@, span),
        decreases tokens.len() - k,
    {
        let token = tokens[k];
        proof {
            let rest = views.skip(k as int);
            assert(rest[0] == token@);
            assert(rest.drop_first() == views.skip(k + 1));
        }
        let sub_ns = match string_to_duration(token.text, token.span) {
            Ok(nanos) => nanos,
            Err(e) => {
                return Err(e);
            },
        };
        duration_ns = match duration_ns.checked_add(sub_ns) {
            Some(sum) => sum,
            None => {
                return Err(failed(ParseFailure::Overflow, token.text, token.span));
            },
        };
        k = k + 1;
    }
    Ok(duration_ns)
}

} // verus!
