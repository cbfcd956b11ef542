//! Laws of compound literals: what their pieces add up to.

use crate::compound::{parsed_compound, summed, tokens_of, TokenView};
use crate::error::{ParseErrorView, ParseFailure};
use crate::laws::literals::{law_token_value, sign_of};
use crate::laws::pieces::{all_white, law_single_token, law_tokens_concat, none_white, whole};
use crate::span::{offset_by, Span};
use crate::text::{byte_len, decimal_digit, white_space};
use crate::token::{decimal_value, parse_error, parsed_token, token_outcome};
use crate::units::unit_named;
use vstd::prelude::*;

verus! {

/// No unit's name holds whitespace.
pub proof fn lemma_unit_name_is_one_word(name: Seq<char>)
    requires
        unit_named(name) is Some,
    ensures
        none_white(name),
{
}

/// A sign, a whole number and a unit with nothing around them are a compound
/// literal of one piece, which stands for that number of the unit: reading
/// it yields the product where that fits in a signed 64-bit integer, and
/// fails with an overflow where it does not.
pub proof fn law_literal_value(negative: bool, digits: Seq<char>, name: Seq<char>, span: Span)
    requires
        digits.len() > 0,
        forall|k: int| 0 <= k < digits.len() ==> decimal_digit(digits[k]),
        unit_named(name) is Some,
    ensures
        ({
            let text = sign_of(negative) + digits + name;
            let magnitude = decimal_value(digits) * unit_named(name)->0.nanos();
            let nanos = if negative { -magnitude } else { magnitude };
            &&& i64::MIN <= nanos <= i64::MAX ==> parsed_compound(text, span) == Ok::<
                i64,
                ParseErrorView,
            >(nanos as i64)
            &&& !(i64::MIN <= nanos <= i64::MAX) ==> parsed_compound(text, span) == Err::<
                i64,
                ParseErrorView,
            >(parse_error(ParseFailure::Overflow, text, whole(text, span)))
        }),
{
    let text = sign_of(negative) + digits + name;
    law_token_value(negative, digits, name);
    lemma_unit_name_is_one_word(name);
    assert forall|k: int| 0 <= k < text.len() implies !white_space(text[k]) by {
        let lead = sign_of(negative).len();
        if k < lead {
            assert(text[k] == '-');
        } else if k < lead + digits.len() {
            assert(text[k] == digits[k - lead]);
        } else {
            assert(text[k] == name[k - lead - digits.len()]);
        }
    }
    law_single_token(text, span);
    let only = TokenView { text, span: whole(text, span) };
    assert(seq![only][0] == only);
    assert(seq![only].drop_first().len() == 0);
    match token_outcome(text) {
        Ok(nanos) => {
            assert(summed(seq![only].drop_first(), nanos) == Ok::<i64, ParseErrorView>(nanos));
        },
        Err(_) => {},
    }
}

/// Summing two rows of literals one after the other is summing the second
/// from where the first has come to.
pub proof fn lemma_summed_concat(first: Seq<TokenView>, second: Seq<TokenView>, total: i64)
    ensures
        summed(first + second, total) == match summed(first, total) {
            Err(e) => Err(e),
            Ok(sum) => summed(second, sum),
        },
    decreases first.len(),
{
    if first.len() == 0 {
        assert(first + second == second);
    } else {
        let all = first + second;
        assert(all[0] == first[0]);
        assert(all.drop_first() == first.drop_first() + second);
        match parsed_token(first[0].text, first[0].span) {
            Err(e) => {},
            Ok(nanos) => {
                if i64::MIN <= total + nanos <= i64::MAX {
                    lemma_summed_concat(first.drop_first(), second, (total + nanos) as i64);
                }
            },
        }
    }
}

/// A compound literal is read piece by piece: what `a`, whitespace and `b`
/// come to is what `b` adds to what `a` comes to, and the first failure in
/// `a` is the failure of the whole.
pub proof fn law_compound_concat(
    a: Seq<char>,
    gap: Seq<char>,
    b: Seq<char>,
    span: Span,
    moved: Span,
)
    requires
        gap.len() > 0,
        all_white(gap),
        moved.start == offset_by(span.start, byte_len(a + gap)),
    ensures
        parsed_compound(a + gap + b, span) == match parsed_compound(a, span) {
            Err(e) => Err(e),
            Ok(sum) => summed(tokens_of(b, moved), sum),
        },
{
    law_tokens_concat(a, gap, b, span, moved);
    lemma_summed_concat(tokens_of(a, span), tokens_of(b, moved), 0);
}

/// Two literals that whitespace holds apart stand for the sum of what each
/// stands for, as long as that sum fits in a signed 64-bit integer; where it
/// does not, reading them fails with an overflow at the second.
pub proof fn law_compound_sum(a: Seq<char>, gap: Seq<char>, b: Seq<char>, span: Span, moved: Span)
    requires
        gap.len() > 0,
        all_white(gap),
        b.len() > 0,
        none_white(b),
        moved.start == offset_by(span.start, byte_len(a + gap)),
        parsed_compound(a, span) is Ok,
        token_outcome(b) is Ok,
    ensures
        ({
            let sum = parsed_compound(a, span)->Ok_0 + token_outcome(b)->Ok_0;
            let place = whole(b, moved);
            &&& i64::MIN <= sum <= i64::MAX ==> parsed_compound(a + gap + b, span) == Ok::<
                i64,
                ParseErrorView,
            >(sum as i64)
            &&& !(i64::MIN <= sum <= i64::MAX) ==> parsed_compound(a + gap + b, span) == Err::<
                i64,
                ParseErrorView,
            >(parse_error(ParseFailure::Overflow, b, place))
        }),
{
    law_compound_concat(a, gap, b, span, moved);
    law_single_token(b, moved);
    let only = TokenView { text: b, span: whole(b, moved) };
    let sum = parsed_compound(a, span)->Ok_0 + token_outcome(b)->Ok_0;
    assert(seq![only][0] == only);
    if i64::MIN <= sum <= i64::MAX {
        assert(seq![only].drop_first().len() == 0);
        assert(summed(seq![only].drop_first(), sum as i64) == Ok::<i64, ParseErrorView>(sum as i64));
    }
}

/// The sum of what the literals `tokens` stand for, however large. A literal
/// that cannot be read counts for nothing.
pub open spec fn sum_of(tokens: Seq<TokenView>) -> int
    decreases tokens.len(),
{
    if tokens.len() == 0 {
        0
    } else {
        let first: int = match token_outcome(tokens[0].text) {
            Ok(nanos) => nanos as int,
            Err(_) => 0,
        };
        first + sum_of(tokens.drop_first())
    }
}

/// Whether each of the literals `tokens` can be read.
pub open spec fn all_read(tokens: Seq<TokenView>) -> bool {
    forall|k: int| 0 <= k < tokens.len() ==> token_outcome(#[trigger] tokens[k].text) is Ok
}

/// A sum that is reached is the sum of all the literals: where summing
/// succeeds, each literal could be read, and what comes out is what went in
/// plus what all of them stand for together.
pub proof fn law_summed_is_the_sum(tokens: Seq<TokenView>, total: i64)
    requires
        summed(tokens, total) is Ok,
    ensures
        all_read(tokens),
        summed(tokens, total)->Ok_0 == total + sum_of(tokens),
    decreases tokens.len(),
{
    if tokens.len() > 0 {
        let nanos = token_outcome(tokens[0].text)->Ok_0;
        let rest = tokens.drop_first();
        law_summed_is_the_sum(rest, (total + nanos) as i64);
        assert forall|k: int| 0 <= k < tokens.len() implies token_outcome(
            #[trigger] tokens[k].text,
        ) is Ok by {
            if k > 0 {
                assert(tokens[k] == rest[k - 1]);
            }
        }
    }
}

/// What two rows of literals stand for together is what the one stands for
/// plus what the other stands for.
pub proof fn lemma_sum_of_concat(first: Seq<TokenView>, second: Seq<TokenView>)
    ensures
        sum_of(first + second) == sum_of(first) + sum_of(second),
    decreases first.len(),
{
    if first.len() == 0 {
        assert(first + second == second);
    } else {
        assert((first + second)[0] == first[0]);
        assert((first + second).drop_first() == first.drop_first() + second);
        lemma_sum_of_concat(first.drop_first(), second);
    }
}

/// What a row of literals stands for does not rest on where the literals
/// stand.
pub proof fn lemma_sum_of_texts(one: Seq<TokenView>, other: Seq<TokenView>)
    requires
        one.len() == other.len(),
        forall|k: int| 0 <= k < one.len() ==> one[k].text == other[k].text,
    ensures
        sum_of(one) == sum_of(other),
    decreases one.len(),
{
    if one.len() > 0 {
        assert forall|k: int| 0 <= k < one.drop_first().len() implies one.drop_first()[k].text
            == other.drop_first()[k].text by {
            assert(one.drop_first()[k] == one[k + 1]);
            assert(other.drop_first()[k] == other[k + 1]);
        }
        lemma_sum_of_texts(one.drop_first(), other.drop_first());
    }
}

/// A compound literal that can be read stands for the sum of its pieces,
/// whatever their number.
pub proof fn law_compound_is_the_sum(text: Seq<char>, span: Span)
    requires
        parsed_compound(text, span) is Ok,
    ensures
        all_read(tokens_of(text, span)),
        parsed_compound(text, span)->Ok_0 == sum_of(tokens_of(text, span)),
{
    law_summed_is_the_sum(tokens_of(text, span), 0);
}

/// The order of the parts does not count: two compound literals stand for
/// the same, whichever of them comes first, as long as they can be read
/// both ways.
pub proof fn law_order_does_not_count(a: Seq<char>, gap: Seq<char>, b: Seq<char>, span: Span)
    requires
        gap.len() > 0,
        all_white(gap),
        parsed_compound(a + gap + b, span) is Ok,
        parsed_compound(b + gap + a, span) is Ok,
    ensures
        parsed_compound(a + gap + b, span) == parsed_compound(b + gap + a, span),
{
    let behind_a = Span { start: offset_by(span.start, byte_len(a + gap)), end: 0 };
    let behind_b = Span { start: offset_by(span.start, byte_len(b + gap)), end: 0 };
    law_tokens_concat(a, gap, b, span, behind_a);
    law_tokens_concat(b, gap, a, span, behind_b);
    law_compound_is_the_sum(a + gap + b, span);
    law_compound_is_the_sum(b + gap + a, span);
    lemma_sum_of_concat(tokens_of(a, span), tokens_of(b, behind_a));
    lemma_sum_of_concat(tokens_of(b, span), tokens_of(a, behind_b));
    lemma_sum_of_texts(tokens_of(a, span), tokens_of(a, behind_b));
    lemma_sum_of_texts(tokens_of(b, span), tokens_of(b, behind_a));
}

} // verus!
