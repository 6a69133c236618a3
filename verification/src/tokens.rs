//! The tokens that a tree was read from: the parser keeps every token of an
//! expression but the parentheses, each at its place and in its order.
use crate::lexer::{lemma_scan_advances, scan, TokenKindView, TokenView};
use crate::parsing::{
    binary_operator, lemma_parse_advances, lemma_rest_advances, parse_binary, parse_primary,
    parse_rest, precedence, token_at, unary_operator, BinaryOperator, ExpressionView,
    UnaryOperator,
};
use vstd::prelude::*;

verus! {

/// The token that writes an operator with one operand.
pub open spec fn unary_token(operator: UnaryOperator) -> TokenKindView {
    match operator {
        UnaryOperator::Negate => TokenKindView::Minus,
        UnaryOperator::Dual => TokenKindView::ExclamationMark,
        UnaryOperator::Reverse => TokenKindView::Tilde,
        UnaryOperator::Normalise => TokenKindView::NormalizeKeyword,
        UnaryOperator::Magnitude => TokenKindView::MagnitudeKeyword,
        UnaryOperator::Sin => TokenKindView::SinKeyword,
        UnaryOperator::Cos => TokenKindView::CosKeyword,
        UnaryOperator::ASin => TokenKindView::ASinKeyword,
        UnaryOperator::ACos => TokenKindView::ACosKeyword,
    }
}

/// The token that writes a binary operator.
pub open spec fn binary_token(operator: BinaryOperator) -> TokenKindView {
    match operator {
        BinaryOperator::Add => TokenKindView::Plus,
        BinaryOperator::Subtract => TokenKindView::Minus,
        BinaryOperator::Multiply => TokenKindView::Asterisk,
        BinaryOperator::Divide => TokenKindView::Slash,
        BinaryOperator::Wedge => TokenKindView::Caret,
        BinaryOperator::Inner => TokenKindView::Pipe,
        BinaryOperator::Regressive => TokenKindView::Ampersand,
    }
}

/// The tokens that an expression is written with, without parentheses: an
/// operator with one operand before its operand, a binary operator between its
/// operands, each token at the location of its node.
pub open spec fn written(expression: ExpressionView) -> Seq<TokenView>
    decreases expression,
{
    match expression {
        ExpressionView::Name { location, name } => seq![
            TokenView { location, kind: TokenKindView::Name(name) },
        ],
        ExpressionView::Number { location, number } => seq![
            TokenView { location, kind: TokenKindView::Number(number) },
        ],
        ExpressionView::Unary { location, operator, operand } => seq![
            TokenView { location, kind: unary_token(operator) },
        ] + written(*operand),
        ExpressionView::Binary { location, left, operator, right } => written(*left) + seq![
            TokenView { location, kind: binary_token(operator) },
        ] + written(*right),
    }
}

/// Whether a token is a parenthesis.
pub open spec fn is_parenthesis(token: TokenView) -> bool {
    token.kind is OpenParenthesis || token.kind is CloseParenthesis
}

/// Whether the lexer reads a token from `index` on and moves forward by it.
pub open spec fn has_token(source: Seq<char>, index: int) -> bool {
    match scan(source, index).result {
        Ok(Some(_)) => index < scan(source, index).next <= source.len(),
        _ => false,
    }
}

/// Whether the lexer, reading token after token from `from`, comes to stand
/// at `to`.
pub open spec fn reaches(source: Seq<char>, from: int, to: int) -> bool
    decreases source.len() - from,
{
    if from == to {
        true
    } else if 0 <= from < to <= source.len() {
        has_token(source, from) && reaches(source, scan(source, from).next, to)
    } else {
        false
    }
}

/// The tokens between `from` and `to` in their order, without parentheses,
/// where the lexer comes from the one to the other.
pub open spec fn tokens_between(source: Seq<char>, from: int, to: int) -> Seq<TokenView>
    decreases source.len() - from,
{
    if 0 <= from < to <= source.len() && has_token(source, from) {
        let token = scan(source, from).result->Ok_0->0;
        let rest = tokens_between(source, scan(source, from).next, to);
        if is_parenthesis(token) {
            rest
        } else {
            seq![token] + rest
        }
    } else {
        Seq::empty()
    }
}

/// Where the lexer comes from `from` to `middle` and from there to `to`, it
/// comes from `from` to `to`, and the tokens on the way are those of the
/// two parts.
pub proof fn lemma_tokens_in_a_row(source: Seq<char>, from: int, middle: int, to: int)
    requires
        reaches(source, from, middle),
        reaches(source, middle, to),
        0 <= from <= middle <= to <= source.len(),
    ensures
        reaches(source, from, to),
        tokens_between(source, from, to) == tokens_between(source, from, middle) + tokens_between(
            source,
            middle,
            to,
        ),
    decreases source.len() - from,
{
    if from == middle {
        assert(tokens_between(source, from, middle) == Seq::<TokenView>::empty());
        assert(Seq::<TokenView>::empty() + tokens_between(source, middle, to) == tokens_between(
            source,
            middle,
            to,
        ));
    } else {
        let next = scan(source, from).next;
        lemma_reaches_forward(source, next, middle);
        lemma_tokens_in_a_row(source, next, middle, to);
        let token = scan(source, from).result->Ok_0->0;
        if !is_parenthesis(token) {
            assert(seq![token] + (tokens_between(source, next, middle) + tokens_between(
                source,
                middle,
                to,
            )) == (seq![token] + tokens_between(source, next, middle)) + tokens_between(
                source,
                middle,
                to,
            ));
        }
    }
}

/// The lexer never comes to stand before where it began.
pub proof fn lemma_reaches_forward(source: Seq<char>, from: int, to: int)
    requires
        reaches(source, from, to),
    ensures
        from <= to,
    decreases source.len() - from,
{
    if from != to {
        lemma_reaches_forward(source, scan(source, from).next, to);
    }
}

/// One token takes the lexer from where it is read to the index behind it.
pub proof fn lemma_one_token(source: Seq<char>, index: int)
    requires
        0 <= index <= source.len(),
        token_at(source, index) is Ok,
    ensures
        reaches(source, index, token_at(source, index)->Ok_0.1),
        tokens_between(source, index, token_at(source, index)->Ok_0.1) == if is_parenthesis(
            token_at(source, index)->Ok_0.0,
        ) {
            Seq::<TokenView>::empty()
        } else {
            seq![token_at(source, index)->Ok_0.0]
        },
{
    lemma_scan_advances(source, index);
    let next = scan(source, index).next;
    assert(reaches(source, next, next));
    assert(tokens_between(source, next, next) == Seq::<TokenView>::empty());
    let token = token_at(source, index)->Ok_0.0;
    assert(seq![token] + Seq::<TokenView>::empty() == seq![token]);
}

/// An expression that was parsed is written with the tokens that were read
/// for it: the tokens from where it begins to where it ends, without the
/// parentheses, are its tokens, each at the location of its node.
pub proof fn lemma_parsed_as_written(source: Seq<char>, index: int, parent: usize)
    requires
        0 <= index <= source.len(),
    ensures
        parse_binary(source, index, parent) matches Ok((expression, next)) ==> reaches(
            source,
            index,
            next,
        ) && tokens_between(source, index, next) == written(expression),
        parse_primary(source, index) matches Ok((expression, next)) ==> reaches(
            source,
            index,
            next,
        ) && tokens_between(source, index, next) == written(expression),
    decreases source.len() - index, 1int,
{
    lemma_scan_advances(source, index);
    lemma_parse_advances(source, index, parent);
    if let Ok((token, next)) = token_at(source, index) {
        lemma_one_token(source, index);
        if token.kind is OpenParenthesis {
            lemma_parse_advances(source, next, 0);
            lemma_parsed_as_written(source, next, 0);
            if let Ok((inner, after)) = parse_binary(source, next, 0) {
                if let Ok((close, end)) = token_at(source, after) {
                    lemma_scan_advances(source, after);
                    lemma_one_token(source, after);
                    if close.kind is CloseParenthesis {
                        lemma_tokens_in_a_row(source, next, after, end);
                        lemma_tokens_in_a_row(source, index, next, end);
                        assert(tokens_between(source, next, after) + Seq::<TokenView>::empty()
                            == tokens_between(source, next, after));
                        assert(Seq::<TokenView>::empty() + tokens_between(source, next, end)
                            == tokens_between(source, next, end));
                    }
                }
            }
        }
    }
    let step = scan(source, index);
    if let Ok(peeked) = step.result {
        let prefixed = peeked is Some && unary_operator(peeked->0.kind) is Some;
        if prefixed {
            lemma_parse_advances(source, step.next, usize::MAX);
            lemma_parsed_as_written(source, step.next, usize::MAX);
        }
        let first = if prefixed {
            match parse_binary(source, step.next, usize::MAX) {
                Err(error) => Err(error),
                Ok((operand, after)) => Ok(
                    (
                        ExpressionView::Unary {
                            location: peeked->0.location,
                            operator: unary_operator(peeked->0.kind)->0,
                            operand: Box::new(operand),
                        },
                        after,
                    ),
                ),
            }
        } else {
            parse_primary(source, index)
        };
        if let Ok((left, after)) = first {
            if prefixed {
                lemma_tokens_in_a_row(source, index, step.next, after);
                assert(unary_token(unary_operator(peeked->0.kind)->0) == peeked->0.kind);
            }
            assert(reaches(source, index, after));
            assert(tokens_between(source, index, after) == written(left));
            lemma_rest_as_written(source, after, left, parent);
            lemma_rest_advances(source, after, left, parent);
            if let Ok((whole, end)) = parse_rest(source, after, left, parent) {
                lemma_tokens_in_a_row(source, index, after, end);
            }
        }
    }
}

/// The operators and operands that were parsed behind a left operand are
/// written with the tokens that were read for them, behind those of the
/// left operand.
pub proof fn lemma_rest_as_written(
    source: Seq<char>,
    index: int,
    left: ExpressionView,
    parent: usize,
)
    requires
        0 <= index <= source.len(),
    ensures
        parse_rest(source, index, left, parent) matches Ok((expression, next)) ==> reaches(
            source,
            index,
            next,
        ) && written(expression) == written(left) + tokens_between(source, index, next),
    decreases source.len() - index, 0int,
{
    lemma_scan_advances(source, index);
    let step = scan(source, index);
    assert(tokens_between(source, index, index) == Seq::<TokenView>::empty());
    assert(written(left) + Seq::<TokenView>::empty() == written(left));
    if let Ok(peeked) = step.result {
        if peeked is Some && binary_operator(peeked->0.kind) is Some && precedence(
            binary_operator(peeked->0.kind)->0,
        ) > parent {
            let operator = binary_operator(peeked->0.kind)->0;
            let token = peeked->0;
            lemma_one_token(source, index);
            lemma_parse_advances(source, step.next, precedence(operator));
            lemma_parsed_as_written(source, step.next, precedence(operator));
            if let Ok((right, after)) = parse_binary(source, step.next, precedence(operator)) {
                let joined = ExpressionView::Binary {
                    location: token.location,
                    left: Box::new(left),
                    operator,
                    right: Box::new(right),
                };
                assert(binary_token(operator) == token.kind);
                lemma_tokens_in_a_row(source, index, step.next, after);
                lemma_rest_as_written(source, after, joined, parent);
                lemma_rest_advances(source, after, joined, parent);
                if let Ok((whole, end)) = parse_rest(source, after, joined, parent) {
                    lemma_tokens_in_a_row(source, index, after, end);
                    assert(written(joined) + tokens_between(source, after, end) == written(left)
                        + (tokens_between(source, index, after) + tokens_between(
                        source,
                        after,
                        end,
                    )));
                }
            }
        }
    }
}

} // verus!
