//! The parser: from source text to a list of assignment statements.
use crate::lexer::{
    lemma_scan_advances, scan, Lexer, LexerError, LexerErrorKind, Location, Token, TokenKind,
    TokenKindView, TokenView,
};
use vstd::prelude::*;
use vstd::string::StringExecFns;

verus! {

/// The operators with one operand. The first three are written before
/// their operand with `-`, `!` and `~`. The others are the functions whose
/// names are the keywords; the parser gives none of them.
#[derive(Debug, Clone, Copy, PartialEq, Eq, Structural)]
pub enum UnaryOperator {
    Negate,
    Dual,
    Reverse,
    Normalise,
    Magnitude,
    Sin,
    Cos,
    ASin,
    ACos,
}

/// The operators that stand between their operands.
#[derive(Debug, Clone, Copy, PartialEq, Eq, Structural)]
pub enum BinaryOperator {
    Add,
    Subtract,
    Multiply,
    Divide,
    Wedge,
    Inner,
    Regressive,
}

/// An expression. Its location is that of the token which defines it: the
/// name, the number or the operator.
#[derive(Debug, PartialEq, Eq)]
pub struct AstExpression {
    pub location: Location,
    pub kind: AstExpressionKind,
}

#[derive(Debug, PartialEq, Eq)]
pub enum AstExpressionKind {
    Name { name: String },
    Number { number: String },
    Unary { operator: UnaryOperator, operand: Box<AstExpression> },
    Binary { left: Box<AstExpression>, operator: BinaryOperator, right: Box<AstExpression> },
}

/// An expression as a mathematical tree.
pub enum ExpressionView {
    Name { location: Location, name: Seq<char> },
    Number { location: Location, number: Seq<char> },
    Unary { location: Location, operator: UnaryOperator, operand: Box<ExpressionView> },
    Binary {
        location: Location,
        left: Box<ExpressionView>,
        operator: BinaryOperator,
        right: Box<ExpressionView>,
    },
}

impl View for AstExpression {
    type V = ExpressionView;

    open spec fn view(&self) -> ExpressionView
        decreases self,
    {
        match self.kind {
            AstExpressionKind::Name { name } => ExpressionView::Name {
                location: self.location,
                name: name@,
            },
            AstExpressionKind::Number { number } => ExpressionView::Number {
                location: self.location,
                number: number@,
            },
            AstExpressionKind::Unary { operator, operand } => ExpressionView::Unary {
                location: self.location,
                operator,
                operand: Box::new((*operand)@),
            },
            AstExpressionKind::Binary { left, operator, right } => ExpressionView::Binary {
                location: self.location,
                left: Box::new((*left)@),
                operator,
                right: Box::new((*right)@),
            },
        }
    }
}

/// A statement. The location of an assignment is that of its `=`.
#[derive(Debug, PartialEq, Eq)]
pub struct AstStatement {
    pub location: Location,
    pub kind: AstStatementKind,
}

#[derive(Debug, PartialEq, Eq)]
pub enum AstStatementKind {
    Assignment { name: String, value: AstExpression },
}

/// An assignment with the views of its parts.
pub struct StatementView {
    pub location: Location,
    pub name: Seq<char>,
    pub value: ExpressionView,
}

impl View for AstStatement {
    type V = StatementView;

    open spec fn view(&self) -> StatementView {
        match self.kind {
            AstStatementKind::Assignment { name, value } => StatementView {
                location: self.location,
                name: name@,
                value: value@,
            },
        }
    }
}

/// Why parsing stopped.
#[derive(Debug, Clone, PartialEq, Eq)]
pub enum ParseErrorKind {
    LexerError(LexerErrorKind),
    UnexpectedEOI,
    UnexpectedToken(Token),
}

pub enum ParseErrorKindView {
    LexerError(LexerErrorKind),
    UnexpectedEOI,
    UnexpectedToken(TokenView),
}

impl ParseErrorKindView {
    pub open spec fn text(self) -> Seq<char> {
        match self {
            ParseErrorKindView::LexerError(kind) => kind.text(),
            ParseErrorKindView::UnexpectedEOI => "Unexpected end of input"@,
            ParseErrorKindView::UnexpectedToken(token) => "Unexpected token '"@ + token.kind.text()
                + seq!['\''],
        }
    }
}

impl View for ParseErrorKind {
    type V = ParseErrorKindView;

    open spec fn view(&self) -> ParseErrorKindView {
        match self {
            ParseErrorKind::LexerError(kind) => ParseErrorKindView::LexerError(*kind),
            ParseErrorKind::UnexpectedEOI => ParseErrorKindView::UnexpectedEOI,
            ParseErrorKind::UnexpectedToken(token) => ParseErrorKindView::UnexpectedToken(token@),
        }
    }
}

impl ParseErrorKind {
    pub fn to_string(&self) -> (s: String)
        ensures
            s@ == self@.text(),
    {
        match self {
            ParseErrorKind::LexerError(kind) => kind.to_string(),
            ParseErrorKind::UnexpectedEOI => String::from_str("Unexpected end of input"),
            ParseErrorKind::UnexpectedToken(token) => {
                let mut s = String::from_str("Unexpected token '");
                let shown = token.to_string();
                s.append(shown.as_str());
                s.push('\'');
                s
            },
        }
    }
}

/// A parse error and the place where it arose.
#[derive(Debug, Clone, PartialEq, Eq)]
pub struct ParseError {
    pub location: Location,
    pub kind: ParseErrorKind,
}

pub struct ParseErrorView {
    pub location: Location,
    pub kind: ParseErrorKindView,
}

impl ParseErrorView {
    /// The text `line:column: message`.
    pub open spec fn text(self) -> Seq<char> {
        self.location.text() + ": "@ + self.kind.text()
    }
}

impl View for ParseError {
    type V = ParseErrorView;

    open spec fn view(&self) -> ParseErrorView {
        ParseErrorView { location: self.location, kind: self.kind@ }
    }
}

/// The parse error that a lexer error becomes.
pub open spec fn lexer_failure(error: LexerError) -> ParseErrorView {
    ParseErrorView { location: error.location, kind: ParseErrorKindView::LexerError(error.kind) }
}

/// The parse error for a token that may not stand where it stands.
pub open spec fn unexpected(token: TokenView) -> ParseErrorView {
    ParseErrorView { location: token.location, kind: ParseErrorKindView::UnexpectedToken(token) }
}

impl ParseError {
    /// The parse error that a lexer error becomes.
    pub fn from(error: LexerError) -> (r: ParseError)
        ensures
            r@ == lexer_failure(error),
    {
        ParseError { location: error.location, kind: ParseErrorKind::LexerError(error.kind) }
    }

    /// The error as it is shown to the user.
    pub fn to_string(&self) -> (s: String)
        ensures
            s@ == self@.text(),
    {
        let mut s = self.location.to_string();
        s.append(": ");
        let kind = self.kind.to_string();
        s.append(kind.as_str());
        s
    }
}

/// The prefix operator that a token writes, if it writes one.
pub open spec fn unary_operator(kind: TokenKindView) -> Option<UnaryOperator> {
    match kind {
        TokenKindView::Minus => Some(UnaryOperator::Negate),
        TokenKindView::ExclamationMark => Some(UnaryOperator::Dual),
        TokenKindView::Tilde => Some(UnaryOperator::Reverse),
        _ => None,
    }
}

/// The binary operator that a token writes, if it writes one.
pub open spec fn binary_operator(kind: TokenKindView) -> Option<BinaryOperator> {
    match kind {
        TokenKindView::Plus => Some(BinaryOperator::Add),
        TokenKindView::Minus => Some(BinaryOperator::Subtract),
        TokenKindView::Asterisk => Some(BinaryOperator::Multiply),
        TokenKindView::Slash => Some(BinaryOperator::Divide),
        TokenKindView::Caret => Some(BinaryOperator::Wedge),
        TokenKindView::Pipe => Some(BinaryOperator::Inner),
        TokenKindView::Ampersand => Some(BinaryOperator::Regressive),
        _ => None,
    }
}

/// How tightly a binary operator binds: sums and differences at level one,
/// the products and the quotient at level two.
pub open spec fn precedence(operator: BinaryOperator) -> usize {
    match operator {
        BinaryOperator::Add | BinaryOperator::Subtract => 1,
        _ => 2,
    }
}

/// The token that begins at or behind `index`, and the index behind it. The
/// end of the text is an error here, located at the end.
pub open spec fn token_at(source: Seq<char>, index: int) -> Result<(TokenView, int), ParseErrorView> {
    let step = scan(source, index);
    match step.result {
        Ok(Some(token)) => Ok((token, step.next)),
        Ok(None) => Err(
            ParseErrorView {
                location: Location::at(source, step.next),
                kind: ParseErrorKindView::UnexpectedEOI,
            },
        ),
        Err(error) => Err(lexer_failure(error)),
    }
}

/// The token of the given kind that begins at or behind `index`, and the
/// index behind it. Any other token is an error.
pub open spec fn token_of_kind(source: Seq<char>, index: int, kind: TokenKindView) -> Result<
    (TokenView, int),
    ParseErrorView,
> {
    match token_at(source, index) {
        Ok((token, next)) => if token.kind == kind {
            Ok((token, next))
        } else {
            Err(unexpected(token))
        },
        Err(error) => Err(error),
    }
}

/// A name, a number, or an expression in parentheses, from `index` on.
pub open spec fn parse_primary(source: Seq<char>, index: int) -> Result<
    (ExpressionView, int),
    ParseErrorView,
>
    decreases source.len() - index, 0int,
    when 0 <= index <= source.len()
{
    match token_at(source, index) {
        Err(error) => Err(error),
        Ok((token, next)) => match token.kind {
            TokenKindView::Name(name) => Ok(
                (ExpressionView::Name { location: token.location, name }, next),
            ),
            TokenKindView::Number(number) => Ok(
                (ExpressionView::Number { location: token.location, number }, next),
            ),
            TokenKindView::OpenParenthesis => {
                proof {
                    lemma_scan_advances(source, index);
                }
                match parse_binary(source, next, 0) {
                    Err(error) => Err(error),
                    Ok((expression, after)) => match token_of_kind(
                        source,
                        after,
                        TokenKindView::CloseParenthesis,
                    ) {
                        Err(error) => Err(error),
                        Ok((_, end)) => Ok((expression, end)),
                    },
                }
            },
            _ => Err(unexpected(token)),
        },
    }
}

/// An operand with the binary operators that follow it and bind more
/// tightly than `parent`. A prefix operator applies to the operand that
/// follows it and to nothing more.
pub open spec fn parse_binary(source: Seq<char>, index: int, parent: usize) -> Result<
    (ExpressionView, int),
    ParseErrorView,
>
    decreases source.len() - index, 1int,
    when 0 <= index <= source.len()
{
    let step = scan(source, index);
    match step.result {
        Err(error) => Err(lexer_failure(error)),
        Ok(peeked) => {
            let first = if peeked is Some && unary_operator(peeked->0.kind) is Some {
                proof {
                    lemma_scan_advances(source, index);
                }
                match parse_binary(source, step.next, usize::MAX) {
                    Err(error) => Err(error),
                    Ok((operand, after)) => Ok(
                        (
                            ExpressionView::Unary {
                                location: peeked->0.location,
                                operator: unary_operator(peeked->0.kind)->0,
                                operand: Box::new(operand),
                            },
                            after,
                        ),
                    ),
                }
            } else {
                parse_primary(source, index)
            };
            match first {
                Err(error) => Err(error),
                Ok((left, after)) => if index < after <= source.len() {
                    parse_rest(source, after, left, parent)
                } else {
                    Ok((left, after))
                },
            }
        },
    }
}

/// The binary operators that follow `left` from `index` on and bind more
/// tightly than `parent`, each with its right operand. The right operand of
/// an operator holds the operators behind it that bind more tightly than
/// the operator itself, so operators of one level group to the left.
///
/// The tests on `after` here and in `parse_binary` are there for the
/// termination of the definition: `lemma_parse_advances` shows that they
/// always hold.
pub open spec fn parse_rest(source: Seq<char>, index: int, left: ExpressionView, parent: usize) -> Result<
    (ExpressionView, int),
    ParseErrorView,
>
    decreases source.len() - index, 0int,
    when 0 <= index <= source.len()
{
    let step = scan(source, index);
    match step.result {
        Err(error) => Err(lexer_failure(error)),
        Ok(peeked) => if peeked is Some && binary_operator(peeked->0.kind) is Some
            && precedence(binary_operator(peeked->0.kind)->0) > parent {
            let operator = binary_operator(peeked->0.kind)->0;
            proof {
                lemma_scan_advances(source, index);
            }
            match parse_binary(source, step.next, precedence(operator)) {
                Err(error) => Err(error),
                Ok((right, after)) => {
                    let joined = ExpressionView::Binary {
                        location: peeked->0.location,
                        left: Box::new(left),
                        operator,
                        right: Box::new(right),
                    };
                    if index < after <= source.len() {
                        parse_rest(source, after, joined, parent)
                    } else {
                        Ok((joined, after))
                    }
                },
            }
        } else {
            Ok((left, index))
        },
    }
}

/// One assignment from `index` on: a name, `=`, an expression and `;`.
pub open spec fn parse_statement(source: Seq<char>, index: int) -> Result<
    (StatementView, int),
    ParseErrorView,
> {
    match token_at(source, index) {
        Err(error) => Err(error),
        Ok((first, next)) => match first.kind {
            TokenKindView::Name(name) => match token_of_kind(source, next, TokenKindView::Equal) {
                Err(error) => Err(error),
                Ok((equals, start)) => match parse_binary(source, start, 0) {
                    Err(error) => Err(error),
                    Ok((value, after)) => match token_of_kind(
                        source,
                        after,
                        TokenKindView::Semicolon,
                    ) {
                        Err(error) => Err(error),
                        Ok((_, end)) => Ok(
                            (StatementView { location: equals.location, name, value }, end),
                        ),
                    },
                },
            },
            _ => Err(unexpected(first)),
        },
    }
}

/// The statements from `index` to the end of the text, or the first error.
/// The test on `after` is there for the termination of the definition:
/// `lemma_parse_advances` shows that it always holds.
pub open spec fn parse_statements(source: Seq<char>, index: int) -> Result<
    Seq<StatementView>,
    ParseErrorView,
>
    decreases source.len() - index,
    when 0 <= index <= source.len()
{
    match scan(source, index).result {
        Err(error) => Err(lexer_failure(error)),
        Ok(None) => Ok(Seq::empty()),
        Ok(Some(_)) => match parse_statement(source, index) {
            Err(error) => Err(error),
            Ok((statement, after)) => if index < after <= source.len() {
                match parse_statements(source, after) {
                    Err(error) => Err(error),
                    Ok(rest) => Ok(seq![statement] + rest),
                }
            } else {
                Ok(seq![statement])
            },
        },
    }
}

/// What `parse` gives for a source text: its statements in the order in
/// which they stand, or the first error met while reading from the left.
pub open spec fn parse_source(source: Seq<char>) -> Result<Seq<StatementView>, ParseErrorView> {
    parse_statements(source, 0)
}

/// A token that was read ends within the text, behind where reading began.
pub proof fn lemma_token_advances(source: Seq<char>, index: int)
    requires
        0 <= index <= source.len(),
    ensures
        token_at(source, index) matches Ok((_, next)) ==> index < next <= source.len(),
{
    lemma_scan_advances(source, index);
}

/// An expression that was parsed ends within the text, behind where it began.
pub proof fn lemma_parse_advances(source: Seq<char>, index: int, parent: usize)
    requires
        0 <= index <= source.len(),
    ensures
        parse_binary(source, index, parent) matches Ok((_, next)) ==> index < next <= source.len(),
        parse_primary(source, index) matches Ok((_, next)) ==> index < next <= source.len(),
    decreases source.len() - index, 1int,
{
    lemma_scan_advances(source, index);
    lemma_token_advances(source, index);
    if let Ok((token, next)) = token_at(source, index) {
        if token.kind is OpenParenthesis {
            lemma_parse_advances(source, next, 0);
            if let Ok((_, after)) = parse_binary(source, next, 0) {
                lemma_token_advances(source, after);
            }
        }
    }
    let step = scan(source, index);
    if let Ok(peeked) = step.result {
        if peeked is Some && unary_operator(peeked->0.kind) is Some {
            lemma_parse_advances(source, step.next, usize::MAX);
        }
        let first = if peeked is Some && unary_operator(peeked->0.kind) is Some {
            match parse_binary(source, step.next, usize::MAX) {
                Err(error) => Err(error),
                Ok((operand, after)) => Ok(
                    (
                        ExpressionView::Unary {
                            location: peeked->0.location,
                            operator: unary_operator(peeked->0.kind)->0,
                            operand: Box::new(operand),
                        },
                        after,
                    ),
                ),
            }
        } else {
            parse_primary(source, index)
        };
        if let Ok((left, after)) = first {
            lemma_rest_advances(source, after, left, parent);
        }
    }
}

/// The operators and operands behind a left operand end within the text,
/// at or behind where they began.
pub proof fn lemma_rest_advances(source: Seq<char>, index: int, left: ExpressionView, parent: usize)
    requires
        0 <= index <= source.len(),
    ensures
        parse_rest(source, index, left, parent) matches Ok((_, next)) ==> index <= next
            <= source.len(),
    decreases source.len() - index, 0int,
{
    lemma_scan_advances(source, index);
    let step = scan(source, index);
    if let Ok(peeked) = step.result {
        if peeked is Some && binary_operator(peeked->0.kind) is Some && precedence(
            binary_operator(peeked->0.kind)->0,
        ) > parent {
            let operator = binary_operator(peeked->0.kind)->0;
            lemma_parse_advances(source, step.next, precedence(operator));
            if let Ok((right, after)) = parse_binary(source, step.next, precedence(operator)) {
                let joined = ExpressionView::Binary {
                    location: peeked->0.location,
                    left: Box::new(left),
                    operator,
                    right: Box::new(right),
                };
                lemma_rest_advances(source, after, joined, parent);
            }
        }
    }
}

/// Behind the operand of a prefix operator no binary operator is taken: the
/// operand ends before the next binary operator, whatever that is.
pub proof fn lemma_prefix_operand_takes_no_operator(
    source: Seq<char>,
    index: int,
    left: ExpressionView,
)
    requires
        0 <= index <= source.len(),
    ensures
        parse_rest(source, index, left, usize::MAX) == match scan(source, index).result {
            Ok(_) => Ok::<(ExpressionView, int), ParseErrorView>((left, index)),
            Err(error) => Err(lexer_failure(error)),
        },
{
}

/// A statement that was parsed ends within the text, behind where it began.
pub proof fn lemma_statement_advances(source: Seq<char>, index: int)
    requires
        0 <= index <= source.len(),
    ensures
        parse_statement(source, index) matches Ok((_, next)) ==> index < next <= source.len(),
{
    lemma_token_advances(source, index);
    if let Ok((_, next)) = token_at(source, index) {
        lemma_token_advances(source, next);
        if let Ok((_, start)) = token_at(source, next) {
            lemma_parse_advances(source, start, 0);
            if let Ok((_, after)) = parse_binary(source, start, 0) {
                lemma_token_advances(source, after);
            }
        }
    }
}

fn unary_operator_of(kind: &TokenKind) -> (r: Option<UnaryOperator>)
    ensures
        r == unary_operator(kind@),
{
    match kind {
        TokenKind::Minus => Some(UnaryOperator::Negate),
        TokenKind::ExclamationMark => Some(UnaryOperator::Dual),
        TokenKind::Tilde => Some(UnaryOperator::Reverse),
        _ => None,
    }
}

fn binary_operator_of(kind: &TokenKind) -> (r: Option<BinaryOperator>)
    ensures
        r == binary_operator(kind@),
{
    match kind {
        TokenKind::Plus => Some(BinaryOperator::Add),
        TokenKind::Minus => Some(BinaryOperator::Subtract),
        TokenKind::Asterisk => Some(BinaryOperator::Multiply),
        TokenKind::Slash => Some(BinaryOperator::Divide),
        TokenKind::Caret => Some(BinaryOperator::Wedge),
        TokenKind::Pipe => Some(BinaryOperator::Inner),
        TokenKind::Ampersand => Some(BinaryOperator::Regressive),
        _ => None,
    }
}

fn precedence_of(operator: BinaryOperator) -> (r: usize)
    ensures
        r == precedence(operator),
{
    match operator {
        BinaryOperator::Add | BinaryOperator::Subtract => 1,
        _ => 2,
    }
}

fn unexpected_token(token: Token) -> (r: ParseError)
    ensures
        r@ == unexpected(token@),
{
    ParseError { location: token.location, kind: ParseErrorKind::UnexpectedToken(token) }
}

struct Parser {
    lexer: Lexer,
}

impl Parser {
    fn new(source: &str) -> (parser: Parser)
        ensures
            parser.lexer.source() == source@,
            parser.lexer.index() == 0,
    {
        Parser { lexer: Lexer::new(source) }
    }

    /// Takes the next token, whatever it is.
    fn take_token(&mut self) -> (r: Result<Token, ParseError>)
        ensures
            final(self).lexer.source() == old(self).lexer.source(),
            0 <= old(self).lexer.index() <= old(self).lexer.source().len(),
            match r {
                Ok(token) => token_at(old(self).lexer.source(), old(self).lexer.index()) == Ok::<
                    (TokenView, int),
                    ParseErrorView,
                >((token@, final(self).lexer.index())),
                Err(error) => token_at(old(self).lexer.source(), old(self).lexer.index()) == Err::<
                    (TokenView, int),
                    ParseErrorView,
                >(error@),
            },
    {
        match self.lexer.next_token() {
            Ok(Some(token)) => Ok(token),
            Ok(None) => Err(
                ParseError { location: self.lexer.location(), kind: ParseErrorKind::UnexpectedEOI },
            ),
            Err(error) => Err(ParseError::from(error)),
        }
    }

    /// Takes the next token, which has to be a name, and gives its spelling.
    fn take_name(&mut self) -> (r: Result<String, ParseError>)
        ensures
            final(self).lexer.source() == old(self).lexer.source(),
            match r {
                Ok(name) => token_at(old(self).lexer.source(), old(self).lexer.index())
                    matches Ok((token, next)) && token.kind == TokenKindView::Name(name@) && next
                    == final(self).lexer.index(),
                Err(error) => match token_at(old(self).lexer.source(), old(self).lexer.index()) {
                    Ok((token, _)) => !(token.kind is Name) && error@ == unexpected(token),
                    Err(failure) => error@ == failure,
                },
            },
    {
        let token = match self.take_token() {
            Ok(token) => token,
            Err(error) => {
                return Err(error);
            },
        };
        match token.kind {
            TokenKind::Name(name) => Ok(name),
            kind => Err(unexpected_token(Token { location: token.location, kind })),
        }
    }

    /// Takes the next token, which has to be `=`, `;` or `)` as `wanted`
    /// says, and gives its location.
    fn take_mark(&mut self, wanted: TokenKind) -> (r: Result<Location, ParseError>)
        requires
            wanted is Equal || wanted is Semicolon || wanted is CloseParenthesis,
        ensures
            final(self).lexer.source() == old(self).lexer.source(),
            match r {
                Ok(location) => token_of_kind(
                    old(self).lexer.source(),
                    old(self).lexer.index(),
                    wanted@,
                ) matches Ok((token, next)) && token.location == location && next == final(self).lexer.index(),
                Err(error) => token_of_kind(
                    old(self).lexer.source(),
                    old(self).lexer.index(),
                    wanted@,
                ) == Err::<(TokenView, int), ParseErrorView>(error@),
            },
    {
        let token = match self.take_token() {
            Ok(token) => token,
            Err(error) => {
                return Err(error);
            },
        };
        let found = match (&token.kind, &wanted) {
            (TokenKind::Equal, TokenKind::Equal) => true,
            (TokenKind::Semicolon, TokenKind::Semicolon) => true,
            (TokenKind::CloseParenthesis, TokenKind::CloseParenthesis) => true,
            _ => false,
        };
        if found {
            Ok(token.location)
        } else {
            Err(unexpected_token(token))
        }
    }

    fn parse_statement(&mut self) -> (r: Result<AstStatement, ParseError>)
        ensures
            final(self).lexer.source() == old(self).lexer.source(),
            match r {
                Ok(statement) => parse_statement(old(self).lexer.source(), old(self).lexer.index())
                    == Ok::<(StatementView, int), ParseErrorView>(
                    (statement@, final(self).lexer.index()),
                ),
                Err(error) => parse_statement(old(self).lexer.source(), old(self).lexer.index())
                    == Err::<(StatementView, int), ParseErrorView>(error@),
            },
    {
        let name = match self.take_name() {
            Ok(name) => name,
            Err(error) => {
                return Err(error);
            },
        };
        let equals = match self.take_mark(TokenKind::Equal) {
            Ok(location) => location,
            Err(error) => {
                return Err(error);
            },
        };
        let value = match self.parse_expression() {
            Ok(value) => value,
            Err(error) => {
                return Err(error);
            },
        };
        match self.take_mark(TokenKind::Semicolon) {
            Ok(_) => {},
            Err(error) => {
                return Err(error);
            },
        }
        Ok(AstStatement { location: equals, kind: AstStatementKind::Assignment { name, value } })
    }

    fn parse_expression(&mut self) -> (r: Result<AstExpression, ParseError>)
        ensures
            final(self).lexer.source() == old(self).lexer.source(),
            match r {
                Ok(expression) => parse_binary(old(self).lexer.source(), old(self).lexer.index(), 0)
                    == Ok::<(ExpressionView, int), ParseErrorView>(
                    (expression@, final(self).lexer.index()),
                ),
                Err(error) => parse_binary(old(self).lexer.source(), old(self).lexer.index(), 0)
                    == Err::<(ExpressionView, int), ParseErrorView>(error@),
            },
        decreases old(self).lexer.source().len() - old(self).lexer.index(), 2int,
    {
        self.parse_binary_expression(0)
    }

    fn parse_binary_expression(&mut self, parent_precedence: usize) -> (r: Result<
        AstExpression,
        ParseError,
    >)
        ensures
            final(self).lexer.source() == old(self).lexer.source(),
            match r {
                Ok(expression) => parse_binary(
                    old(self).lexer.source(),
                    old(self).lexer.index(),
                    parent_precedence,
                ) == Ok::<(ExpressionView, int), ParseErrorView>(
                    (expression@, final(self).lexer.index()),
                ),
                Err(error) => parse_binary(
                    old(self).lexer.source(),
                    old(self).lexer.index(),
                    parent_precedence,
                ) == Err::<(ExpressionView, int), ParseErrorView>(error@),
            },
        decreases old(self).lexer.source().len() - old(self).lexer.index(), 1int,
    {
        let ghost source = self.lexer.source();
        let ghost start = self.lexer.index();
        let peeked = match self.lexer.peek_token() {
            Ok(peeked) => peeked,
            Err(error) => {
                return Err(ParseError::from(error));
            },
        };
        proof {
            lemma_scan_advances(source, start);
            lemma_parse_advances(source, start, parent_precedence);
        }
        let prefix = match &peeked {
            Some(token) => unary_operator_of(&token.kind),
            None => None,
        };
        let mut left = match prefix {
            Some(operator) => {
                let operator_token = match self.take_token() {
                    Ok(token) => token,
                    Err(error) => {
                        return Err(error);
                    },
                };
                let operand = match self.parse_binary_expression(usize::MAX) {
                    Ok(operand) => operand,
                    Err(error) => {
                        return Err(error);
                    },
                };
                AstExpression {
                    location: operator_token.location,
                    kind: AstExpressionKind::Unary { operator, operand: Box::new(operand) },
                }
            },
            None => match self.parse_primary_expression() {
                Ok(primary) => primary,
                Err(error) => {
                    return Err(error);
                },
            },
        };
        let ghost first = left@;
        let ghost middle = self.lexer.index();
        loop
            invariant
                source == old(self).lexer.source(),
                start == old(self).lexer.index(),
                self.lexer.source() == source,
                0 <= start < middle <= self.lexer.index() <= source.len(),
                parse_binary(source, start, parent_precedence) == parse_rest(
                    source,
                    middle,
                    first,
                    parent_precedence,
                ),
                parse_rest(source, self.lexer.index(), left@, parent_precedence) == parse_rest(
                    source,
                    middle,
                    first,
                    parent_precedence,
                ),
            ensures
                self.lexer.source() == source,
                parse_rest(source, middle, first, parent_precedence) == Ok::<
                    (ExpressionView, int),
                    ParseErrorView,
                >((left@, self.lexer.index())),
            decreases source.len() - self.lexer.index(),
        {
            let ghost here = self.lexer.index();
            proof {
                lemma_scan_advances(source, here);
            }
            let peeked = match self.lexer.peek_token() {
                Ok(peeked) => peeked,
                Err(error) => {
                    return Err(ParseError::from(error));
                },
            };
            let infix = match &peeked {
                Some(token) => binary_operator_of(&token.kind),
                None => None,
            };
            let operator = match infix {
                Some(operator) => operator,
                None => {
                    break ;
                },
            };
            let level = precedence_of(operator);
            if level <= parent_precedence {
                break ;
            }
            let operator_token = match self.take_token() {
                Ok(token) => token,
                Err(error) => {
                    return Err(error);
                },
            };
            proof {
                lemma_parse_advances(source, self.lexer.index(), level);
            }
            let right = match self.parse_binary_expression(level) {
                Ok(right) => right,
                Err(error) => {
                    return Err(error);
                },
            };
            left = AstExpression {
                location: operator_token.location,
                kind: AstExpressionKind::Binary {
                    left: Box::new(left),
                    operator,
                    right: Box::new(right),
                },
            };
        }
        Ok(left)
    }

    fn parse_primary_expression(&mut self) -> (r: Result<AstExpression, ParseError>)
        ensures
            final(self).lexer.source() == old(self).lexer.source(),
            match r {
                Ok(expression) => parse_primary(old(self).lexer.source(), old(self).lexer.index())
                    == Ok::<(ExpressionView, int), ParseErrorView>(
                    (expression@, final(self).lexer.index()),
                ),
                Err(error) => parse_primary(old(self).lexer.source(), old(self).lexer.index())
                    == Err::<(ExpressionView, int), ParseErrorView>(error@),
            },
        decreases old(self).lexer.source().len() - old(self).lexer.index(), 0int,
    {
        let token = match self.take_token() {
            Ok(token) => token,
            Err(error) => {
                return Err(error);
            },
        };
        proof {
            lemma_scan_advances(old(self).lexer.source(), old(self).lexer.index());
        }
        match token.kind {
            TokenKind::Name(name) => Ok(
                AstExpression { location: token.location, kind: AstExpressionKind::Name { name } },
            ),
            TokenKind::Number(number) => Ok(
                AstExpression {
                    location: token.location,
                    kind: AstExpressionKind::Number { number },
                },
            ),
            TokenKind::OpenParenthesis => {
                let expression = match self.parse_expression() {
                    Ok(expression) => expression,
                    Err(error) => {
                        return Err(error);
                    },
                };
                match self.take_mark(TokenKind::CloseParenthesis) {
                    Ok(_) => Ok(expression),
                    Err(error) => Err(error),
                }
            },
            kind => Err(unexpected_token(Token { location: token.location, kind })),
        }
    }
}

/// The views of the statements of a list, in its order.
pub open spec fn statement_views(statements: Seq<AstStatement>) -> Seq<StatementView> {
    Seq::new(statements.len(), |i: int| statements[i]@)
}

/// Parses a whole source text: its statements in the order in which they
/// stand, or the first error met while reading from the left. Nothing is
/// skipped and nothing is repaired.
pub fn parse(source: &str) -> (r: Result<Vec<AstStatement>, ParseError>)
    ensures
        match r {
            Ok(statements) => parse_source(source@) == Ok::<Seq<StatementView>, ParseErrorView>(
                statement_views(statements@),
            ),
            Err(error) => parse_source(source@) == Err::<Seq<StatementView>, ParseErrorView>(
                error@,
            ),
        },
{
    let mut parser = Parser::new(source);
    let mut statements: Vec<AstStatement> = Vec::new();
    loop
        invariant
            parser.lexer.source() == source@,
            match parse_statements(source@, parser.lexer.index()) {
                Ok(rest) => parse_source(source@) == Ok::<Seq<StatementView>, ParseErrorView>(
                    statement_views(statements@) + rest,
                ),
                Err(error) => parse_source(source@) == Err::<Seq<StatementView>, ParseErrorView>(
                    error,
                ),
            },
        decreases source@.len() - parser.lexer.index(),
    {
        let ghost here = parser.lexer.index();
        let ghost before = statement_views(statements@);
        match parser.lexer.peek_token() {
            Ok(Some(_)) => {},
            Ok(None) => {
                assert(before + Seq::<StatementView>::empty() == before);
                return Ok(statements);
            },
            Err(error) => {
                return Err(ParseError::from(error));
            },
        }
        proof {
            lemma_statement_advances(source@, here);
        }
        let statement = match parser.parse_statement() {
            Ok(statement) => statement,
            Err(error) => {
                return Err(error);
            },
        };
        let ghost added = statement@;
        statements.push(statement);
        proof {
            assert(statement_views(statements@) == before + seq![added]);
            if let Ok(rest) = parse_statements(source@, parser.lexer.index()) {
                assert(before + (seq![added] + rest) == (before + seq![added]) + rest);
            }
        }
    }
}

} // verus!
