//! The lexer: from source text to located tokens, one at a time.
use crate::text::{chars_of, decimal, push_decimal, string_of};
use vstd::prelude::*;
use vstd::string::StringExecFns;

verus! {

/// What `char::is_alphabetic` answers for `c`.
pub uninterp spec fn is_alphabetic(c: char) -> bool;

/// What `char::is_numeric` answers for `c`.
pub uninterp spec fn is_numeric(c: char) -> bool;

/// What `char::is_whitespace` answers for `c`.
pub uninterp spec fn is_whitespace(c: char) -> bool;

/// `char::is_alphabetic`: whether `c` has the Unicode property `Alphabetic`.
/// The answer depends on `c` alone; nothing more is claimed of it.
#[verifier::external_body]
fn char_is_alphabetic(c: char) -> (r: bool)
    ensures
        r == is_alphabetic(c),
{
    c.is_alphabetic()
}

/// `char::is_numeric`: whether `c` is in one of the Unicode categories of
/// numbers. The answer depends on `c` alone; nothing more is claimed of it.
#[verifier::external_body]
fn char_is_numeric(c: char) -> (r: bool)
    ensures
        r == is_numeric(c),
{
    c.is_numeric()
}

/// `char::is_whitespace`: whether `c` has the Unicode property `White_Space`.
/// The answer depends on `c` alone; nothing more is claimed of it.
#[verifier::external_body]
fn char_is_whitespace(c: char) -> (r: bool)
    ensures
        r == is_whitespace(c),
{
    c.is_whitespace()
}

/// The number of bytes that `c` takes in UTF-8.
pub open spec fn utf8_width(c: char) -> nat {
    let v = c as u32;
    if v < 0x80 {
        1
    } else if v < 0x800 {
        2
    } else if v < 0x10000 {
        3
    } else {
        4
    }
}

/// The width of a character is the length of its encoding in UTF-8.
pub proof fn lemma_utf8_width_is_encoded_length(c: char)
    ensures
        utf8_width(c) == vstd::utf8::encode_scalar(c as u32).len(),
{
    vstd::utf8::char_is_scalar(c);
}

/// `n + by`, or the largest `usize` where the sum does not fit.
pub open spec fn saturating(n: usize, by: nat) -> usize {
    if n + by <= usize::MAX {
        (n + by) as usize
    } else {
        usize::MAX
    }
}

/// A place in the source text: the byte offset, and the line and column,
/// both counted from one.
#[derive(Debug, Clone, Copy, PartialEq, Eq, Structural)]
pub struct Location {
    pub position: usize,
    pub line: usize,
    pub column: usize,
}

impl Location {
    /// The place of the first character.
    pub open spec fn start() -> Location {
        Location { position: 0, line: 1, column: 1 }
    }

    /// The place just behind `c`, where `c` stands at `self`. A line feed
    /// begins a new line. The counts stop at the largest `usize`.
    pub open spec fn advance(self, c: char) -> Location {
        Location {
            position: saturating(self.position, utf8_width(c)),
            line: if c == '\n' {
                saturating(self.line, 1)
            } else {
                self.line
            },
            column: if c == '\n' {
                1
            } else {
                saturating(self.column, 1)
            },
        }
    }

    /// The place of the character with the given index in `source`.
    pub open spec fn at(source: Seq<char>, index: int) -> Location
        decreases index,
    {
        if index <= 0 || index > source.len() {
            Location::start()
        } else {
            Location::at(source, index - 1).advance(source[index - 1])
        }
    }

    /// The text `line:column`.
    pub open spec fn text(self) -> Seq<char> {
        decimal(self.line as nat) + seq![':'] + decimal(self.column as nat)
    }

    /// The location as it is shown in messages.
    pub fn to_string(&self) -> (s: String)
        ensures
            s@ == self.text(),
    {
        let mut s = String::new();
        push_decimal(&mut s, self.line);
        s.push(':');
        push_decimal(&mut s, self.column);
        s
    }
}

/// Why the lexer stopped.
#[derive(Debug, Clone, Copy, PartialEq, Eq, Structural)]
pub enum LexerErrorKind {
    UnexpectedChar(char),
    InvalidNumber,
}

impl LexerErrorKind {
    pub open spec fn text(self) -> Seq<char> {
        match self {
            LexerErrorKind::UnexpectedChar(c) => "Unexpected character '"@ + seq![c] + seq!['\''],
            LexerErrorKind::InvalidNumber => "Invalid number"@,
        }
    }

    pub fn to_string(&self) -> (s: String)
        ensures
            s@ == self.text(),
    {
        match self {
            LexerErrorKind::UnexpectedChar(c) => {
                let mut s = String::from_str("Unexpected character '");
                s.push(*c);
                s.push('\'');
                s
            },
            LexerErrorKind::InvalidNumber => String::from_str("Invalid number"),
        }
    }
}

/// A lexer error and the place where it arose.
#[derive(Debug, Clone, Copy, PartialEq, Eq, Structural)]
pub struct LexerError {
    pub location: Location,
    pub kind: LexerErrorKind,
}

impl LexerError {
    /// The text `line:column: message`.
    pub open spec fn text(self) -> Seq<char> {
        self.location.text() + ": "@ + self.kind.text()
    }

    pub fn to_string(&self) -> (s: String)
        ensures
            s@ == self.text(),
    {
        let mut s = self.location.to_string();
        s.append(": ");
        let kind = self.kind.to_string();
        s.append(kind.as_str());
        s
    }
}

/// The kinds of token. A name carries its spelling, a number the text of
/// its literal.
#[derive(Debug, Clone, PartialEq, Eq)]
pub enum TokenKind {
    Name(String),
    NormalizeKeyword,
    MagnitudeKeyword,
    SinKeyword,
    CosKeyword,
    ASinKeyword,
    ACosKeyword,
    Number(String),
    OpenParenthesis,
    CloseParenthesis,
    Semicolon,
    Plus,
    Minus,
    Asterisk,
    Slash,
    Caret,
    Pipe,
    Ampersand,
    ExclamationMark,
    Tilde,
    Equal,
}

/// A token kind with the texts it carries as sequences of characters.
pub enum TokenKindView {
    Name(Seq<char>),
    NormalizeKeyword,
    MagnitudeKeyword,
    SinKeyword,
    CosKeyword,
    ASinKeyword,
    ACosKeyword,
    Number(Seq<char>),
    OpenParenthesis,
    CloseParenthesis,
    Semicolon,
    Plus,
    Minus,
    Asterisk,
    Slash,
    Caret,
    Pipe,
    Ampersand,
    ExclamationMark,
    Tilde,
    Equal,
}

impl TokenKindView {
    /// The token as it is shown in messages.
    pub open spec fn text(self) -> Seq<char> {
        match self {
            TokenKindView::Name(name) => name,
            TokenKindView::NormalizeKeyword => "normalize"@,
            TokenKindView::MagnitudeKeyword => "magnitude"@,
            TokenKindView::SinKeyword => "sin"@,
            TokenKindView::CosKeyword => "cos"@,
            TokenKindView::ASinKeyword => "asin"@,
            TokenKindView::ACosKeyword => "acos"@,
            TokenKindView::Number(literal) => literal,
            TokenKindView::OpenParenthesis => "("@,
            TokenKindView::CloseParenthesis => ")"@,
            TokenKindView::Semicolon => ";"@,
            TokenKindView::Plus => "+"@,
            TokenKindView::Minus => "-"@,
            TokenKindView::Asterisk => "*"@,
            TokenKindView::Slash => "/"@,
            TokenKindView::Caret => "^"@,
            TokenKindView::Pipe => "|"@,
            TokenKindView::Ampersand => "&"@,
            TokenKindView::ExclamationMark => "!"@,
            TokenKindView::Tilde => "~"@,
            TokenKindView::Equal => "="@,
        }
    }
}

impl View for TokenKind {
    type V = TokenKindView;

    open spec fn view(&self) -> TokenKindView {
        match self {
            TokenKind::Name(name) => TokenKindView::Name(name@),
            TokenKind::NormalizeKeyword => TokenKindView::NormalizeKeyword,
            TokenKind::MagnitudeKeyword => TokenKindView::MagnitudeKeyword,
            TokenKind::SinKeyword => TokenKindView::SinKeyword,
            TokenKind::CosKeyword => TokenKindView::CosKeyword,
            TokenKind::ASinKeyword => TokenKindView::ASinKeyword,
            TokenKind::ACosKeyword => TokenKindView::ACosKeyword,
            TokenKind::Number(literal) => TokenKindView::Number(literal@),
            TokenKind::OpenParenthesis => TokenKindView::OpenParenthesis,
            TokenKind::CloseParenthesis => TokenKindView::CloseParenthesis,
            TokenKind::Semicolon => TokenKindView::Semicolon,
            TokenKind::Plus => TokenKindView::Plus,
            TokenKind::Minus => TokenKindView::Minus,
            TokenKind::Asterisk => TokenKindView::Asterisk,
            TokenKind::Slash => TokenKindView::Slash,
            TokenKind::Caret => TokenKindView::Caret,
            TokenKind::Pipe => TokenKindView::Pipe,
            TokenKind::Ampersand => TokenKindView::Ampersand,
            TokenKind::ExclamationMark => TokenKindView::ExclamationMark,
            TokenKind::Tilde => TokenKindView::Tilde,
            TokenKind::Equal => TokenKindView::Equal,
        }
    }
}

impl TokenKind {
    /// The token as it is shown in messages.
    pub fn to_string(&self) -> (s: String)
        ensures
            s@ == self@.text(),
    {
        match self {
            TokenKind::Name(name) => name.clone(),
            TokenKind::NormalizeKeyword => String::from_str("normalize"),
            TokenKind::MagnitudeKeyword => String::from_str("magnitude"),
            TokenKind::SinKeyword => String::from_str("sin"),
            TokenKind::CosKeyword => String::from_str("cos"),
            TokenKind::ASinKeyword => String::from_str("asin"),
            TokenKind::ACosKeyword => String::from_str("acos"),
            TokenKind::Number(literal) => literal.clone(),
            TokenKind::OpenParenthesis => String::from_str("("),
            TokenKind::CloseParenthesis => String::from_str(")"),
            TokenKind::Semicolon => String::from_str(";"),
            TokenKind::Plus => String::from_str("+"),
            TokenKind::Minus => String::from_str("-"),
            TokenKind::Asterisk => String::from_str("*"),
            TokenKind::Slash => String::from_str("/"),
            TokenKind::Caret => String::from_str("^"),
            TokenKind::Pipe => String::from_str("|"),
            TokenKind::Ampersand => String::from_str("&"),
            TokenKind::ExclamationMark => String::from_str("!"),
            TokenKind::Tilde => String::from_str("~"),
            TokenKind::Equal => String::from_str("="),
        }
    }
}

/// A token and the place of its first character.
#[derive(Debug, Clone, PartialEq, Eq)]
pub struct Token {
    pub location: Location,
    pub kind: TokenKind,
}

/// A token with the view of its kind.
pub struct TokenView {
    pub location: Location,
    pub kind: TokenKindView,
}

impl View for Token {
    type V = TokenView;

    open spec fn view(&self) -> TokenView {
        TokenView { location: self.location, kind: self.kind@ }
    }
}

impl Token {
    /// The token as it is shown in messages.
    pub fn to_string(&self) -> (s: String)
        ensures
            s@ == self@.kind.text(),
    {
        self.kind.to_string()
    }
}

/// The token that a single character makes, if it makes one.
pub open spec fn symbol(c: char) -> Option<TokenKindView> {
    if c == '(' {
        Some(TokenKindView::OpenParenthesis)
    } else if c == ')' {
        Some(TokenKindView::CloseParenthesis)
    } else if c == ';' {
        Some(TokenKindView::Semicolon)
    } else if c == '+' {
        Some(TokenKindView::Plus)
    } else if c == '-' {
        Some(TokenKindView::Minus)
    } else if c == '*' {
        Some(TokenKindView::Asterisk)
    } else if c == '/' {
        Some(TokenKindView::Slash)
    } else if c == '^' {
        Some(TokenKindView::Caret)
    } else if c == '|' {
        Some(TokenKindView::Pipe)
    } else if c == '&' {
        Some(TokenKindView::Ampersand)
    } else if c == '!' {
        Some(TokenKindView::ExclamationMark)
    } else if c == '~' {
        Some(TokenKindView::Tilde)
    } else if c == '=' {
        Some(TokenKindView::Equal)
    } else {
        None
    }
}

/// Whether a name may begin with `c`.
pub open spec fn starts_name(c: char) -> bool {
    is_alphabetic(c) || c == '_'
}

/// Whether a name that has begun goes on with `c`.
pub open spec fn continues_name(c: char) -> bool {
    is_alphabetic(c) || is_numeric(c) || c == '_'
}

/// Whether a number that has begun goes on with `c`.
pub open spec fn continues_number(c: char) -> bool {
    is_numeric(c) || c == '.'
}

/// The index behind the longest run of name characters that begins at `index`.
pub open spec fn name_end(source: Seq<char>, index: int) -> int
    decreases source.len() - index,
{
    if 0 <= index < source.len() && continues_name(source[index]) {
        name_end(source, index + 1)
    } else {
        index
    }
}

/// The index behind the longest run of number characters that begins at `index`.
pub open spec fn number_end(source: Seq<char>, index: int) -> int
    decreases source.len() - index,
{
    if 0 <= index < source.len() && continues_number(source[index]) {
        number_end(source, index + 1)
    } else {
        index
    }
}

/// The token that a word is: one of the six keywords, or a name.
pub open spec fn word(spelling: Seq<char>) -> TokenKindView {
    if spelling == "normalize"@ {
        TokenKindView::NormalizeKeyword
    } else if spelling == "magnitude"@ {
        TokenKindView::MagnitudeKeyword
    } else if spelling == "sin"@ {
        TokenKindView::SinKeyword
    } else if spelling == "cos"@ {
        TokenKindView::CosKeyword
    } else if spelling == "asin"@ {
        TokenKindView::ASinKeyword
    } else if spelling == "acos"@ {
        TokenKindView::ACosKeyword
    } else {
        TokenKindView::Name(spelling)
    }
}

/// Whether `c` is one of the ten digits `0` to `9`.
pub open spec fn is_digit(c: char) -> bool {
    '0' <= c <= '9'
}

/// The number of full stops among the first `count` characters of `literal`.
pub open spec fn count_points(literal: Seq<char>, count: int) -> nat
    decreases count,
{
    if count <= 0 || count > literal.len() {
        0
    } else if literal[count - 1] == '.' {
        count_points(literal, count - 1) + 1
    } else {
        count_points(literal, count - 1)
    }
}

/// Whether `literal` writes a number: digits, of which the first stands at
/// the front, with at most one full stop among or behind them.
pub open spec fn is_number(literal: Seq<char>) -> bool {
    &&& literal.len() > 0
    &&& is_digit(literal[0])
    &&& forall|i: int| 0 <= i < literal.len() ==> is_digit(#[trigger] literal[i]) || literal[i] == '.'
    &&& count_points(literal, literal.len() as int) <= 1
}

/// One step of the lexer: what it found, and the index at which it stopped.
pub struct Scan {
    pub result: Result<Option<TokenView>, LexerError>,
    pub next: int,
}

/// The step that the lexer makes from `index`: it passes over whitespace,
/// then reads one token, or reports the end of the text or an error.
pub open spec fn scan(source: Seq<char>, index: int) -> Scan
    decreases source.len() - index,
{
    if index < 0 || index >= source.len() {
        Scan { result: Ok(None), next: index }
    } else {
        let c = source[index];
        let location = Location::at(source, index);
        if symbol(c) is Some {
            Scan {
                result: Ok(Some(TokenView { location, kind: symbol(c)->0 })),
                next: index + 1,
            }
        } else if starts_name(c) {
            let end = name_end(source, index + 1);
            Scan {
                result: Ok(Some(TokenView { location, kind: word(source.subrange(index, end)) })),
                next: end,
            }
        } else if is_numeric(c) {
            let end = number_end(source, index + 1);
            let literal = source.subrange(index, end);
            Scan {
                result: if is_number(literal) {
                    Ok(Some(TokenView { location, kind: TokenKindView::Number(literal) }))
                } else {
                    Err(LexerError { location, kind: LexerErrorKind::InvalidNumber })
                },
                next: end,
            }
        } else if is_whitespace(c) {
            scan(source, index + 1)
        } else {
            Scan {
                result: Err(LexerError { location, kind: LexerErrorKind::UnexpectedChar(c) }),
                next: index + 1,
            }
        }
    }
}

/// What the lexer hands out, with the view of the token in it.
pub open spec fn scanned(result: Result<Option<Token>, LexerError>) -> Result<
    Option<TokenView>,
    LexerError,
> {
    match result {
        Ok(Some(token)) => Ok(Some(token@)),
        Ok(None) => Ok(None),
        Err(error) => Err(error),
    }
}

/// A run of name characters ends within the text, at or behind its start.
pub proof fn lemma_name_end_bounds(source: Seq<char>, index: int)
    requires
        0 <= index <= source.len(),
    ensures
        index <= name_end(source, index) <= source.len(),
    decreases source.len() - index,
{
    if index < source.len() && continues_name(source[index]) {
        lemma_name_end_bounds(source, index + 1);
    }
}

/// A run of number characters ends within the text, at or behind its start.
pub proof fn lemma_number_end_bounds(source: Seq<char>, index: int)
    requires
        0 <= index <= source.len(),
    ensures
        index <= number_end(source, index) <= source.len(),
    decreases source.len() - index,
{
    if index < source.len() && continues_number(source[index]) {
        lemma_number_end_bounds(source, index + 1);
    }
}

/// A step of the lexer stays within the text and never goes back; one that
/// finds a token or an error has passed at least one character, and one that
/// finds the end has passed them all.
pub proof fn lemma_scan_advances(source: Seq<char>, index: int)
    requires
        0 <= index <= source.len(),
    ensures
        index <= scan(source, index).next <= source.len(),
        scan(source, index).result != Ok::<Option<TokenView>, LexerError>(None) ==> index < scan(
            source,
            index,
        ).next,
        scan(source, index).result == Ok::<Option<TokenView>, LexerError>(None) ==> scan(
            source,
            index,
        ).next == source.len(),
    decreases source.len() - index,
{
    if index < source.len() {
        let c = source[index];
        if symbol(c) is Some {
        } else if starts_name(c) {
            lemma_name_end_bounds(source, index + 1);
        } else if is_numeric(c) {
            lemma_number_end_bounds(source, index + 1);
        } else if is_whitespace(c) {
            lemma_scan_advances(source, index + 1);
        }
    }
}

/// Where the lexer stands: an index into the characters and its location.
#[derive(Clone, Copy)]
struct Cursor {
    index: usize,
    location: Location,
}

impl Cursor {
    spec fn wf(self, source: Seq<char>) -> bool {
        &&& self.index <= source.len()
        &&& self.location == Location::at(source, self.index as int)
    }
}

fn advance(location: Location, c: char) -> (r: Location)
    ensures
        r == location.advance(c),
{
    let v: u32 = c as u32;
    let width: usize = if v < 0x80 {
        1
    } else if v < 0x800 {
        2
    } else if v < 0x10000 {
        3
    } else {
        4
    };
    let position: usize = if location.position <= usize::MAX - width {
        location.position + width
    } else {
        usize::MAX
    };
    if c == '\n' {
        let line: usize = if location.line < usize::MAX {
            location.line + 1
        } else {
            usize::MAX
        };
        Location { position, line, column: 1 }
    } else {
        let column: usize = if location.column < usize::MAX {
            location.column + 1
        } else {
            usize::MAX
        };
        Location { position, line: location.line, column }
    }
}

/// The character under the cursor, if there is one.
fn peek_char(source: &Vec<char>, cursor: &Cursor) -> (r: Option<char>)
    requires
        cursor.wf(source@),
    ensures
        r == if cursor.index < source.len() {
            Some(source@[cursor.index as int])
        } else {
            None
        },
{
    if cursor.index < source.len() {
        Some(source[cursor.index])
    } else {
        None
    }
}

/// Takes the character under the cursor, if there is one, and moves on.
fn next_char(source: &Vec<char>, cursor: &mut Cursor) -> (r: Option<char>)
    requires
        old(cursor).wf(source@),
    ensures
        final(cursor).wf(source@),
        old(cursor).index < source.len() ==> r == Some(source@[old(cursor).index as int])
            && final(cursor).index == old(cursor).index + 1,
        old(cursor).index >= source.len() ==> r.is_none() && *final(cursor) == *old(cursor),
{
    if cursor.index < source.len() {
        let c = source[cursor.index];
        cursor.location = advance(cursor.location, c);
        cursor.index = cursor.index + 1;
        Some(c)
    } else {
        None
    }
}

fn symbol_of(c: char) -> (r: Option<TokenKind>)
    ensures
        match r {
            Some(kind) => symbol(c) == Some(kind@),
            None => symbol(c).is_none(),
        },
{
    if c == '(' {
        Some(TokenKind::OpenParenthesis)
    } else if c == ')' {
        Some(TokenKind::CloseParenthesis)
    } else if c == ';' {
        Some(TokenKind::Semicolon)
    } else if c == '+' {
        Some(TokenKind::Plus)
    } else if c == '-' {
        Some(TokenKind::Minus)
    } else if c == '*' {
        Some(TokenKind::Asterisk)
    } else if c == '/' {
        Some(TokenKind::Slash)
    } else if c == '^' {
        Some(TokenKind::Caret)
    } else if c == '|' {
        Some(TokenKind::Pipe)
    } else if c == '&' {
        Some(TokenKind::Ampersand)
    } else if c == '!' {
        Some(TokenKind::ExclamationMark)
    } else if c == '~' {
        Some(TokenKind::Tilde)
    } else if c == '=' {
        Some(TokenKind::Equal)
    } else {
        None
    }
}

/// Whether the characters of `spelling` are those of `keyword`.
fn spells(spelling: &String, keyword: &str) -> (r: bool)
    ensures
        r == (spelling@ == keyword@),
{
    let other = String::from_str(keyword);
    *spelling == other
}

fn word_of(spelling: String) -> (kind: TokenKind)
    ensures
        kind@ == word(spelling@),
{
    if spells(&spelling, "normalize") {
        TokenKind::NormalizeKeyword
    } else if spells(&spelling, "magnitude") {
        TokenKind::MagnitudeKeyword
    } else if spells(&spelling, "sin") {
        TokenKind::SinKeyword
    } else if spells(&spelling, "cos") {
        TokenKind::CosKeyword
    } else if spells(&spelling, "asin") {
        TokenKind::ASinKeyword
    } else if spells(&spelling, "acos") {
        TokenKind::ACosKeyword
    } else {
        TokenKind::Name(spelling)
    }
}

/// Whether the characters from `from` up to `to` write a number.
fn writes_number(source: &Vec<char>, from: usize, to: usize) -> (r: bool)
    requires
        from < to <= source.len(),
    ensures
        r == is_number(source@.subrange(from as int, to as int)),
{
    let ghost literal = source@.subrange(from as int, to as int);
    if !(source[from] >= '0' && source[from] <= '9') {
        assert(literal[0] == source@[from as int]);
        return false;
    }
    let mut points: usize = 0;
    let mut i: usize = from;
    while i < to
        invariant
            from <= i <= to <= source.len(),
            literal == source@.subrange(from as int, to as int),
            points == count_points(literal, i - from),
            points <= 1,
            forall|k: int| 0 <= k < i - from ==> is_digit(#[trigger] literal[k]) || literal[k] == '.',
        decreases to - i,
    {
        let c = source[i];
        assert(literal[i - from] == c);
        if c == '.' {
            if points == 1 {
                proof {
                    lemma_count_points_grows(literal, i - from + 1, literal.len() as int);
                }
                return false;
            }
            points = points + 1;
        } else if !(c >= '0' && c <= '9') {
            return false;
        }
        i += 1;
    }
    true
}

/// The count of full stops does not fall as more characters are counted.
pub proof fn lemma_count_points_grows(literal: Seq<char>, fewer: int, more: int)
    requires
        0 <= fewer <= more <= literal.len(),
    ensures
        count_points(literal, fewer) <= count_points(literal, more),
    decreases more - fewer,
{
    if fewer < more {
        lemma_count_points_grows(literal, fewer, more - 1);
    }
}

/// Moves the cursor over the run of name characters under it.
fn skip_name(source: &Vec<char>, cursor: &mut Cursor)
    requires
        old(cursor).wf(source@),
    ensures
        final(cursor).wf(source@),
        final(cursor).index == name_end(source@, old(cursor).index as int),
{
    loop
        invariant
            cursor.wf(source@),
            name_end(source@, cursor.index as int) == name_end(source@, old(cursor).index as int),
        ensures
            cursor.wf(source@),
            cursor.index == name_end(source@, old(cursor).index as int),
        decreases source.len() - cursor.index,
    {
        match peek_char(source, cursor) {
            Some(c) => {
                if char_is_alphabetic(c) || char_is_numeric(c) || c == '_' {
                    next_char(source, cursor);
                } else {
                    break ;
                }
            },
            None => {
                break ;
            },
        }
    }
}

/// Moves the cursor over the run of number characters under it.
fn skip_number(source: &Vec<char>, cursor: &mut Cursor)
    requires
        old(cursor).wf(source@),
    ensures
        final(cursor).wf(source@),
        final(cursor).index == number_end(source@, old(cursor).index as int),
{
    loop
        invariant
            cursor.wf(source@),
            number_end(source@, cursor.index as int) == number_end(
                source@,
                old(cursor).index as int,
            ),
        ensures
            cursor.wf(source@),
            cursor.index == number_end(source@, old(cursor).index as int),
        decreases source.len() - cursor.index,
    {
        match peek_char(source, cursor) {
            Some(c) => {
                if char_is_numeric(c) || c == '.' {
                    next_char(source, cursor);
                } else {
                    break ;
                }
            },
            None => {
                break ;
            },
        }
    }
}

/// Reads the next token from the cursor on.
fn scan_token(source: &Vec<char>, cursor: &mut Cursor) -> (r: Result<Option<Token>, LexerError>)
    requires
        old(cursor).wf(source@),
    ensures
        final(cursor).wf(source@),
        scanned(r) == scan(source@, old(cursor).index as int).result,
        final(cursor).index == scan(source@, old(cursor).index as int).next,
{
    loop
        invariant
            cursor.wf(source@),
            scan(source@, cursor.index as int) == scan(source@, old(cursor).index as int),
        decreases source.len() - cursor.index,
    {
        let start = *cursor;
        let c = match next_char(source, cursor) {
            Some(c) => c,
            None => {
                return Ok(None);
            },
        };
        match symbol_of(c) {
            Some(kind) => {
                return Ok(Some(Token { location: start.location, kind }));
            },
            None => {},
        }
        if char_is_alphabetic(c) || c == '_' {
            skip_name(source, cursor);
            proof {
                lemma_name_end_bounds(source@, start.index + 1);
            }
            let spelling = string_of(source, start.index, cursor.index);
            return Ok(Some(Token { location: start.location, kind: word_of(spelling) }));
        }
        if char_is_numeric(c) {
            skip_number(source, cursor);
            proof {
                lemma_number_end_bounds(source@, start.index + 1);
            }
            if writes_number(source, start.index, cursor.index) {
                let literal = string_of(source, start.index, cursor.index);
                return Ok(Some(Token { location: start.location, kind: TokenKind::Number(literal) }));
            } else {
                return Err(
                    LexerError { location: start.location, kind: LexerErrorKind::InvalidNumber },
                );
            }
        }
        if !char_is_whitespace(c) {
            return Err(
                LexerError { location: start.location, kind: LexerErrorKind::UnexpectedChar(c) },
            );
        }
    }
}

/// A lexer over one source text. It gives the tokens of the text in turn.
pub struct Lexer {
    source: Vec<char>,
    cursor: Cursor,
}

impl Lexer {
    #[verifier::type_invariant]
    spec fn wf(&self) -> bool {
        self.cursor.wf(self.source@)
    }

    /// The text that the lexer reads.
    pub closed spec fn source(&self) -> Seq<char> {
        self.source@
    }

    /// The index of the first character that the lexer has not passed yet.
    pub closed spec fn index(&self) -> int {
        self.cursor.index as int
    }

    /// A lexer at the start of `source`.
    pub fn new(source: &str) -> (lexer: Lexer)
        ensures
            lexer.source() == source@,
            lexer.index() == 0,
    {
        Lexer {
            source: chars_of(source),
            cursor: Cursor { index: 0, location: Location { position: 0, line: 1, column: 1 } },
        }
    }

    /// The place of the first character that the lexer has not passed yet.
    pub fn location(&self) -> (location: Location)
        ensures
            location == Location::at(self.source(), self.index()),
            0 <= self.index() <= self.source().len(),
    {
        proof {
            use_type_invariant(self);
        }
        self.cursor.location
    }

    /// Reads the next token and moves behind it. At the end of the text it
    /// gives `None`. After an error the lexer stands behind what it refused.
    pub fn next_token(&mut self) -> (r: Result<Option<Token>, LexerError>)
        ensures
            final(self).source() == old(self).source(),
            0 <= old(self).index() <= old(self).source().len(),
            scanned(r) == scan(old(self).source(), old(self).index()).result,
            final(self).index() == scan(old(self).source(), old(self).index()).next,
    {
        proof {
            use_type_invariant(&*self);
        }
        let mut cursor = self.cursor;
        let r = scan_token(&self.source, &mut cursor);
        self.cursor = cursor;
        r
    }

    /// Reads the next token and stays where it is.
    pub fn peek_token(&self) -> (r: Result<Option<Token>, LexerError>)
        ensures
            0 <= self.index() <= self.source().len(),
            scanned(r) == scan(self.source(), self.index()).result,
    {
        proof {
            use_type_invariant(self);
        }
        let mut cursor = self.cursor;
        scan_token(&self.source, &mut cursor)
    }
}

} // verus!
