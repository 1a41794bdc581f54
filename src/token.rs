use vstd::prelude::*;

verus! {

/// The closed set of token tags produced by the lexer.
#[derive(Debug, Clone, Copy, PartialEq, Eq, Structural, PartialOrd, Ord, Hash)]
pub enum TokenKind {
    LCurlyBrace,
    RCurlyBrace,
    Semicolon,
    Equals,
    While,
    Let,
    Colon,
    Fn,
    LParen,
    RParen,
    Arrow,
    If,
    Else,
    Return,
    Plus,
    EqualsEquals,
    RAngleBracket,
    Minus,
    PipePipe,
    AndAnd,
    Bang,
    LBracket,
    RBracket,
    Comma,
    IntType,
    BoolType,
    ListType,
    Name,
    Int,
    True,
    False,
    EOI,
}

/// A 1-based (row, column) position in the source text.
#[derive(Debug, Clone, Copy, PartialEq, Eq, Structural, PartialOrd, Ord, Hash)]
pub struct Location {
    row: usize,
    column: usize,
}

impl Location {
    pub closed spec fn spec_row(&self) -> usize {
        self.row
    }

    pub closed spec fn spec_column(&self) -> usize {
        self.column
    }

    pub fn new(row: usize, column: usize) -> (r: Self)
        ensures
            r.spec_row() == row,
            r.spec_column() == column,
    {
        Self { row, column }
    }

    pub fn row(&self) -> (r: usize)
        ensures
            r == self.spec_row(),
    {
        self.row
    }

    pub fn column(&self) -> (r: usize)
        ensures
            r == self.spec_column(),
    {
        self.column
    }
}

/// What a token is, mathematically: its kind, position and text.
pub struct TokenView {
    pub kind: TokenKind,
    pub row: int,
    pub column: int,
    pub lexeme: Seq<char>,
}

/// A kinded, located piece of source text.
#[derive(Debug, Clone, PartialEq, Eq, PartialOrd, Ord)]
pub struct Token {
    kind: TokenKind,
    location: Location,
    lexeme: String,
}

impl View for Token {
    type V = TokenView;

    closed spec fn view(&self) -> TokenView {
        TokenView {
            kind: self.kind,
            row: self.location.row as int,
            column: self.location.column as int,
            lexeme: self.lexeme@,
        }
    }
}

/// The view of the sentinel that ends every token stream, placed at `(row, column)`.
pub open spec fn eoi_view(row: int, column: int) -> TokenView {
    TokenView { kind: TokenKind::EOI, row, column, lexeme: Seq::empty() }
}

impl Token {
    pub fn kind(&self) -> (r: TokenKind)
        ensures
            r == self@.kind,
    {
        self.kind
    }

    pub fn location(&self) -> (r: Location)
        ensures
            r.spec_row() == self@.row,
            r.spec_column() == self@.column,
    {
        self.location
    }

    pub fn lexeme(&self) -> (r: &str)
        ensures
            r@ == self@.lexeme,
    {
        self.lexeme.as_str()
    }

    pub fn new(kind: TokenKind, location: Location, lexeme: &str) -> (r: Self)
        ensures
            r@ == (TokenView {
                kind,
                row: location.spec_row() as int,
                column: location.spec_column() as int,
                lexeme: lexeme@,
            }),
    {
        Self { kind, location, lexeme: lexeme.to_owned() }
    }

    /// A token at position (0, 0), for tokens that the compiler makes up.
    pub fn un_located(kind: TokenKind, lexeme: &str) -> (r: Self)
        ensures
            r@ == (TokenView { kind, row: 0, column: 0, lexeme: lexeme@ }),
    {
        Self { kind, location: Location::new(0, 0), lexeme: lexeme.to_owned() }
    }

    /// Whether two tokens have the same kind and text, wherever they stand.
    pub fn content_equal(&self, rhs: &Self) -> (r: bool)
        ensures
            r == (self@.kind == rhs@.kind && self@.lexeme == rhs@.lexeme),
    {
        self.kind == rhs.kind && self.lexeme == rhs.lexeme
    }

    pub fn clone_token(&self) -> (r: Self)
        ensures
            r@ == self@,
    {
        Token { kind: self.kind, location: self.location, lexeme: self.lexeme.clone() }
    }
}

} // verus!
