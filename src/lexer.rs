use crate::token::{eoi_view, Location, Token, TokenKind, TokenView};
use vstd::prelude::*;
use vstd::string::*;

verus! {

/// Number of entries in the lex table.
pub const LEX_TABLE_LEN: usize = 29;

/// The literal text of entry `k` of the lex table. Keywords come first, and a
/// multi-character operator comes before any single-character prefix of it.
pub open spec fn lex_literal(k: int) -> Seq<char> {
    if k == 0 {
        seq!['w', 'h', 'i', 'l', 'e']
    } else if k == 1 {
        seq!['t', 'r', 'u', 'e']
    } else if k == 2 {
        seq!['f', 'a', 'l', 's', 'e']
    } else if k == 3 {
        seq!['b', 'o', 'o', 'l']
    } else if k == 4 {
        seq!['l', 'i', 's', 't']
    } else if k == 5 {
        seq!['e', 'l', 's', 'e']
    } else if k == 6 {
        seq!['r', 'e', 't', 'u', 'r', 'n']
    } else if k == 7 {
        seq!['i', 'n', 't']
    } else if k == 8 {
        seq!['l', 'e', 't']
    } else if k == 9 {
        seq!['f', 'n']
    } else if k == 10 {
        seq!['i', 'f']
    } else if k == 11 {
        seq!['=', '=']
    } else if k == 12 {
        seq!['|', '|']
    } else if k == 13 {
        seq!['&', '&']
    } else if k == 14 {
        seq!['-', '>']
    } else if k == 15 {
        seq!['{']
    } else if k == 16 {
        seq!['}']
    } else if k == 17 {
        seq![';']
    } else if k == 18 {
        seq!['=']
    } else if k == 19 {
        seq![':']
    } else if k == 20 {
        seq!['(']
    } else if k == 21 {
        seq![')']
    } else if k == 22 {
        seq!['+']
    } else if k == 23 {
        seq!['>']
    } else if k == 24 {
        seq!['-']
    } else if k == 25 {
        seq!['[']
    } else if k == 26 {
        seq![']']
    } else if k == 27 {
        seq![',']
    } else if k == 28 {
        seq!['!']
    } else {
        seq!['!']
    }
}

/// The token kind of entry `k` of the lex table.
pub open spec fn lex_kind(k: int) -> TokenKind {
    if k == 0 {
        TokenKind::While
    } else if k == 1 {
        TokenKind::True
    } else if k == 2 {
        TokenKind::False
    } else if k == 3 {
        TokenKind::BoolType
    } else if k == 4 {
        TokenKind::ListType
    } else if k == 5 {
        TokenKind::Else
    } else if k == 6 {
        TokenKind::Return
    } else if k == 7 {
        TokenKind::IntType
    } else if k == 8 {
        TokenKind::Let
    } else if k == 9 {
        TokenKind::Fn
    } else if k == 10 {
        TokenKind::If
    } else if k == 11 {
        TokenKind::EqualsEquals
    } else if k == 12 {
        TokenKind::PipePipe
    } else if k == 13 {
        TokenKind::AndAnd
    } else if k == 14 {
        TokenKind::Arrow
    } else if k == 15 {
        TokenKind::LCurlyBrace
    } else if k == 16 {
        TokenKind::RCurlyBrace
    } else if k == 17 {
        TokenKind::Semicolon
    } else if k == 18 {
        TokenKind::Equals
    } else if k == 19 {
        TokenKind::Colon
    } else if k == 20 {
        TokenKind::LParen
    } else if k == 21 {
        TokenKind::RParen
    } else if k == 22 {
        TokenKind::Plus
    } else if k == 23 {
        TokenKind::RAngleBracket
    } else if k == 24 {
        TokenKind::Minus
    } else if k == 25 {
        TokenKind::LBracket
    } else if k == 26 {
        TokenKind::RBracket
    } else if k == 27 {
        TokenKind::Comma
    } else if k == 28 {
        TokenKind::Bang
    } else {
        TokenKind::Bang
    }
}

/// Entry `k` of the lex table.
fn table_entry(k: usize) -> (r: (&'static str, TokenKind))
    requires
        k < LEX_TABLE_LEN,
    ensures
        r.0@ == lex_literal(k as int),
        r.1 == lex_kind(k as int),
{
    match k {
        0 => {
            proof {
                reveal_strlit("while");
            }
            ("while", TokenKind::While)
        },
        1 => {
            proof {
                reveal_strlit("true");
            }
            ("true", TokenKind::True)
        },
        2 => {
            proof {
                reveal_strlit("false");
            }
            ("false", TokenKind::False)
        },
        3 => {
            proof {
                reveal_strlit("bool");
            }
            ("bool", TokenKind::BoolType)
        },
        4 => {
            proof {
                reveal_strlit("list");
            }
            ("list", TokenKind::ListType)
        },
        5 => {
            proof {
                reveal_strlit("else");
            }
            ("else", TokenKind::Else)
        },
        6 => {
            proof {
                reveal_strlit("return");
            }
            ("return", TokenKind::Return)
        },
        7 => {
            proof {
                reveal_strlit("int");
            }
            ("int", TokenKind::IntType)
        },
        8 => {
            proof {
                reveal_strlit("let");
            }
            ("let", TokenKind::Let)
        },
        9 => {
            proof {
                reveal_strlit("fn");
            }
            ("fn", TokenKind::Fn)
        },
        10 => {
            proof {
                reveal_strlit("if");
            }
            ("if", TokenKind::If)
        },
        11 => {
            proof {
                reveal_strlit("==");
            }
            ("==", TokenKind::EqualsEquals)
        },
        12 => {
            proof {
                reveal_strlit("||");
            }
            ("||", TokenKind::PipePipe)
        },
        13 => {
            proof {
                reveal_strlit("&&");
            }
            ("&&", TokenKind::AndAnd)
        },
        14 => {
            proof {
                reveal_strlit("->");
            }
            ("->", TokenKind::Arrow)
        },
        15 => {
            proof {
                reveal_strlit("{");
            }
            ("{", TokenKind::LCurlyBrace)
        },
        16 => {
            proof {
                reveal_strlit("}");
            }
            ("}", TokenKind::RCurlyBrace)
        },
        17 => {
            proof {
                reveal_strlit(";");
            }
            (";", TokenKind::Semicolon)
        },
        18 => {
            proof {
                reveal_strlit("=");
            }
            ("=", TokenKind::Equals)
        },
        19 => {
            proof {
                reveal_strlit(":");
            }
            (":", TokenKind::Colon)
        },
        20 => {
            proof {
                reveal_strlit("(");
            }
            ("(", TokenKind::LParen)
        },
        21 => {
            proof {
                reveal_strlit(")");
            }
            (")", TokenKind::RParen)
        },
        22 => {
            proof {
                reveal_strlit("+");
            }
            ("+", TokenKind::Plus)
        },
        23 => {
            proof {
                reveal_strlit(">");
            }
            (">", TokenKind::RAngleBracket)
        },
        24 => {
            proof {
                reveal_strlit("-");
            }
            ("-", TokenKind::Minus)
        },
        25 => {
            proof {
                reveal_strlit("[");
            }
            ("[", TokenKind::LBracket)
        },
        26 => {
            proof {
                reveal_strlit("]");
            }
            ("]", TokenKind::RBracket)
        },
        27 => {
            proof {
                reveal_strlit(",");
            }
            (",", TokenKind::Comma)
        },
        _ => {
            proof {
                reveal_strlit("!");
            }
            ("!", TokenKind::Bang)
        },
    }
}

/// Whether `lit` occurs in `text` at position `i`.
pub open spec fn starts_at(text: Seq<char>, i: int, lit: Seq<char>) -> bool {
    0 <= i && i + lit.len() <= text.len() && text.subrange(i, i + lit.len()) == lit
}

/// The first entry, from `k` on, of the lex table whose literal occurs at `i`.
pub open spec fn table_match(text: Seq<char>, i: int, k: int) -> Option<int>
    decreases LEX_TABLE_LEN - k,
{
    if k < 0 || k >= LEX_TABLE_LEN {
        None
    } else if starts_at(text, i, lex_literal(k)) {
        Some(k)
    } else {
        table_match(text, i, k + 1)
    }
}

pub open spec fn is_digit(c: char) -> bool {
    '0' <= c && c <= '9'
}

pub open spec fn is_ascii_char(c: char) -> bool {
    (c as u32) < 128
}

pub open spec fn is_ascii_letter(c: char) -> bool {
    ('a' <= c && c <= 'z') || ('A' <= c && c <= 'Z')
}

/// What `char::is_alphabetic` returns on `c` (the Unicode `Alphabetic` property).
pub uninterp spec fn is_alphabetic_char(c: char) -> bool;

/// What `char::is_alphanumeric` returns on `c` (Unicode `Alphabetic` or `Numeric`).
pub uninterp spec fn is_alphanumeric_char(c: char) -> bool;

/// Relies on `char::is_alphabetic`, which depends on `c` alone; among ASCII
/// characters exactly the letters have the `Alphabetic` property.
#[verifier::external_body]
fn alphabetic(c: char) -> (r: bool)
    ensures
        r == is_alphabetic_char(c),
        is_ascii_char(c) ==> (r == is_ascii_letter(c)),
{
    c.is_alphabetic()
}

/// Relies on `char::is_alphanumeric` (alphabetic or numeric), which depends on `c`
/// alone; among ASCII characters exactly the letters and the digits qualify.
#[verifier::external_body]
fn alphanumeric(c: char) -> (r: bool)
    ensures
        r == is_alphanumeric_char(c),
        is_ascii_char(c) ==> (r == (is_ascii_letter(c) || is_digit(c))),
{
    c.is_alphanumeric()
}

/// A character that may start a name: `_` or an alphabetic character.
pub open spec fn is_name_start(c: char) -> bool {
    c == '_' || if is_ascii_char(c) {
        is_ascii_letter(c)
    } else {
        is_alphabetic_char(c)
    }
}

/// A character that may continue a name: `_` or an alphanumeric character.
pub open spec fn is_name_char(c: char) -> bool {
    c == '_' || if is_ascii_char(c) {
        is_ascii_letter(c) || is_digit(c)
    } else {
        is_alphanumeric_char(c)
    }
}

/// Length of the maximal run of ASCII digits starting at `i`.
pub open spec fn digit_run(text: Seq<char>, i: int) -> int
    decreases text.len() - i,
{
    if 0 <= i < text.len() && is_digit(text[i]) {
        1 + digit_run(text, i + 1)
    } else {
        0
    }
}

/// Length of the maximal run of name characters starting at `i`.
pub open spec fn name_run(text: Seq<char>, i: int) -> int
    decreases text.len() - i,
{
    if 0 <= i < text.len() && is_name_char(text[i]) {
        1 + name_run(text, i + 1)
    } else {
        0
    }
}

pub open spec fn token_at(kind: TokenKind, row: int, column: int, lexeme: Seq<char>) -> TokenView {
    TokenView { kind, row, column, lexeme }
}

/// The tokens of `text` from index `i` on, when the cursor stands at `(row, column)`.
pub open spec fn lex_from(text: Seq<char>, i: int, row: int, column: int) -> Seq<TokenView>
    decreases text.len() - i,
{
    if i < 0 || i >= text.len() {
        seq![eoi_view(row, column + 1)]
    } else {
        proof {
            lemma_table_match_bounds(text, i, 0);
            lemma_digit_run_bounds(text, i);
            lemma_name_run_bounds(text, i + 1);
        }
        match table_match(text, i, 0) {
            Some(k) => {
                proof {
                    lemma_lex_literal_nonempty(k);
                }
                let lit = lex_literal(k);
                seq![token_at(lex_kind(k), row, column, lit)] + lex_from(
                    text,
                    i + lit.len(),
                    row,
                    column + lit.len(),
                )
            },
            None => {
                let d = digit_run(text, i);
                if d > 0 {
                    seq![token_at(TokenKind::Int, row, column, text.subrange(i, i + d))]
                        + lex_from(text, i + d, row, column + d)
                } else if is_name_start(text[i]) {
                    let n = 1 + name_run(text, i + 1);
                    seq![token_at(TokenKind::Name, row, column, text.subrange(i, i + n))]
                        + lex_from(text, i + n, row, column + n)
                } else if text[i] == '\n' {
                    lex_from(text, i + 1, row + 1, 1)
                } else {
                    lex_from(text, i + 1, row, column + 1)
                }
            },
        }
    }
}

/// The tokens of a whole text: a lex from its first character at (1, 1).
pub open spec fn lex_spec(text: Seq<char>) -> Seq<TokenView> {
    lex_from(text, 0, 1, 1)
}

pub open spec fn token_views(tokens: Seq<Token>) -> Seq<TokenView> {
    tokens.map_values(|t: Token| t@)
}

/// Turns source text into located tokens.
pub struct Lexer {
    text: String,
    chars: Vec<char>,
    index: usize,
    tokens: Vec<Token>,
    row: usize,
    column: usize,
}

pub proof fn lemma_lex_literal_nonempty(k: int)
    requires
        0 <= k < LEX_TABLE_LEN,
    ensures
        1 <= lex_literal(k).len() <= 6,
{
}

pub proof fn lemma_table_match_bounds(text: Seq<char>, i: int, k: int)
    ensures
        table_match(text, i, k) matches Some(m) ==> (0 <= m < LEX_TABLE_LEN && starts_at(
            text,
            i,
            lex_literal(m),
        )),
    decreases LEX_TABLE_LEN - k,
{
    if 0 <= k < LEX_TABLE_LEN && !starts_at(text, i, lex_literal(k)) {
        lemma_table_match_bounds(text, i, k + 1);
    }
}

pub proof fn lemma_digit_run_bounds(text: Seq<char>, i: int)
    requires
        0 <= i <= text.len(),
    ensures
        0 <= digit_run(text, i) <= text.len() - i,
        forall|j: int| i <= j < i + digit_run(text, i) ==> is_digit(#[trigger] text[j]),
        i + digit_run(text, i) < text.len() ==> !is_digit(text[i + digit_run(text, i)]),
    decreases text.len() - i,
{
    if i < text.len() && is_digit(text[i]) {
        lemma_digit_run_bounds(text, i + 1);
    }
}

pub proof fn lemma_name_run_bounds(text: Seq<char>, i: int)
    requires
        0 <= i <= text.len(),
    ensures
        0 <= name_run(text, i) <= text.len() - i,
        forall|j: int| i <= j < i + name_run(text, i) ==> is_name_char(#[trigger] text[j]),
        i + name_run(text, i) < text.len() ==> !is_name_char(text[i + name_run(text, i)]),
    decreases text.len() - i,
{
    if i < text.len() && is_name_char(text[i]) {
        lemma_name_run_bounds(text, i + 1);
    }
}

/// Whether `lit` occurs in `text` at `i`.
fn occurs_at(text: &Vec<char>, i: usize, lit: &str) -> (r: bool)
    requires
        i <= text@.len(),
    ensures
        r == starts_at(text@, i as int, lit@),
{
    let n = lit.unicode_len();
    if n > text.len() - i {
        return false;
    }
    let mut j: usize = 0;
    while j < n
        invariant
            n == lit@.len(),
            i + n <= text@.len(),
            text@.len() <= usize::MAX,
            j <= n,
            forall|m: int| 0 <= m < j ==> text@[i + m] == lit@[m],
        decreases n - j,
    {
        if text[i + j] != lit.get_char(j) {
            assert(text@.subrange(i as int, i + n)[j as int] != lit@[j as int]);
            return false;
        }
        j = j + 1;
    }
    assert(text@.subrange(i as int, i + n) =~= lit@);
    true
}

/// The first entry of the lex table whose literal occurs at `i`.
fn match_table(text: &Vec<char>, i: usize) -> (r: Option<usize>)
    requires
        i <= text@.len(),
    ensures
        r matches Some(k) ==> table_match(text@, i as int, 0) == Some(k as int),
        r is None ==> table_match(text@, i as int, 0) is None,
{
    let mut k: usize = 0;
    while k < LEX_TABLE_LEN
        invariant
            k <= LEX_TABLE_LEN,
            i <= text@.len(),
            table_match(text@, i as int, 0) == table_match(text@, i as int, k as int),
        decreases LEX_TABLE_LEN - k,
    {
        let (lit, _kind) = table_entry(k);
        if occurs_at(text, i, lit) {
            return Some(k);
        }
        k = k + 1;
    }
    None
}

/// The characters of `s`, in order.
fn chars_of(s: &str) -> (r: Vec<char>)
    ensures
        r@ == s@,
{
    let n = s.unicode_len();
    let mut r: Vec<char> = Vec::new();
    let mut i: usize = 0;
    while i < n
        invariant
            n == s@.len(),
            i <= n,
            r@ == s@.subrange(0, i as int),
        decreases n - i,
    {
        r.push(s.get_char(i));
        i = i + 1;
    }
    assert(r@ =~= s@);
    r
}

impl Lexer {
    /// The text this lexer reads.
    pub closed spec fn text_view(&self) -> Seq<char> {
        self.text@
    }

    pub fn new(text: &str) -> (r: Self)
        requires
            text@.len() <= isize::MAX,
        ensures
            r.text_view() == text@,
            r.fresh(),
    {
        Self {
            text: text.to_owned(),
            chars: chars_of(text),
            index: 0,
            tokens: Vec::new(),
            row: 1,
            column: 1,
        }
    }

    /// The lexer has not yet consumed anything.
    pub closed spec fn fresh(&self) -> bool {
        &&& self.chars@ == self.text@
        &&& self.text@.len() <= isize::MAX
        &&& self.index == 0
        &&& self.tokens@.len() == 0
        &&& self.row == 1
        &&& self.column == 1
    }

    spec fn inv(&self) -> bool {
        &&& self.chars@ == self.text@
        &&& self.text@.len() <= isize::MAX
        &&& self.index <= self.chars@.len()
        &&& 1 <= self.row <= self.index + 1
        &&& 1 <= self.column <= self.index + 1
        &&& self.tokens@.len() <= self.index
        &&& token_views(self.tokens@) + lex_from(
            self.chars@,
            self.index as int,
            self.row as int,
            self.column as int,
        ) == lex_spec(self.chars@)
    }

    /// The maximal run of ASCII digits at the cursor, if it is not empty.
    fn take_digits(&self) -> (r: Option<usize>)
        requires
            self.inv(),
            self.index < self.chars@.len(),
        ensures
            r matches Some(d) ==> d > 0 && d == digit_run(self.chars@, self.index as int),
            r is None ==> digit_run(self.chars@, self.index as int) == 0,
    {
        let ghost text = self.chars@;
        let mut j = self.index;
        proof {
            lemma_digit_run_bounds(text, self.index as int);
        }
        while j < self.chars.len() && '0' <= self.chars[j] && self.chars[j] <= '9'
            invariant
                self.index <= j <= text.len(),
                text == self.chars@,
                digit_run(text, self.index as int) == (j - self.index) + digit_run(text, j as int),
            decreases text.len() - j,
        {
            j = j + 1;
        }
        if j == self.index {
            None
        } else {
            Some(j - self.index)
        }
    }

    /// The name at the cursor: a `_` or alphabetic character, then a maximal run
    /// of `_` and alphanumeric characters. Gives its length.
    fn take_name(&self) -> (r: Option<usize>)
        requires
            self.inv(),
            self.index < self.chars@.len(),
        ensures
            r matches Some(n) ==> is_name_start(self.chars@[self.index as int]) && n == 1
                + name_run(self.chars@, self.index + 1),
            r is None ==> !is_name_start(self.chars@[self.index as int]),
    {
        let ghost text = self.chars@;
        let first = self.chars[self.index];
        if first != '_' && !alphabetic(first) {
            return None;
        }
        let mut j = self.index + 1;
        proof {
            lemma_name_run_bounds(text, self.index + 1);
        }
        while j < self.chars.len() && (self.chars[j] == '_' || alphanumeric(self.chars[j]))
            invariant
                self.index < j <= text.len(),
                text == self.chars@,
                name_run(text, self.index + 1) == (j - self.index - 1) + name_run(text, j as int),
            decreases text.len() - j,
        {
            j = j + 1;
        }
        Some(j - self.index)
    }

    /// Emits a token of `len` characters at the cursor and moves past it.
    fn accept_token(&mut self, kind: TokenKind, len: usize)
        requires
            old(self).chars@ == old(self).text@,
            old(self).text@.len() <= isize::MAX,
            old(self).index + len <= old(self).chars@.len(),
            len >= 1,
            1 <= old(self).column <= old(self).index + 1,
        ensures
            final(self).text == old(self).text,
            final(self).chars == old(self).chars,
            final(self).row == old(self).row,
            final(self).index == old(self).index + len,
            final(self).column == old(self).column + len,
            final(self).tokens@.len() == old(self).tokens@.len() + 1,
            token_views(final(self).tokens@) == token_views(old(self).tokens@) + seq![
                token_at(
                    kind,
                    old(self).row as int,
                    old(self).column as int,
                    old(self).chars@.subrange(old(self).index as int, old(self).index + len),
                ),
            ],
    {
        let start_column = self.column;
        let start = self.index;
        let lexeme = self.text.as_str().substring_char(start, start + len);
        let token = Token::new(kind, Location::new(self.row, start_column), lexeme);
        self.column = self.column + len;
        self.index = self.index + len;
        self.tokens.push(token);
        proof {
            assert(token_views(self.tokens@) =~= token_views(old(self).tokens@) + seq![token@]);
        }
    }

    fn run_lexer(&mut self)
        requires
            old(self).fresh(),
        ensures
            token_views(final(self).tokens@) == lex_spec(old(self).text_view()),
            final(self).tokens@.len() <= old(self).text_view().len() + 1,
    {
        proof {
            assert(token_views(self.tokens@) =~= Seq::<TokenView>::empty());
            assert(token_views(self.tokens@) + lex_from(self.chars@, 0, 1, 1) =~= lex_spec(
                self.chars@,
            ));
        }
        while self.index < self.chars.len()
            invariant
                self.inv(),
                self.text == old(self).text,
            decreases self.chars@.len() - self.index,
        {
            let ghost text = self.chars@;
            let ghost before = token_views(self.tokens@);
            let ghost (i, row, column) = (self.index as int, self.row as int, self.column as int);
            let m = match_table(&self.chars, self.index);
            if let Some(k) = m {
                proof {
                    lemma_table_match_bounds(text, i, 0);
                    lemma_lex_literal_nonempty(k as int);
                }
                let (lit, kind) = table_entry(k);
                let len = lit.unicode_len();
                self.accept_token(kind, len);
                proof {
                    assert(text.subrange(i, i + len) == lex_literal(k as int));
                    assert(before + lex_from(text, i, row, column) == before + (seq![
                        token_at(kind, row, column, lex_literal(k as int)),
                    ] + lex_from(text, i + len, row, column + len)));
                    assert(token_views(self.tokens@) + lex_from(text, i + len, row, column + len)
                        =~= before + (seq![token_at(kind, row, column, lex_literal(k as int))]
                        + lex_from(text, i + len, row, column + len)));
                }
            } else if let Some(d) = self.take_digits() {
                proof {
                    lemma_digit_run_bounds(text, i);
                }
                self.accept_token(TokenKind::Int, d);
                proof {
                    assert(token_views(self.tokens@) + lex_from(text, i + d, row, column + d)
                        =~= before + (seq![
                        token_at(TokenKind::Int, row, column, text.subrange(i, i + d)),
                    ] + lex_from(text, i + d, row, column + d)));
                }
            } else if let Some(n) = self.take_name() {
                proof {
                    lemma_name_run_bounds(text, i + 1);
                }
                self.accept_token(TokenKind::Name, n);
                proof {
                    assert(token_views(self.tokens@) + lex_from(text, i + n, row, column + n)
                        =~= before + (seq![
                        token_at(TokenKind::Name, row, column, text.subrange(i, i + n)),
                    ] + lex_from(text, i + n, row, column + n)));
                }
            } else {
                if self.chars[self.index] == '\n' {
                    self.row = self.row + 1;
                    self.column = 1;
                } else {
                    self.column = self.column + 1;
                }
                self.index = self.index + 1;
            }
        }
        let eoi = Token::new(TokenKind::EOI, Location::new(self.row, self.column + 1), "");
        proof {
            reveal_strlit("");
            assert(eoi@.lexeme =~= Seq::<char>::empty());
            assert(eoi@ == eoi_view(self.row as int, self.column + 1));
        }
        let ghost before = token_views(self.tokens@);
        self.tokens.push(eoi);
        proof {
            assert(token_views(self.tokens@) =~= before + seq![eoi@]);
        }
    }

    /// Runs the lexer over the whole text: the tokens, ending in one `EOI`.
    pub fn lex(self) -> (r: Vec<Token>)
        requires
            self.fresh(),
        ensures
            token_views(r@) == lex_spec(self.text_view()),
            r@.len() <= self.text_view().len() + 1,
    {
        let mut s = self;
        s.run_lexer();
        s.tokens
    }
}

} // verus!
