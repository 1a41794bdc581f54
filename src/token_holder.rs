use crate::lexer::token_views;
use crate::token::{Token, TokenKind, TokenView};
use vstd::prelude::*;

verus! {

/// The token at `p`, or an unlocated `EOI` past the end.
pub open spec fn tok_at(t: Seq<TokenView>, p: int) -> TokenView {
    if 0 <= p < t.len() {
        t[p]
    } else {
        TokenView { kind: TokenKind::EOI, row: 0, column: 0, lexeme: Seq::empty() }
    }
}

pub open spec fn kind_at(t: Seq<TokenView>, p: int) -> TokenKind {
    tok_at(t, p).kind
}

/// A cursor over a token stream with one token of lookahead.
pub struct TokenHolder {
    tokens: Vec<Token>,
    index: usize,
}

impl TokenHolder {
    pub closed spec fn tokens_view(&self) -> Seq<TokenView> {
        token_views(self.tokens@)
    }

    pub closed spec fn position(&self) -> int {
        self.index as int
    }

    pub open spec fn wf(&self) -> bool {
        &&& 0 <= self.position() <= self.tokens_view().len()
        &&& self.tokens_view().len() < usize::MAX
    }

    pub fn new(tokens: Vec<Token>) -> (r: TokenHolder)
        requires
            tokens@.len() < usize::MAX,
        ensures
            r.tokens_view() == token_views(tokens@),
            r.position() == 0,
            r.wf(),
    {
        TokenHolder { tokens, index: 0 }
    }

    /// The current token; an unlocated `EOI` past the end.
    pub fn current(&self) -> (r: Token)
        requires
            self.wf(),
        ensures
            r@ == tok_at(self.tokens_view(), self.position()),
    {
        if self.index < self.tokens.len() {
            self.tokens[self.index].clone_token()
        } else {
            let t = Token::un_located(TokenKind::EOI, "");
            proof {
                reveal_strlit("");
                assert(t@.lexeme =~= Seq::<char>::empty());
            }
            t
        }
    }

    /// Whether the cursor stands on `EOI`.
    pub fn empty(&self) -> (r: bool)
        requires
            self.wf(),
        ensures
            r == (kind_at(self.tokens_view(), self.position()) == TokenKind::EOI),
    {
        let t = self.current();
        t.kind() == TokenKind::EOI
    }

    /// The token just before the cursor.
    pub fn previous(&self) -> (r: Token)
        requires
            self.wf(),
            1 <= self.position(),
        ensures
            r@ == self.tokens_view()[self.position() - 1],
    {
        self.tokens[self.index - 1].clone_token()
    }

    /// Moves the cursor back by one token.
    pub fn rewind(&mut self)
        requires
            old(self).wf(),
            1 <= old(self).position(),
        ensures
            final(self).wf(),
            final(self).tokens_view() == old(self).tokens_view(),
            final(self).position() == old(self).position() - 1,
    {
        self.index = self.index - 1;
    }

    /// The current token if it has kind `kind`; the cursor stays.
    pub fn expect(&self, kind: TokenKind) -> (r: Option<Token>)
        requires
            self.wf(),
        ensures
            r is Some <==> kind_at(self.tokens_view(), self.position()) == kind,
            r matches Some(t) ==> t@ == tok_at(self.tokens_view(), self.position()),
    {
        let t = self.current();
        if t.kind() == kind {
            Some(t)
        } else {
            None
        }
    }

    /// Like `expect`, and moves past the token when it matches.
    pub fn t_match(&mut self, kind: TokenKind) -> (r: Option<Token>)
        requires
            old(self).wf(),
        ensures
            kind != TokenKind::EOI ==> final(self).wf(),
            final(self).tokens_view() == old(self).tokens_view(),
            r is Some <==> kind_at(old(self).tokens_view(), old(self).position()) == kind,
            r matches Some(t) ==> t@ == tok_at(old(self).tokens_view(), old(self).position()),
            r is Some ==> final(self).position() == old(self).position() + 1,
            r is None ==> final(self).position() == old(self).position(),
    {
        let t = self.expect(kind);
        if t.is_some() {
            self.index = self.index + 1;
        }
        t
    }

    /// The current token; the cursor moves past it unless it is at the end.
    pub fn next(&mut self) -> (r: Token)
        requires
            old(self).wf(),
        ensures
            final(self).wf(),
            final(self).tokens_view() == old(self).tokens_view(),
            r@ == tok_at(old(self).tokens_view(), old(self).position()),
            final(self).position() == if old(self).position() < old(self).tokens_view().len() {
                old(self).position() + 1
            } else {
                old(self).position()
            },
    {
        let t = self.current();
        if self.index < self.tokens.len() {
            self.index = self.index + 1;
        }
        t
    }
}

} // verus!
