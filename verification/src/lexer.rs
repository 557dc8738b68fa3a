//! The lexer: turns the input character sequence into a finite stream of
//! spanned tokens, terminated by exactly one `Eof` token.
//!
//! Classification (first match wins): a digit starts a maximal digit run
//! lexed as a `Number`; a whitespace character is a one-character
//! `Whitespace` token; an alphabetic character or `_` starts a maximal
//! identifier run, with the reserved words `let` and `function` mapped to
//! their own kinds; recognised punctuation becomes the matching operator or
//! delimiter token; anything else becomes a single `Bad` token. The lexer
//! never fails: ill-formed input surfaces as `Bad` tokens for the parser to
//! reject.
//!
//! Numeric accumulation is wrapping: a run of digits too long for `i64`
//! wraps around, as documented by the arithmetic spec functions used below.

use crate::text::TextSpan;
use vstd::prelude::*;
use vstd::std_specs::iter::IteratorSpec;
use vstd::wrapping::i64_specs;

verus! {

/// What a token is, together with the parsed value for number literals.
#[derive(Debug, Clone, Copy, PartialEq, Eq, Structural)]
pub enum TokenKind {
    Number(i64),
    Plus,
    Minus,
    Asterisk,
    Slash,
    Equals,
    Let,
    OpenParen,
    CloseParen,
    Bad,
    Whitespace,
    Identifier,
    Function,
    Eof,
    Comma,
    OpenBrace,
    CloseBrace,
}

/// One token: its kind and the region of the input it was lexed from.
#[derive(Debug)]
pub struct Token {
    pub kind: TokenKind,
    pub span: TextSpan,
}

impl Token {
    pub fn new(kind: TokenKind, span: TextSpan) -> (r: Token)
        ensures
            r.kind == kind,
            r.span == span,
    {
        Token { kind, span }
    }

    /// A copy of this token, equal to the token it was made from.
    pub fn duplicate(&self) -> (r: Token)
        ensures
            r == *self,
    {
        Token {
            kind: self.kind,
            span: TextSpan {
                start: self.span.start,
                end: self.span.end,
                literal: self.span.literal.clone(),
            },
        }
    }
}

/// Whether `c` has the Unicode White_Space property.
pub uninterp spec fn is_unicode_whitespace(c: char) -> bool;

/// Whether `c` is in the Unicode Alphabetic class.
pub uninterp spec fn is_unicode_alphabetic(c: char) -> bool;

/// Whether `c` is an ASCII decimal digit.
pub open spec fn is_digit_char(c: char) -> bool {
    '0' <= c && c <= '9'
}

/// Whether `c` may appear in an identifier run.
pub open spec fn is_identifier_char(c: char) -> bool {
    is_unicode_alphabetic(c) || c == '_'
}

/// The numeric value of a digit character.
pub open spec fn digit_value(c: char) -> i64 {
    (c as int - '0' as int) as i64
}

/// The end of the maximal digit run beginning at `pos`.
pub open spec fn digit_run_end(s: Seq<char>, pos: int) -> int
    decreases s.len() - pos,
{
    if 0 <= pos < s.len() && is_digit_char(s[pos]) {
        digit_run_end(s, pos + 1)
    } else {
        pos
    }
}

/// The end of the maximal identifier run beginning at `pos`.
pub open spec fn ident_run_end(s: Seq<char>, pos: int) -> int
    decreases s.len() - pos,
{
    if 0 <= pos < s.len() && is_identifier_char(s[pos]) {
        ident_run_end(s, pos + 1)
    } else {
        pos
    }
}

/// The value a maximal digit run accumulates to, one digit at a time, with
/// wrapping `i64` arithmetic.
pub open spec fn number_value_from(s: Seq<char>, pos: int, end: int, acc: i64) -> i64
    decreases end - pos,
{
    if pos < end && 0 <= pos < s.len() {
        number_value_from(
            s,
            pos + 1,
            end,
            i64_specs::wrapping_add(i64_specs::wrapping_mul(acc, 10), digit_value(s[pos])),
        )
    } else {
        acc
    }
}

/// The value of the digit run `[pos, end)` of `s`.
pub open spec fn number_value(s: Seq<char>, pos: int, end: int) -> i64 {
    number_value_from(s, pos, end, 0)
}

/// The token kind a single recognised punctuation character lexes to;
/// unrecognised characters lex to `Bad`.
pub open spec fn punctuation_kind(c: char) -> TokenKind {
    if c == '+' {
        TokenKind::Plus
    } else if c == '-' {
        TokenKind::Minus
    } else if c == '*' {
        TokenKind::Asterisk
    } else if c == '/' {
        TokenKind::Slash
    } else if c == '=' {
        TokenKind::Equals
    } else if c == '(' {
        TokenKind::OpenParen
    } else if c == ')' {
        TokenKind::CloseParen
    } else if c == ',' {
        TokenKind::Comma
    } else if c == '{' {
        TokenKind::OpenBrace
    } else if c == '}' {
        TokenKind::CloseBrace
    } else {
        TokenKind::Bad
    }
}

/// The kind an identifier run lexes to: a reserved word, or `Identifier`.
pub open spec fn keyword_or_identifier(lit: Seq<char>) -> TokenKind {
    if lit == seq!['l', 'e', 't'] {
        TokenKind::Let
    } else if lit == seq!['f', 'u', 'n', 'c', 't', 'i', 'o', 'n'] {
        TokenKind::Function
    } else {
        TokenKind::Identifier
    }
}

/// Where the token beginning at `pos` ends (requires `0 <= pos < s.len()`).
pub open spec fn token_end_at(s: Seq<char>, pos: int) -> int {
    if is_digit_char(s[pos]) {
        digit_run_end(s, pos)
    } else if is_unicode_whitespace(s[pos]) {
        pos + 1
    } else if is_identifier_char(s[pos]) {
        ident_run_end(s, pos)
    } else {
        pos + 1
    }
}

/// The kind of the token beginning at `pos` (requires `0 <= pos < s.len()`).
pub open spec fn token_kind_at(s: Seq<char>, pos: int) -> TokenKind {
    if is_digit_char(s[pos]) {
        TokenKind::Number(number_value(s, pos, digit_run_end(s, pos)))
    } else if is_unicode_whitespace(s[pos]) {
        TokenKind::Whitespace
    } else if is_identifier_char(s[pos]) {
        keyword_or_identifier(s.subrange(pos, ident_run_end(s, pos)))
    } else {
        punctuation_kind(s[pos])
    }
}

/// The shape of a maximal digit run: it does not end before `pos`, covers
/// only digits, and is followed by a non-digit or the end of the input.
pub proof fn lemma_digit_run_end(s: Seq<char>, pos: int)
    requires
        0 <= pos <= s.len(),
    ensures
        pos <= digit_run_end(s, pos) <= s.len(),
        forall|i: int| pos <= i < digit_run_end(s, pos) ==> is_digit_char(s[i]),
        digit_run_end(s, pos) < s.len() ==> !is_digit_char(s[digit_run_end(s, pos)]),
        0 <= pos < s.len() && is_digit_char(s[pos]) ==> digit_run_end(s, pos) > pos,
    decreases s.len() - pos,
{
    if pos < s.len() && is_digit_char(s[pos]) {
        lemma_digit_run_end(s, pos + 1);
    }
}

/// The shape of a maximal identifier run, as for digit runs.
pub proof fn lemma_ident_run_end(s: Seq<char>, pos: int)
    requires
        0 <= pos <= s.len(),
    ensures
        pos <= ident_run_end(s, pos) <= s.len(),
        forall|i: int| pos <= i < ident_run_end(s, pos) ==> is_identifier_char(s[i]),
        ident_run_end(s, pos) < s.len() ==> !is_identifier_char(s[ident_run_end(s, pos)]),
        0 <= pos < s.len() && is_identifier_char(s[pos]) ==> ident_run_end(s, pos) > pos,
    decreases s.len() - pos,
{
    if pos < s.len() && is_identifier_char(s[pos]) {
        lemma_ident_run_end(s, pos + 1);
    }
}

/// Every token covers at least one character.
pub proof fn lemma_token_end_at(s: Seq<char>, pos: int)
    requires
        0 <= pos < s.len(),
    ensures
        pos < token_end_at(s, pos) <= s.len(),
{
    lemma_digit_run_end(s, pos);
    lemma_ident_run_end(s, pos);
}

/// Relies on char::is_alphabetic: whether the character is in the Unicode
/// Alphabetic class; the result depends on the character alone.
#[verifier::external_body]
fn char_is_alphabetic(c: &char) -> (r: bool)
    ensures
        r == is_unicode_alphabetic(*c),
{
    c.is_alphabetic()
}

/// Reads a string into the sequence of its characters.
fn chars_of(s: &str) -> (v: Vec<char>)
    ensures
        v@ == s@,
{
    broadcast use vstd::string::next_postcondition;

    let mut it = s.chars();
    proof {
        vstd::string::axiom_spec_iter(s);
    }
    let mut v: Vec<char> = Vec::new();
    loop
        invariant
            v@ + it.remaining() == s@,
            it.decrease() is Some,
        ensures
            v@ == s@,
        decreases it.decrease()->0,
    {
        let c_opt = it.next();
        match c_opt {
            Some(c) => {
                v.push(c);
            },
            None => {
                proof {
                    assert(v@ + it.remaining() =~= v@);
                }
                break ;
            },
        }
    }
    v
}

/// The lexer: a character buffer and a cursor. Each call of `next_token`
/// lexes one token at the cursor and advances past it; at the end of the
/// input it yields a single `Eof` token, and nothing afterwards.
pub struct Lexer {
    input: Vec<char>,
    current_pos: usize,
}

impl Lexer {
    /// The input as a character sequence.
    pub closed spec fn input_seq(&self) -> Seq<char> {
        self.input@
    }

    /// The cursor: the offset of the next character to lex.
    pub closed spec fn pos(&self) -> int {
        self.current_pos as int
    }

    /// The cursor never runs more than one step past the end (one step past
    /// marks that `Eof` has been handed out).
    pub open spec fn wf(&self) -> bool {
        self.pos() <= self.input_seq().len() + 1 && self.input_seq().len() < usize::MAX
    }

    pub fn new(input: &str) -> (r: Lexer)
        requires
            input@.len() < usize::MAX,
        ensures
            r.input_seq() == input@,
            r.pos() == 0,
            r.wf(),
    {
        Lexer { input: chars_of(input), current_pos: 0 }
    }

    /// Lexes one token at the cursor and advances past it. At the end of
    /// the input the call yields the single `Eof` token, with a zero-width
    /// span at the end; every later call yields nothing.
    pub fn next_token(&mut self) -> (r: Option<Token>)
        requires
            old(self).wf(),
        ensures
            final(self).wf(),
            final(self).input_seq() == old(self).input_seq(),
            old(self).pos() == old(self).input_seq().len() ==> final(self).pos() == old(self).pos()
                + 1 && (r matches Some(t) && t.kind == TokenKind::Eof && t.span.start == old(
                self,
            ).input_seq().len() && t.span.end == old(self).input_seq().len() && t.span.literal@
                == Seq::<char>::empty()),
            old(self).pos() > old(self).input_seq().len() ==> r is None && final(self).pos() == old(
                self,
            ).pos(),
            0 <= old(self).pos() < old(self).input_seq().len() ==> final(self).pos()
                == token_end_at(old(self).input_seq(), old(self).pos()) && (r matches Some(t)
                && t.kind == token_kind_at(old(self).input_seq(), old(self).pos()) && t.span.start
                == old(self).pos() && t.span.end == token_end_at(
                old(self).input_seq(),
                old(self).pos(),
            ) && t.span.literal@ == old(self).input_seq().subrange(
                old(self).pos(),
                token_end_at(old(self).input_seq(), old(self).pos()),
            )),
    {
        let ghost s = self.input@;
        let ghost p = self.current_pos as int;
        if self.current_pos == self.input.len() {
            let n: usize = self.input.len();
            self.current_pos = n + 1;
            return Some(Token::new(TokenKind::Eof, TextSpan::new(n, n, String::new())));
        }
        if self.current_pos > self.input.len() {
            return None;
        }
        let start: usize = self.current_pos;
        let c = self.current_char().unwrap();
        proof {
            lemma_digit_run_end(s, p);
            lemma_ident_run_end(s, p);
        }
        let kind: TokenKind;
        if Self::is_number_start(&c) {
            let number = self.consume_number();
            kind = TokenKind::Number(number);
        } else if Self::is_whitespace(&c) {
            let _ = self.consume();
            kind = TokenKind::Whitespace;
        } else if Self::is_identifier_start(&c) {
            let _identifier = self.consume_identifier();
            kind = self.classify_identifier_run(start, self.current_pos);
        } else {
            kind = self.consume_punctuation();
        }
        let end: usize = self.current_pos;
        let mut literal = String::new();
        let mut i: usize = start;
        proof {
            assert(Seq::<char>::empty() =~= s.subrange(start as int, start as int));
        }
        while i < end
            invariant
                self.input@ == s,
                start <= i <= end <= s.len(),
                literal@ == s.subrange(start as int, i as int),
            decreases end - i,
        {
            crate::text::push_char(&mut literal, self.input[i]);
            i = i + 1;
            proof {
                assert(literal@ =~= s.subrange(start as int, i as int));
            }
        }
        Some(Token::new(kind, TextSpan::new(start, end, literal)))
    }

    /// Relies on char::is_whitespace: whether the character has the Unicode
    /// White_Space property; the result depends on the character alone.
    #[verifier::external_body]
    fn is_whitespace(c: &char) -> (r: bool)
        ensures
            r == is_unicode_whitespace(*c),
    {
        c.is_whitespace()
    }

    /// Whether `c` is an ASCII decimal digit, the start of a number token.
    fn is_number_start(c: &char) -> (r: bool)
        ensures
            r == is_digit_char(*c),
    {
        let u: u32 = *c as u32;
        48 <= u && u <= 57
    }

    /// Whether `c` may start (or continue) an identifier run.
    fn is_identifier_start(c: &char) -> (r: bool)
        ensures
            r == is_identifier_char(*c),
    {
        char_is_alphabetic(c) || *c == '_'
    }

    /// The character at the cursor, if the cursor is inside the input.
    fn current_char(&self) -> (r: Option<char>)
        ensures
            r == (if self.pos() < self.input_seq().len() {
                Some(self.input_seq()[self.pos()])
            } else {
                Option::<char>::None
            }),
    {
        if self.current_pos < self.input.len() {
            Some(self.input[self.current_pos])
        } else {
            None
        }
    }

    /// Hands out the character at the cursor and advances past it; at the
    /// end of the input it yields nothing and stays put.
    fn consume(&mut self) -> (r: Option<char>)
        requires
            old(self).wf(),
        ensures
            final(self).wf(),
            final(self).input_seq() == old(self).input_seq(),
            r == (if old(self).pos() < old(self).input_seq().len() {
                Some(old(self).input_seq()[old(self).pos()])
            } else {
                Option::<char>::None
            }),
            final(self).pos() == (if old(self).pos() < old(self).input_seq().len() {
                old(self).pos() + 1
            } else {
                old(self).pos()
            }),
    {
        if self.current_pos >= self.input.len() {
            return None;
        }
        let c = self.input[self.current_pos];
        self.current_pos = self.current_pos + 1;
        Some(c)
    }

    /// Lexes the single punctuation character at the cursor.
    fn consume_punctuation(&mut self) -> (k: TokenKind)
        requires
            old(self).wf(),
            0 <= old(self).pos() < old(self).input_seq().len(),
        ensures
            final(self).wf(),
            final(self).input_seq() == old(self).input_seq(),
            final(self).pos() == old(self).pos() + 1,
            k == punctuation_kind(old(self).input_seq()[old(self).pos()]),
    {
        let c = self.consume().unwrap();
        match c {
            '+' => TokenKind::Plus,
            '-' => TokenKind::Minus,
            '*' => TokenKind::Asterisk,
            '/' => TokenKind::Slash,
            '=' => TokenKind::Equals,
            '(' => TokenKind::OpenParen,
            ')' => TokenKind::CloseParen,
            ',' => TokenKind::Comma,
            '{' => TokenKind::OpenBrace,
            '}' => TokenKind::CloseBrace,
            _ => TokenKind::Bad,
        }
    }

    /// Lexes the maximal identifier run at the cursor and returns its text.
    fn consume_identifier(&mut self) -> (identifier: String)
        requires
            old(self).wf(),
            0 <= old(self).pos() < old(self).input_seq().len(),
            is_identifier_char(old(self).input_seq()[old(self).pos()]),
        ensures
            final(self).wf(),
            final(self).input_seq() == old(self).input_seq(),
            final(self).pos() == ident_run_end(old(self).input_seq(), old(self).pos()),
            identifier@ == old(self).input_seq().subrange(
                old(self).pos(),
                ident_run_end(old(self).input_seq(), old(self).pos()),
            ),
    {
        let ghost s = self.input@;
        let ghost p0 = self.current_pos as int;
        let ghost run_end = ident_run_end(s, p0);
        proof {
            lemma_ident_run_end(s, p0);
        }
        let mut identifier = String::new();
        while self.current_pos < self.input.len() && Self::is_identifier_start(
            &self.input[self.current_pos],
        )
            invariant
                self.input@ == s,
                self.input@.len() < usize::MAX,
                p0 <= self.current_pos <= run_end <= s.len(),
                run_end == ident_run_end(s, p0),
                identifier@ == s.subrange(p0, self.current_pos as int),
                forall|i: int| p0 <= i < run_end ==> is_identifier_char(s[i]),
                run_end < s.len() ==> !is_identifier_char(s[run_end as int]),
            decreases s.len() - self.current_pos,
        {
            proof {
                assert(ident_run_end(s, self.current_pos as int) == run_end) by {
                    lemma_ident_run_end_extends(s, p0, self.current_pos as int);
                }
            }
            let c = self.input[self.current_pos];
            crate::text::push_char(&mut identifier, c);
            self.current_pos = self.current_pos + 1;
            proof {
                assert(identifier@ =~= s.subrange(p0, self.current_pos as int));
            }
        }
        proof {
            if self.current_pos < run_end {
                assert(is_identifier_char(s[self.current_pos as int]));
                assert(false);
            }
            assert(self.current_pos == run_end);
        }
        identifier
    }

    /// The kind of the identifier run `[start, end)`: a reserved word where
    /// the run spells one, else `Identifier`.
    fn classify_identifier_run(&self, start: usize, end: usize) -> (k: TokenKind)
        requires
            0 <= start <= end <= self.input_seq().len(),
        ensures
            k == keyword_or_identifier(self.input_seq().subrange(start as int, end as int)),
    {
        let ghost lit = self.input_seq().subrange(start as int, end as int);
        let len: usize = end - start;
        if len == 3 && self.input[start] == 'l' && self.input[start + 1] == 'e' && self.input[start
            + 2] == 't' {
            proof {
                assert(lit =~= seq!['l', 'e', 't']);
            }
            return TokenKind::Let;
        }
        if len == 8 && self.input[start] == 'f' && self.input[start + 1] == 'u' && self.input[start
            + 2] == 'n' && self.input[start + 3] == 'c' && self.input[start + 4] == 't'
            && self.input[start + 5] == 'i' && self.input[start + 6] == 'o' && self.input[start
            + 7] == 'n' {
            proof {
                assert(lit =~= seq!['f', 'u', 'n', 'c', 't', 'i', 'o', 'n']);
            }
            return TokenKind::Function;
        }
        proof {
            assert(lit != seq!['l', 'e', 't'] && lit != seq!['f', 'u', 'n', 'c', 't', 'i', 'o', 'n'])
                by {
                if lit == seq!['l', 'e', 't'] {
                    assert(lit.len() == 3 && lit[0] == 'l' && lit[1] == 'e' && lit[2] == 't');
                }
                if lit == seq!['f', 'u', 'n', 'c', 't', 'i', 'o', 'n'] {
                    assert(lit.len() == 8 && lit[0] == 'f' && lit[1] == 'u' && lit[2] == 'n'
                        && lit[3] == 'c' && lit[4] == 't' && lit[5] == 'i' && lit[6] == 'o'
                        && lit[7] == 'n');
                }
            }
        }
        TokenKind::Identifier
    }

    /// Lexes the maximal digit run at the cursor, accumulating its value
    /// with wrapping arithmetic.
    fn consume_number(&mut self) -> (n: i64)
        requires
            old(self).wf(),
            0 <= old(self).pos() < old(self).input_seq().len(),
            is_digit_char(old(self).input_seq()[old(self).pos()]),
        ensures
            final(self).wf(),
            final(self).input_seq() == old(self).input_seq(),
            final(self).pos() == digit_run_end(old(self).input_seq(), old(self).pos()),
            n == number_value(
                old(self).input_seq(),
                old(self).pos(),
                digit_run_end(old(self).input_seq(), old(self).pos()),
            ),
    {
        let ghost s = self.input@;
        let ghost p0 = self.current_pos as int;
        let ghost run_end = digit_run_end(s, p0);
        proof {
            lemma_digit_run_end(s, p0);
        }
        let mut number: i64 = 0;
        while self.current_pos < self.input.len() && Self::is_number_start(
            &self.input[self.current_pos],
        )
            invariant
                self.input@ == s,
                self.input@.len() < usize::MAX,
                p0 <= self.current_pos <= run_end <= s.len(),
                run_end == digit_run_end(s, p0),
                number_value_from(s, self.current_pos as int, run_end, number) == number_value(
                    s,
                    p0,
                    run_end,
                ),
                forall|i: int| p0 <= i < run_end ==> is_digit_char(s[i]),
                run_end < s.len() ==> !is_digit_char(s[run_end as int]),
            decreases s.len() - self.current_pos,
        {
            proof {
                assert(digit_run_end(s, self.current_pos as int) == run_end) by {
                    lemma_digit_run_end_extends(s, p0, self.current_pos as int);
                }
            }
            let c = self.input[self.current_pos];
            let d: i64 = (c as u32 - 48) as i64;
            number = number.wrapping_mul(10).wrapping_add(d);
            self.current_pos = self.current_pos + 1;
        }
        proof {
            if self.current_pos < run_end {
                assert(is_digit_char(s[self.current_pos as int]));
                assert(false);
            }
            assert(self.current_pos == run_end);
        }
        number
    }
}

/// The spans `(start, end)` of the tokens lexed from `s` when starting at
/// `pos`, in order. The trailing `Eof` token has no span here.
pub open spec fn token_spans(s: Seq<char>, pos: int) -> Seq<(int, int)>
    decreases s.len() - pos,
{
    if 0 <= pos < s.len() {
        proof {
            lemma_token_end_at(s, pos);
        }
        seq![(pos, token_end_at(s, pos))] + token_spans(s, token_end_at(s, pos))
    } else {
        Seq::empty()
    }
}

/// Whether `t` is the token lexed at position `pos` of `s`.
pub open spec fn token_matches_at(s: Seq<char>, t: Token, pos: int) -> bool {
    &&& t.kind == token_kind_at(s, pos)
    &&& t.span.start == pos
    &&& t.span.end == token_end_at(s, pos)
    &&& t.span.literal@ == s.subrange(pos, token_end_at(s, pos))
}

/// Whether `tokens` is exactly the stream the lexer yields for `s`: one
/// token per span of `s`, then a single zero-width `Eof` token.
pub open spec fn tokens_match(s: Seq<char>, tokens: Seq<Token>) -> bool {
    &&& tokens.len() == token_spans(s, 0).len() + 1
    &&& (forall|i: int|
        0 <= i < token_spans(s, 0).len() ==> token_matches_at(
            s,
            #[trigger] tokens[i],
            token_spans(s, 0)[i].0,
        ))
    &&& tokens.last().kind == TokenKind::Eof
    &&& tokens.last().span.start == s.len()
    &&& tokens.last().span.end == s.len()
    &&& tokens.last().span.literal@ == Seq::<char>::empty()
}

/// The token at a position inside the input is never `Eof`: the lexer
/// yields `Eof` only at the end of the input.
pub proof fn lemma_token_kind_not_eof(s: Seq<char>, pos: int)
    requires
        0 <= pos < s.len(),
    ensures
        token_kind_at(s, pos) != TokenKind::Eof,
{
}

/// The spans tile the input: each covers at least one character, adjacent
/// spans abut, the first starts at `pos` and the last ends at the end.
pub proof fn lemma_token_spans_chain(s: Seq<char>, pos: int)
    requires
        0 <= pos <= s.len(),
    ensures
        token_spans(s, pos).len() == 0 <==> pos == s.len(),
        token_spans(s, pos).len() > 0 ==> token_spans(s, pos)[0].0 == pos && token_spans(
            s,
            pos,
        ).last().1 == s.len(),
        forall|i: int|
            0 <= i < token_spans(s, pos).len() ==> pos <= (#[trigger] token_spans(s, pos)[i]).0
                < token_spans(s, pos)[i].1 <= s.len(),
        forall|i: int|
            0 <= i < token_spans(s, pos).len() - 1 ==> (#[trigger] token_spans(s, pos)[i]).1
                == token_spans(s, pos)[i + 1].0,
    decreases s.len() - pos,
{
    if pos < s.len() {
        lemma_token_end_at(s, pos);
        lemma_token_spans_chain(s, token_end_at(s, pos));
    }
}

/// Token spans are monotonically non-decreasing (in fact increasing) in
/// their start offset across the token stream.
pub proof fn lemma_token_starts_monotonic(s: Seq<char>, tokens: Seq<Token>)
    requires
        tokens_match(s, tokens),
    ensures
        forall|i: int, j: int|
            0 <= i <= j < tokens.len() ==> (#[trigger] tokens[i]).span.start <= (
            #[trigger] tokens[j]).span.start,
{
    lemma_token_spans_chain(s, 0);
    lemma_spans_starts_increase(s, 0);
    assert forall|i: int, j: int| 0 <= i <= j < tokens.len() implies (
    #[trigger] tokens[i]).span.start <= (#[trigger] tokens[j]).span.start by {
        let sp = token_spans(s, 0);
        if j < tokens.len() - 1 {
            assert(tokens[i].span.start == sp[i].0 && tokens[j].span.start == sp[j].0);
        } else if i < tokens.len() - 1 {
            assert(tokens[i].span.start == sp[i].0 && sp[i].0 < sp[i].1 <= s.len());
        }
    }
}

/// Span starts strictly increase along the stream, and never fall below
/// the position the stream was lexed from.
proof fn lemma_spans_starts_increase(s: Seq<char>, pos: int)
    requires
        0 <= pos <= s.len(),
    ensures
        forall|i: int|
            0 <= i < token_spans(s, pos).len() ==> pos <= (#[trigger] token_spans(s, pos)[i]).0,
        forall|i: int, j: int|
            0 <= i < j < token_spans(s, pos).len() ==> (#[trigger] token_spans(s, pos)[i]).0 < (
            #[trigger] token_spans(s, pos)[j]).0,
    decreases s.len() - pos,
{
    if pos < s.len() {
        lemma_token_end_at(s, pos);
        let e = token_end_at(s, pos);
        lemma_spans_starts_increase(s, e);
        let sp = token_spans(s, pos);
        let rest = token_spans(s, e);
        assert(forall|k: int| 0 <= k < rest.len() ==> sp[k + 1] == #[trigger] rest[k]);
        assert forall|i: int, j: int| 0 <= i < j < sp.len() implies (#[trigger] sp[i]).0 < (
        #[trigger] sp[j]).0 by {
            if i > 0 {
                assert(sp[i] == rest[i - 1] && sp[j] == rest[j - 1]);
            } else {
                assert(sp[j] == rest[j - 1] && e <= rest[j - 1].0);
            }
        }
    }
}

/// Exactly one `Eof` token is ever produced, and it is the last.
pub proof fn lemma_exactly_one_eof(s: Seq<char>, tokens: Seq<Token>)
    requires
        tokens_match(s, tokens),
    ensures
        tokens.last().kind == TokenKind::Eof,
        forall|i: int| 0 <= i < tokens.len() - 1 ==> (#[trigger] tokens[i]).kind != TokenKind::Eof,
{
    lemma_token_spans_chain(s, 0);
    assert forall|i: int| 0 <= i < tokens.len() - 1 implies (#[trigger] tokens[i]).kind
        != TokenKind::Eof by {
        let sp = token_spans(s, 0);
        assert(token_matches_at(s, tokens[i], sp[i].0));
        lemma_token_kind_not_eof(s, sp[i].0);
    }
}

/// The concatenation of the literals of `tokens`, in order.
pub open spec fn concat_literals(tokens: Seq<Token>) -> Seq<char>
    decreases tokens.len(),
{
    if tokens.len() == 0 {
        Seq::empty()
    } else {
        tokens[0].span.literal@ + concat_literals(tokens.drop_first())
    }
}

/// Lex round-trip: concatenating the literals of all tokens before the
/// trailing `Eof` reproduces the input exactly.
pub proof fn lemma_lex_round_trip(s: Seq<char>, tokens: Seq<Token>)
    requires
        tokens_match(s, tokens),
    ensures
        concat_literals(tokens.take(tokens.len() - 1)) == s,
{
    let toks = tokens.take(tokens.len() - 1);
    lemma_concat_literals_from(s, 0, toks);
    assert(s.subrange(0, s.len() as int) =~= s);
}

/// The literals of a stream suffix concatenate to the input suffix it was
/// lexed from.
proof fn lemma_concat_literals_from(s: Seq<char>, pos: int, toks: Seq<Token>)
    requires
        0 <= pos <= s.len(),
        toks.len() == token_spans(s, pos).len(),
        forall|i: int|
            0 <= i < toks.len() ==> token_matches_at(s, #[trigger] toks[i], token_spans(s, pos)[i].0),
    ensures
        concat_literals(toks) == s.subrange(pos, s.len() as int),
    decreases s.len() - pos,
{
    if pos == s.len() {
        assert(concat_literals(toks) =~= s.subrange(pos, s.len() as int));
    } else {
        lemma_token_end_at(s, pos);
        let e = token_end_at(s, pos);
        let sp = token_spans(s, pos);
        let rest_sp = token_spans(s, e);
        let rest = toks.drop_first();
        assert(forall|k: int| 0 <= k < rest_sp.len() ==> sp[k + 1] == #[trigger] rest_sp[k]);
        assert(forall|k: int| 0 <= k < rest.len() ==> #[trigger] rest[k] == toks[k + 1]);
        lemma_concat_literals_from(s, e, rest);
        assert(token_matches_at(s, toks[0], pos));
        assert(concat_literals(toks) == toks[0].span.literal@ + concat_literals(rest));
        assert(s.subrange(pos, e) + s.subrange(e, s.len() as int) =~= s.subrange(
            pos,
            s.len() as int,
        ));
    }
}

/// The spans of a token list, in order.
pub open spec fn span_list(tokens: Seq<Token>) -> Seq<(int, int)> {
    tokens.map_values(|t: Token| (t.span.start as int, t.span.end as int))
}

/// Runs the lexer over the whole input and collects the token stream it
/// yields, whitespace tokens included, ending with the single `Eof` token.
pub fn tokenize(input: &str) -> (tokens: Vec<Token>)
    requires
        input@.len() < usize::MAX,
    ensures
        tokens_match(input@, tokens@),
{
    let ghost s = input@;
    let mut lexer = Lexer::new(input);
    let mut tokens: Vec<Token> = Vec::new();
    proof {
        assert(token_spans(s, 0) =~= span_list(tokens@) + token_spans(s, 0));
    }
    loop
        invariant_except_break
            lexer.wf(),
            lexer.input_seq() == s,
            0 <= lexer.pos() <= s.len(),
            token_spans(s, 0) == span_list(tokens@) + token_spans(s, lexer.pos()),
            tokens@.len() == span_list(tokens@).len(),
            forall|i: int|
                0 <= i < tokens@.len() ==> token_matches_at(
                    s,
                    #[trigger] tokens@[i],
                    tokens@[i].span.start as int,
                ),
        ensures
            tokens_match(s, tokens@),
        decreases s.len() + 1 - lexer.pos(),
    {
        let ghost p = lexer.pos();
        let ghost toks_before = tokens@;
        let t_opt = lexer.next_token();
        let t = t_opt.unwrap();
        let is_eof = matches!(t.kind, TokenKind::Eof);
        tokens.push(t);
        if is_eof {
            proof {
                if p < s.len() {
                    lemma_token_kind_not_eof(s, p);
                    assert(false);
                }
                assert(token_spans(s, p) =~= Seq::<(int, int)>::empty());
                assert(span_list(toks_before) + token_spans(s, p) =~= span_list(toks_before));
                let sp = token_spans(s, 0);
                assert(tokens@.len() == sp.len() + 1);
                assert(forall|i: int|
                    0 <= i < sp.len() ==> sp[i] == #[trigger] span_list(toks_before)[i]);
                assert forall|i: int| 0 <= i < sp.len() implies token_matches_at(
                    s,
                    #[trigger] tokens@[i],
                    sp[i].0,
                ) by {
                    assert(tokens@[i] == toks_before[i]);
                    assert(sp[i].0 == toks_before[i].span.start as int);
                }
            }
            break ;
        }
        proof {
            if p == s.len() {
                assert(t.kind == TokenKind::Eof);
                assert(false);
            }
            lemma_token_end_at(s, p);
            let e = token_end_at(s, p);
            assert(token_spans(s, p) == seq![(p, e)] + token_spans(s, e));
            assert(span_list(tokens@) =~= span_list(toks_before).push((p, e)));
            assert(token_spans(s, 0) =~= span_list(tokens@) + token_spans(s, e));
        }
    }
    tokens
}

/// A maximal run that has begun stays the same when resumed part way in.
proof fn lemma_ident_run_end_extends(s: Seq<char>, p0: int, mid: int)
    requires
        0 <= p0 <= mid <= ident_run_end(s, p0),
        ident_run_end(s, p0) <= s.len(),
        forall|i: int| p0 <= i < ident_run_end(s, p0) ==> is_identifier_char(s[i]),
    ensures
        ident_run_end(s, mid) == ident_run_end(s, p0),
    decreases ident_run_end(s, p0) - mid,
{
    lemma_ident_run_end(s, p0);
    if mid < ident_run_end(s, p0) {
        lemma_ident_run_end_extends(s, p0, mid + 1);
    }
}

/// A maximal digit run that has begun stays the same when resumed part way
/// in.
proof fn lemma_digit_run_end_extends(s: Seq<char>, p0: int, mid: int)
    requires
        0 <= p0 <= mid <= digit_run_end(s, p0),
        digit_run_end(s, p0) <= s.len(),
        forall|i: int| p0 <= i < digit_run_end(s, p0) ==> is_digit_char(s[i]),
    ensures
        digit_run_end(s, mid) == digit_run_end(s, p0),
    decreases digit_run_end(s, p0) - mid,
{
    lemma_digit_run_end(s, p0);
    if mid < digit_run_end(s, p0) {
        lemma_digit_run_end_extends(s, p0, mid + 1);
    }
}

} // verus!
