//! Tokenizer for the expression language.
//!
//! The lexer walks the input one character at a time (positions count
//! characters, not bytes) and classifies each maximal piece of text as a
//! token: a run of decimal digits becomes a `Number`, a single whitespace
//! character becomes `Whitespace`, the six punctuation characters map to
//! their own kinds, and any other character becomes `Bad`. When the cursor
//! reaches the end of the input, a single synthetic `EOF` token with a
//! zero-length span is emitted; after that, `next_token` returns `None`.

use vstd::prelude::*;

verus! {

/// The possible kinds of tokens that the lexer can generate.
#[derive(Clone, Copy, PartialEq, Eq, Structural, Debug)]
pub enum TokenKind {
    Number(i64),
    Plus,
    Minus,
    Asterisk,
    Slash,
    LeftParen,
    RightParen,
    Whitespace,
    EOF,
    Bad,
}

/// A span of text in the input string: a half-open character range
/// together with the exact substring it covers.
#[derive(Debug)]
pub struct TextSpan {
    pub start: usize,
    pub end: usize,
    pub literal: String,
}

impl Clone for TextSpan {
    fn clone(&self) -> (r: Self)
        ensures
            r == *self,
    {
        TextSpan { start: self.start, end: self.end, literal: self.literal.clone() }
    }
}

impl TextSpan {
    /// Creates a new span from its start and end positions and the literal text.
    pub fn new(start: usize, end: usize, literal: String) -> (r: Self)
        ensures
            r.start == start,
            r.end == end,
            r.literal == literal,
    {
        TextSpan { start, end, literal }
    }

    /// The length of the span, in characters.
    pub fn length(&self) -> (len: usize)
        requires
            self.start <= self.end,
        ensures
            len == self.end - self.start,
    {
        self.end - self.start
    }
}

/// A token produced by the lexer: its kind and the span it came from.
#[derive(Debug)]
pub struct Token {
    pub kind: TokenKind,
    pub span: TextSpan,
}

impl Clone for Token {
    fn clone(&self) -> (r: Self)
        ensures
            r == *self,
    {
        Token { kind: self.kind, span: self.span.clone() }
    }
}

impl Token {
    /// Creates a new token from a kind and a span.
    pub fn new(kind: TokenKind, span: TextSpan) -> (r: Self)
        ensures
            r.kind == kind,
            r.span == span,
    {
        Token { kind, span }
    }
}

/// Whether `c` is an ASCII decimal digit, the only kind of digit a number
/// token is made of.
pub open spec fn is_digit_char(c: char) -> bool {
    48 <= (c as u32) && (c as u32) <= 57
}

/// The numeric value of an ASCII decimal digit.
pub open spec fn digit_char_value(c: char) -> int {
    (c as u32) - 48
}

/// Whether `c` counts as whitespace; the result of `char::is_whitespace`,
/// a fixed function of the character alone.
pub uninterp spec fn is_whitespace_char(c: char) -> bool;

/// The token kind a single non-digit, non-whitespace character maps to.
pub open spec fn punctuation_kind(c: char) -> TokenKind {
    if c == '+' {
        TokenKind::Plus
    } else if c == '-' {
        TokenKind::Minus
    } else if c == '*' {
        TokenKind::Asterisk
    } else if c == '/' {
        TokenKind::Slash
    } else if c == '(' {
        TokenKind::LeftParen
    } else if c == ')' {
        TokenKind::RightParen
    } else {
        TokenKind::Bad
    }
}

/// The position just past the maximal run of digits starting at `pos`.
pub open spec fn digit_run_end(s: Seq<char>, pos: int) -> int
    decreases s.len() - pos,
{
    if 0 <= pos < s.len() && is_digit_char(s[pos]) {
        digit_run_end(s, pos + 1)
    } else {
        pos
    }
}

/// The value of a digit sequence read left to right in base ten.
pub open spec fn decimal_value(s: Seq<char>) -> int
    decreases s.len(),
{
    if s.len() == 0 {
        0
    } else {
        decimal_value(s.drop_last()) * 10 + digit_char_value(s.last())
    }
}

/// The value of a digit sequence as the 64-bit accumulation computes it:
/// each step multiplies by ten and adds the next digit, wrapping on
/// overflow exactly as the host's 64-bit integers do. While the exact
/// value fits in an `i64` the two agree.
pub open spec fn decimal_value_wrapped(s: Seq<char>) -> i64
    decreases s.len(),
{
    if s.len() == 0 {
        0
    } else {
        vstd::wrapping::i64_specs::wrapping_add(
            vstd::wrapping::i64_specs::wrapping_mul(decimal_value_wrapped(s.drop_last()), 10),
            digit_char_value(s.last()) as i64,
        )
    }
}

/// The position just past the token that starts at `pos` (for `pos` within
/// the input): a maximal digit run for a number, one character otherwise.
pub open spec fn spec_token_end(s: Seq<char>, pos: int) -> int {
    if is_digit_char(s[pos]) {
        digit_run_end(s, pos)
    } else {
        pos + 1
    }
}

/// What kind the token starting at `pos` has. A number carries the
/// wrapped 64-bit value of its digit run, which is the exact base-ten
/// value whenever that fits in an `i64`.
pub open spec fn token_kind_at(s: Seq<char>, pos: int, kind: TokenKind) -> bool {
    if is_digit_char(s[pos]) {
        kind matches TokenKind::Number(v) && v == decimal_value_wrapped(
            s.subrange(pos, digit_run_end(s, pos)),
        ) && (decimal_value(s.subrange(pos, digit_run_end(s, pos))) <= i64::MAX ==> v
            == decimal_value(s.subrange(pos, digit_run_end(s, pos))))
    } else if is_whitespace_char(s[pos]) {
        kind == TokenKind::Whitespace
    } else {
        kind == punctuation_kind(s[pos])
    }
}

/// Everything the lexer promises of a non-EOF token that starts at `pos`:
/// its span is `[pos, spec_token_end)`, its literal is exactly the text in
/// that range, and its kind classifies the character at `pos`.
pub open spec fn token_at(s: Seq<char>, pos: int, t: Token) -> bool {
    &&& t.span.start == pos
    &&& t.span.end == spec_token_end(s, pos)
    &&& t.span.literal@ == s.subrange(pos, spec_token_end(s, pos))
    &&& token_kind_at(s, pos, t.kind)
}

/// The run of digits starting inside the input never ends before the
/// position it started at, nor after the input.
proof fn lemma_digit_run_end_bounds(s: Seq<char>, pos: int)
    requires
        0 <= pos <= s.len(),
    ensures
        pos <= digit_run_end(s, pos) <= s.len(),
    decreases s.len() - pos,
{
    if pos < s.len() && is_digit_char(s[pos]) {
        lemma_digit_run_end_bounds(s, pos + 1);
    }
}

/// A sequence of digits has a non-negative decimal value.
proof fn lemma_decimal_value_nonneg(s: Seq<char>)
    requires
        forall|i: int| 0 <= i < s.len() ==> is_digit_char(#[trigger] s[i]),
    ensures
        decimal_value(s) >= 0,
    decreases s.len(),
{
    if s.len() > 0 {
        lemma_decimal_value_nonneg(s.drop_last());
    }
}

/// The concatenation of the literal text of a sequence of tokens.
pub open spec fn literals_concat(tokens: Seq<Token>) -> Seq<char>
    decreases tokens.len(),
{
    if tokens.len() == 0 {
        Seq::empty()
    } else {
        tokens.first().span.literal@ + literals_concat(tokens.drop_first())
    }
}

/// Concatenation of literals distributes over appending one token.
proof fn lemma_literals_concat_push(tokens: Seq<Token>, t: Token)
    ensures
        literals_concat(tokens.push(t)) == literals_concat(tokens) + t.span.literal@,
    decreases tokens.len(),
{
    if tokens.len() == 0 {
        assert(tokens.push(t).first() == t);
        assert(tokens.push(t).drop_first() =~= Seq::<Token>::empty());
        assert(literals_concat(tokens.push(t)) == t.span.literal@ + literals_concat(
            Seq::<Token>::empty(),
        ));
        assert(t.span.literal@ + Seq::<char>::empty() =~= Seq::<char>::empty() + t.span.literal@);
    } else {
        assert(tokens.push(t).drop_first() =~= tokens.drop_first().push(t));
        lemma_literals_concat_push(tokens.drop_first(), t);
        assert(tokens.first().span.literal@ + (literals_concat(tokens.drop_first())
            + t.span.literal@) =~= (tokens.first().span.literal@ + literals_concat(
            tokens.drop_first(),
        )) + t.span.literal@);
    }
}

/// The tokens produced so far by a lexer whose cursor stands at `pos`:
/// each token satisfies `token_at` for its own start, consecutive spans
/// tile the input without gap or overlap from position zero up to `pos`,
/// and the literals concatenate to exactly the text read so far.
pub open spec fn lexed_prefix(s: Seq<char>, tokens: Seq<Token>, pos: int) -> bool {
    &&& forall|i: int|
        0 <= i < tokens.len() ==> token_at(s, (#[trigger] tokens[i]).span.start as int, tokens[i])
    &&& forall|i: int|
        0 < i < tokens.len() ==> (#[trigger] tokens[i]).span.start == tokens[i - 1].span.end
    &&& tokens.len() > 0 ==> tokens[0].span.start == 0 && tokens.last().span.end == pos
    &&& tokens.len() == 0 ==> pos == 0
    &&& literals_concat(tokens) == s.subrange(0, pos)
}

/// A complete lexing of `s`: the non-EOF tokens tile all of `s`, and one
/// final `EOF` token with a zero-length span closes the sequence.
pub open spec fn lexed_all(s: Seq<char>, tokens: Seq<Token>) -> bool {
    &&& tokens.len() >= 1
    &&& tokens.last().kind == TokenKind::EOF
    &&& tokens.last().span.start == 0
    &&& tokens.last().span.end == 0
    &&& lexed_prefix(s, tokens.drop_last(), s.len() as int)
}

/// Appending the token that starts at `pos` extends a lexed prefix up to
/// that token's end.
proof fn lemma_lexed_prefix_step(s: Seq<char>, tokens: Seq<Token>, t: Token, pos: int)
    requires
        lexed_prefix(s, tokens, pos),
        0 <= pos < s.len(),
        token_at(s, pos, t),
        pos < spec_token_end(s, pos) <= s.len(),
    ensures
        lexed_prefix(s, tokens.push(t), spec_token_end(s, pos)),
{
    lemma_literals_concat_push(tokens, t);
    assert(s.subrange(0, pos) + s.subrange(pos, spec_token_end(s, pos)) =~= s.subrange(
        0,
        spec_token_end(s, pos),
    ));
}

/// Appending the final `EOF` token to a fully lexed prefix completes the
/// lexing of the whole input.
proof fn lemma_lexed_all_finish(s: Seq<char>, tokens: Seq<Token>, t: Token)
    requires
        lexed_prefix(s, tokens, s.len() as int),
        t.kind == TokenKind::EOF,
        t.span.start == 0,
        t.span.end == 0,
    ensures
        lexed_all(s, tokens.push(t)),
{
    assert(tokens.push(t).drop_last() =~= tokens);
}

/// Runs the lexer over the whole input and collects every token, in order.
/// The result always ends with the single `EOF` token; the tokens before it
/// tile the input exactly, span to span, and concatenating their literals
/// reproduces the input string, character for character.
pub fn tokenize(input: &str) -> (tokens: Vec<Token>)
    requires
        input@.len() < usize::MAX,
    ensures
        lexed_all(input@, tokens@),
        literals_concat(tokens@.drop_last()) == input@,
{
    let mut lexer = Lexer::new(input);
    let mut tokens: Vec<Token> = Vec::new();
    proof {
        assert(literals_concat(tokens@) =~= input@.subrange(0, 0));
    }
    loop
        invariant
            lexer.input == input,
            input@.len() < usize::MAX,
            lexer.current_pos <= input@.len() + 1,
            lexer.current_pos <= input@.len() ==> lexed_prefix(
                input@,
                tokens@,
                lexer.current_pos as int,
            ),
            lexer.current_pos > input@.len() ==> lexed_all(input@, tokens@),
        ensures
            lexed_all(input@, tokens@),
        decreases input@.len() + 2 - lexer.current_pos,
    {
        let ghost pos_before = lexer.current_pos as int;
        match lexer.next_token() {
            Some(t) => {
                proof {
                    if pos_before == input@.len() {
                        lemma_lexed_all_finish(input@, tokens@, t);
                    } else {
                        lemma_lexed_prefix_step(input@, tokens@, t, pos_before);
                    }
                }
                tokens.push(t);
            },
            None => {
                break;
            },
        }
    }
    proof {
        assert(input@.subrange(0, input@.len() as int) =~= input@);
    }
    tokens
}

/// The lexer: the input string and a cursor, counted in characters.
pub struct Lexer<'a> {
    pub input: &'a str,
    pub current_pos: usize,
}

impl<'a> Lexer<'a> {
    /// Creates a lexer positioned at the start of `input`.
    pub fn new(input: &'a str) -> (l: Self)
        ensures
            l.input == input,
            l.current_pos == 0,
    {
        Lexer { input, current_pos: 0 }
    }

    /// Whether the character can start a number token.
    fn is_number_start(c: &char) -> (r: bool)
        ensures
            r == is_digit_char(*c),
    {
        let u: u32 = *c as u32;
        48 <= u && u <= 57
    }

    /// Relies on `char::is_whitespace`: whether the character has the
    /// Unicode `White_Space` property, a result that depends on the
    /// character alone.
    #[verifier::external_body]
    fn is_whitespace(c: &char) -> (r: bool)
        ensures
            r == is_whitespace_char(*c),
    {
        c.is_whitespace()
    }

    /// The character at the cursor, if the cursor is inside the input.
    fn current_char(&self) -> (c: Option<char>)
        ensures
            c == (if self.current_pos < self.input@.len() {
                Some(self.input@[self.current_pos as int])
            } else {
                Option::<char>::None
            }),
    {
        let len = self.input.unicode_len();
        if self.current_pos < len {
            Some(self.input.get_char(self.current_pos))
        } else {
            None
        }
    }

    /// Consumes the character at the cursor, advancing past it.
    fn consume(&mut self) -> (c: Option<char>)
        ensures
            final(self).input == old(self).input,
            if old(self).current_pos < old(self).input@.len() {
                c == Some(old(self).input@[old(self).current_pos as int]) && final(self).current_pos
                    == old(self).current_pos + 1
            } else {
                c == Option::<char>::None && final(self).current_pos == old(self).current_pos
            },
    {
        let len = self.input.unicode_len();
        if self.current_pos >= len {
            return None;
        }
        let c = self.input.get_char(self.current_pos);
        self.current_pos = self.current_pos + 1;
        Some(c)
    }

    /// Consumes one punctuation character and returns its token kind.
    fn consume_punctuation(&mut self) -> (kind: TokenKind)
        requires
            old(self).current_pos < old(self).input@.len(),
        ensures
            final(self).input == old(self).input,
            final(self).current_pos == old(self).current_pos + 1,
            kind == punctuation_kind(old(self).input@[old(self).current_pos as int]),
    {
        let c = self.consume().unwrap();
        match c {
            '+' => TokenKind::Plus,
            '-' => TokenKind::Minus,
            '*' => TokenKind::Asterisk,
            '/' => TokenKind::Slash,
            '(' => TokenKind::LeftParen,
            ')' => TokenKind::RightParen,
            _ => TokenKind::Bad,
        }
    }

    /// Gets the next token from the input string. Tokens are produced in
    /// order, each covering exactly the characters of its span; when the
    /// cursor reaches the end of the input, one synthetic `EOF` token with a
    /// zero-length span and a NUL literal is produced, and after that every
    /// call returns `None`.
    pub fn next_token(&mut self) -> (t: Option<Token>)
        requires
            old(self).input@.len() < usize::MAX,
        ensures
            final(self).input == old(self).input,
            ({
                let s = old(self).input@;
                let p = old(self).current_pos as int;
                match t {
                    None => p > s.len() && final(self).current_pos == old(self).current_pos,
                    Some(tok) => if p == s.len() {
                        &&& tok.kind == TokenKind::EOF
                        &&& tok.span.start == 0
                        &&& tok.span.end == 0
                        &&& tok.span.literal@ == seq!['\0']
                        &&& final(self).current_pos == p + 1
                    } else {
                        &&& p < s.len()
                        &&& token_at(s, p, tok)
                        &&& final(self).current_pos as int == spec_token_end(s, p)
                        &&& p < spec_token_end(s, p) <= s.len()
                    },
                }
            }),
    {
        let len = self.input.unicode_len();
        if self.current_pos > len {
            return None;
        }
        if self.current_pos == len {
            self.current_pos = self.current_pos + 1;
            let literal = "\0".to_owned();
            proof {
                reveal_strlit("\0");
                assert(literal@ =~= seq!['\0']);
            }
            return Some(Token::new(TokenKind::EOF, TextSpan::new(0, 0, literal)));
        }
        let ghost s = self.input@;
        let start = self.current_pos;
        let c = self.input.get_char(start);
        let kind: TokenKind;
        if Self::is_number_start(&c) {
            let number = self.consume_number();
            kind = TokenKind::Number(number);
        } else if Self::is_whitespace(&c) {
            self.consume();
            kind = TokenKind::Whitespace;
        } else {
            kind = self.consume_punctuation();
        }
        proof {
            if is_digit_char(s[start as int]) {
                lemma_digit_run_end_bounds(s, start as int + 1);
            }
        }
        let end = self.current_pos;
        let literal = self.input.substring_char(start, end).to_owned();
        Some(Token::new(kind, TextSpan::new(start, end, literal)))
    }

    /// Consumes the maximal run of digits at the cursor and accumulates its
    /// base-ten value left to right over 64-bit integers, wrapping on
    /// overflow exactly as `decimal_value_wrapped` says.
    fn consume_number(&mut self) -> (number: i64)
        requires
            old(self).current_pos < old(self).input@.len(),
            is_digit_char(old(self).input@[old(self).current_pos as int]),
        ensures
            final(self).input == old(self).input,
            final(self).current_pos as int == digit_run_end(
                old(self).input@,
                old(self).current_pos as int,
            ),
            number == decimal_value_wrapped(
                old(self).input@.subrange(
                    old(self).current_pos as int,
                    final(self).current_pos as int,
                ),
            ),
            decimal_value(
                old(self).input@.subrange(
                    old(self).current_pos as int,
                    final(self).current_pos as int,
                ),
            ) <= i64::MAX ==> number == decimal_value(
                old(self).input@.subrange(
                    old(self).current_pos as int,
                    final(self).current_pos as int,
                ),
            ),
    {
        let ghost input0 = self.input;
        let ghost s = self.input@;
        let ghost pos0 = self.current_pos as int;
        let mut number: i64 = 0;
        proof {
            assert(s.subrange(pos0, pos0) =~= Seq::<char>::empty());
        }
        loop
            invariant
                self.input == input0,
                input0@ == s,
                0 <= pos0 <= self.current_pos as int <= s.len(),
                digit_run_end(s, pos0) == digit_run_end(s, self.current_pos as int),
                forall|i: int| pos0 <= i < self.current_pos as int ==> is_digit_char(#[trigger] s[i]),
                number == decimal_value_wrapped(s.subrange(pos0, self.current_pos as int)),
                decimal_value(s.subrange(pos0, self.current_pos as int)) <= i64::MAX ==> number
                    == decimal_value(s.subrange(pos0, self.current_pos as int)),
            ensures
                self.input == input0,
                self.current_pos as int == digit_run_end(s, pos0),
                number == decimal_value_wrapped(s.subrange(pos0, self.current_pos as int)),
                decimal_value(s.subrange(pos0, self.current_pos as int)) <= i64::MAX ==> number
                    == decimal_value(s.subrange(pos0, self.current_pos as int)),
            decreases s.len() - self.current_pos,
        {
            let c_opt = self.current_char();
            match c_opt {
                Some(c) => {
                    if Self::is_number_start(&c) {
                        let ghost pos = self.current_pos as int;
                        let ghost p = s.subrange(pos0, pos);
                        let ghost p2 = s.subrange(pos0, pos + 1);
                        self.consume();
                        let d: i64 = (c as u32 - 48) as i64;
                        proof {
                            assert(p2.drop_last() =~= p);
                            assert(p2.last() == s[pos]);
                            assert(decimal_value(p2) == decimal_value(p) * 10 + digit_char_value(
                                s[pos],
                            ));
                            lemma_decimal_value_nonneg(p);
                            if decimal_value(p2) <= i64::MAX {
                                assert(decimal_value(p) <= decimal_value(p2));
                                assert(number == decimal_value(p));
                                assert(0 <= number * 10 + d <= i64::MAX);
                                assert((number * 10) % 0x1_0000_0000_0000_0000 == number * 10);
                            }
                        }
                        number = number.wrapping_mul(10).wrapping_add(d);
                    } else {
                        break;
                    }
                },
                None => {
                    break;
                },
            }
        }
        number
    }
}

} // verus!
