use vstd::prelude::*;

pub mod tokens;
pub use tokens::{NumericLiteral, NumericLiteralV, NumericType, PlainToken, TokenType, TokenV, plain_of, spelling};
use crate::text::{chars_of, string_from_chars};

verus! {

broadcast use vstd::std_specs::vec::group_vec_axioms, vstd::seq::group_seq_axioms;

/// A position in the source: line (from 1) and column (from 0).
#[derive(Debug, Clone, Copy, PartialEq, Eq, Structural)]
pub struct Span {
    pub line_number: usize,
    pub col: usize,
}

/// Why the source could not be split into tokens.
#[derive(Debug, Clone, Copy, PartialEq, Eq, Structural)]
pub enum LexerError {
    InvalidCharacter(char, Span),
}

/// A token and where it starts.
#[derive(Debug)]
pub struct Token {
    pub token_type: TokenType,
    pub location: Span,
}

/// Model of a [`Token`].
pub struct TokenSV {
    pub token_type: TokenV,
    pub location: Span,
}

impl View for Token {
    type V = TokenSV;

    open spec fn view(&self) -> TokenSV {
        TokenSV { token_type: self.token_type@, location: self.location }
    }
}

// ---------------------------------------------------------------------------
// Character classes
// ---------------------------------------------------------------------------

pub open spec fn is_digit_spec(c: char) -> bool {
    '0' <= c && c <= '9'
}

pub open spec fn is_alpha_spec(c: char) -> bool {
    ('a' <= c && c <= 'z') || ('A' <= c && c <= 'Z')
}

pub open spec fn is_alnum_spec(c: char) -> bool {
    is_digit_spec(c) || is_alpha_spec(c)
}

fn is_digit(c: char) -> (r: bool)
    ensures
        r == is_digit_spec(c),
{
    '0' <= c && c <= '9'
}

fn is_alpha(c: char) -> (r: bool)
    ensures
        r == is_alpha_spec(c),
{
    ('a' <= c && c <= 'z') || ('A' <= c && c <= 'Z')
}

fn is_alnum(c: char) -> (r: bool)
    ensures
        r == is_alnum_spec(c),
{
    is_digit(c) || is_alpha(c)
}

/// Sets `*flag`, failing with `InvalidCharacter(c, span)` if it was already set.
fn flip_or_err(flag: &mut bool, c: char, span: Span) -> (r: Result<(), LexerError>)
    ensures
        *old(flag) ==> r == Err::<(), LexerError>(LexerError::InvalidCharacter(c, span))
            && *final(flag),
        !*old(flag) ==> r is Ok && *final(flag),
{
    if *flag {
        Err(LexerError::InvalidCharacter(c, span))
    } else {
        *flag = true;
        Ok(())
    }
}

/// Splits source text into tokens.
///
/// `current` counts the characters consumed so far (a read past the end of
/// the text still counts one), and the text ends when `current` reaches
/// `len`, the length of the text in UTF-8 bytes.
pub struct Tokenizer {
    chars: Vec<char>,
    pos: usize,
    current: usize,
    col: usize,
    len: usize,
    line: usize,
}

// ---------------------------------------------------------------------------
// The model of the tokenizer: each step as a function on its state.
// ---------------------------------------------------------------------------

/// Model of a [`Tokenizer`]: the text, how many characters were consumed
/// (`pos`), the count of reads (`current`), the column and line, and the
/// length of the text in bytes.
pub struct LexState {
    pub chars: Seq<char>,
    pub pos: nat,
    pub current: nat,
    pub col: nat,
    pub line: nat,
    pub len: nat,
}

impl View for Tokenizer {
    type V = LexState;

    closed spec fn view(&self) -> LexState {
        LexState {
            chars: self.chars@,
            pos: self.pos as nat,
            current: self.current as nat,
            col: self.col as nat,
            line: self.line as nat,
            len: self.len as nat,
        }
    }
}

impl LexState {
    /// The state invariant: a read past the end happens at most once, and
    /// every counter stays below the bounds that keep it from overflowing.
    pub open spec fn wf(self) -> bool {
        &&& self.pos <= self.chars.len()
        &&& self.chars.len() <= self.len
        &&& self.pos <= self.current
        &&& (self.pos < self.chars.len() ==> self.current == self.pos)
        &&& self.current <= self.len
        &&& self.len < usize::MAX
        &&& self.col <= self.current
        &&& self.line <= self.pos + 1
    }

    /// The next character, or `'\0'` past the end.
    pub open spec fn spec_peek(self) -> char {
        if self.pos < self.chars.len() {
            self.chars[self.pos as int]
        } else {
            '\0'
        }
    }

    pub open spec fn spec_at_end(self) -> bool {
        self.current >= self.len
    }

    pub open spec fn spec_span(self) -> Span {
        Span { line_number: self.line as usize, col: self.col as usize }
    }

    /// Consumes one character (or reads past the end).
    pub open spec fn spec_advance(self) -> LexState {
        LexState {
            pos: if self.pos < self.chars.len() {
                self.pos + 1
            } else {
                self.pos
            },
            current: self.current + 1,
            col: self.col + 1,
            ..self
        }
    }

    /// Skips blanks, tabs, carriage returns and newlines; a newline starts a
    /// new line at column 0.
    pub open spec fn spec_skip_whitespace(self) -> LexState
        decreases self.chars.len() - self.pos,
    {
        if self.pos < self.chars.len() {
            let c = self.chars[self.pos as int];
            if c == '\n' {
                LexState {
                    line: self.line + 1,
                    pos: self.pos + 1,
                    current: self.current + 1,
                    col: 0,
                    ..self
                }.spec_skip_whitespace()
            } else if c == ' ' || c == '\r' || c == '\t' {
                LexState {
                    pos: self.pos + 1,
                    current: self.current + 1,
                    col: self.col + 1,
                    ..self
                }.spec_skip_whitespace()
            } else {
                self
            }
        } else {
            self
        }
    }

    /// Consumes a run of digits, appending them to `acc`.
    pub open spec fn spec_digits(self, acc: Seq<char>) -> (LexState, Seq<char>)
        decreases self.chars.len() - self.pos,
    {
        if self.pos < self.chars.len() && is_digit_spec(self.spec_peek()) {
            self.spec_advance().spec_digits(acc.push(self.spec_peek()))
        } else {
            (self, acc)
        }
    }

    /// The integer suffix loop: `l`/`L` and `u`/`U` letters change the kind,
    /// any other letter (or a repeated one) is an error.
    pub open spec fn spec_suffix(self, numtype: NumericType) -> Result<(LexState, NumericType), LexerError>
        decreases self.chars.len() - self.pos,
    {
        let letter = self.spec_peek();
        if self.pos < self.chars.len() && is_alpha_spec(letter) {
            if letter == 'l' || letter == 'L' {
                if numtype == NumericType::Int {
                    self.spec_advance().spec_suffix(NumericType::Long)
                } else if numtype == NumericType::UInt {
                    self.spec_advance().spec_suffix(NumericType::ULong)
                } else {
                    Err(LexerError::InvalidCharacter(letter, self.spec_advance().spec_span()))
                }
            } else if letter == 'u' || letter == 'U' {
                if numtype == NumericType::Int {
                    self.spec_advance().spec_suffix(NumericType::UInt)
                } else if numtype == NumericType::Long {
                    self.spec_advance().spec_suffix(NumericType::ULong)
                } else {
                    Err(LexerError::InvalidCharacter(letter, self.spec_advance().spec_span()))
                }
            } else {
                Err(LexerError::InvalidCharacter(letter, self.spec_span()))
            }
        } else {
            Ok((self, numtype))
        }
    }

    /// The fraction and exponent loop of a floating-point literal.
    pub open spec fn spec_float_part(
        self,
        acc: Seq<char>,
        numtype: NumericType,
        seen_point: bool,
        seen_exponent: bool,
    ) -> Result<(LexState, Seq<char>, NumericType), LexerError>
        decreases self.chars.len() - self.pos,
    {
        let letter = self.spec_peek();
        if self.pos < self.chars.len() && (is_alnum_spec(letter) || letter == '.') {
            if letter == '.' {
                if seen_exponent || seen_point {
                    Err(LexerError::InvalidCharacter(letter, self.spec_span()))
                } else {
                    let t1 = self.spec_advance();
                    let acc1 = acc.push(letter);
                    if numtype != NumericType::Int {
                        Err(LexerError::InvalidCharacter(letter, t1.spec_span()))
                    } else {
                        let nx = t1.spec_peek();
                        if (is_alpha_spec(nx) || nx == '_') && !(nx == 'e' || nx == 'E') {
                            Err(LexerError::InvalidCharacter(letter, t1.spec_span()))
                        } else {
                            t1.spec_float_part(acc1, NumericType::Double, true, seen_exponent)
                        }
                    }
                }
            } else if letter == 'e' || letter == 'E' {
                let t1 = self.spec_advance();
                let acc1 = acc.push(letter);
                if seen_exponent {
                    Err(LexerError::InvalidCharacter(letter, t1.spec_span()))
                } else if !(numtype == NumericType::Int || numtype == NumericType::Double) {
                    Err(LexerError::InvalidCharacter(letter, t1.spec_span()))
                } else {
                    let sg = t1.spec_peek();
                    if sg == '+' || sg == '-' {
                        let t2 = t1.spec_advance();
                        if !is_digit_spec(t2.spec_peek()) {
                            Err(LexerError::InvalidCharacter(letter, t2.spec_span()))
                        } else {
                            t2.spec_float_part(acc1.push(sg), NumericType::Double, seen_point, true)
                        }
                    } else if !is_digit_spec(sg) {
                        Err(LexerError::InvalidCharacter(letter, t1.spec_span()))
                    } else {
                        t1.spec_float_part(acc1, NumericType::Double, seen_point, true)
                    }
                }
            } else if is_digit_spec(letter) {
                self.spec_advance().spec_float_part(acc.push(letter), numtype, seen_point, seen_exponent)
            } else {
                Err(LexerError::InvalidCharacter(letter, self.spec_span()))
            }
        } else {
            Ok((self, acc, numtype))
        }
    }

    /// A numeric literal whose first character `first` has been consumed.
    pub open spec fn spec_scan_constant(self, first: char) -> Result<(LexState, NumericLiteralV), LexerError> {
        let seen_point = first == '.';
        let (t1, acc) = self.spec_digits(seq![first]);
        let p = t1.spec_peek();
        if is_alpha_spec(p) || p == '.' {
            if p == 'l' || p == 'L' || p == 'u' || p == 'U' {
                match t1.spec_suffix(NumericType::Int) {
                    Ok((t2, nt)) => Ok((t2, NumericLiteralV { numtype: nt, number: acc })),
                    Err(e) => Err(e),
                }
            } else if p == '.' || p == 'e' || p == 'E' {
                match t1.spec_float_part(acc, NumericType::Int, seen_point, false) {
                    Ok((t2, acc2, nt)) => Ok((t2, NumericLiteralV { numtype: nt, number: acc2 })),
                    Err(e) => Err(e),
                }
            } else {
                Err(LexerError::InvalidCharacter(p, t1.spec_span()))
            }
        } else if seen_point {
            Ok((t1, NumericLiteralV { numtype: NumericType::Double, number: acc }))
        } else {
            Ok((t1, NumericLiteralV { numtype: NumericType::Int, number: acc }))
        }
    }

    /// Consumes the rest of a word (letters, digits, underscores).
    pub open spec fn spec_word(self, acc: Seq<char>) -> (LexState, Seq<char>)
        decreases self.chars.len() - self.pos,
    {
        let c = self.spec_peek();
        if self.pos < self.chars.len() && (is_alnum_spec(c) || c == '_') {
            self.spec_advance().spec_word(acc.push(c))
        } else {
            (self, acc)
        }
    }

    /// A one- or two-character operator: `yes` if the next character is `next`.
    pub open spec fn spec_double_char(self, next: char, no: PlainToken, yes: PlainToken) -> (LexState, TokenV) {
        if self.spec_peek() != next {
            (self, TokenV::Plain(no))
        } else {
            (self.spec_advance(), TokenV::Plain(yes))
        }
    }

    /// An operator with two possible second characters.
    pub open spec fn spec_double_char_three(
        self,
        single: PlainToken,
        c1: char,
        t1: PlainToken,
        c2: char,
        t2: PlainToken,
    ) -> (LexState, TokenV) {
        let n = self.spec_peek();
        if n == c1 {
            (self.spec_advance(), TokenV::Plain(t1))
        } else if n == c2 {
            (self.spec_advance(), TokenV::Plain(t2))
        } else {
            (self, TokenV::Plain(single))
        }
    }

    /// The token that starts with `c`, which has been consumed; `start` is where it began.
    pub open spec fn spec_token_after(self, c: char, start: Span) -> Result<(LexState, TokenV), LexerError> {
        if c == '(' {
            Ok((self, TokenV::Plain(PlainToken::OpenParen)))
        } else if c == ')' {
            Ok((self, TokenV::Plain(PlainToken::CloseParen)))
        } else if c == '{' {
            Ok((self, TokenV::Plain(PlainToken::OpenBrace)))
        } else if c == '}' {
            Ok((self, TokenV::Plain(PlainToken::CloseBrace)))
        } else if c == ';' {
            Ok((self, TokenV::Plain(PlainToken::Semicolon)))
        } else if c == '~' {
            Ok((self, TokenV::Plain(PlainToken::Tilde)))
        } else if c == '?' {
            Ok((self, TokenV::Plain(PlainToken::QuestionMark)))
        } else if c == ':' {
            Ok((self, TokenV::Plain(PlainToken::Colon)))
        } else if c == ',' {
            Ok((self, TokenV::Plain(PlainToken::Comma)))
        } else if c == '*' {
            Ok(self.spec_double_char('=', PlainToken::Asterisk, PlainToken::AsteriskEqual))
        } else if c == '/' {
            Ok(self.spec_double_char('=', PlainToken::FwdSlash, PlainToken::FwdSlashEqual))
        } else if c == '%' {
            Ok(self.spec_double_char('=', PlainToken::Percent, PlainToken::PercentEqual))
        } else if c == '^' {
            Ok(self.spec_double_char('=', PlainToken::Caret, PlainToken::CaretEqual))
        } else if c == '!' {
            Ok(self.spec_double_char('=', PlainToken::Exclamation, PlainToken::NotEqual))
        } else if c == '&' {
            Ok(self.spec_double_char_three(PlainToken::Ampersand, '&', PlainToken::DoubleAmpersand, '=', PlainToken::AmpersandEqual))
        } else if c == '|' {
            Ok(self.spec_double_char_three(PlainToken::Pipe, '|', PlainToken::DoublePipe, '=', PlainToken::PipeEqual))
        } else if c == '-' {
            Ok(self.spec_double_char_three(PlainToken::Minus, '-', PlainToken::DoubleMinus, '=', PlainToken::MinusEqual))
        } else if c == '+' {
            Ok(self.spec_double_char_three(PlainToken::Plus, '+', PlainToken::DoublePlus, '=', PlainToken::PlusEqual))
        } else if c == '<' {
            let n = self.spec_peek();
            if n == '<' {
                Ok(self.spec_advance().spec_double_char('=', PlainToken::DoubleLeftAngled, PlainToken::DLAngledEqual))
            } else if n == '=' {
                Ok((self.spec_advance(), TokenV::Plain(PlainToken::LessOrEqual)))
            } else {
                Ok((self, TokenV::Plain(PlainToken::LessThan)))
            }
        } else if c == '>' {
            let n = self.spec_peek();
            if n == '>' {
                Ok(self.spec_advance().spec_double_char('=', PlainToken::DoubleRightAngled, PlainToken::DRAngledEqual))
            } else if n == '=' {
                Ok((self.spec_advance(), TokenV::Plain(PlainToken::GreaterOrEqual)))
            } else {
                Ok((self, TokenV::Plain(PlainToken::GreaterThan)))
            }
        } else if c == '=' {
            Ok(self.spec_double_char('=', PlainToken::Equal, PlainToken::DoubleEqual))
        } else if is_digit_spec(c) || c == '.' {
            match self.spec_scan_constant(c) {
                Ok((t, lit)) => Ok((t, TokenV::NumericConstant(lit))),
                Err(e) => Err(e),
            }
        } else if is_alpha_spec(c) || c == '_' {
            let (t, w) = self.spec_word(seq![c]);
            Ok((t, keyword_or_ident(w)))
        } else {
            Err(LexerError::InvalidCharacter(c, start))
        }
    }

    /// The next token, `None` at the end of the text.
    pub open spec fn spec_next_token(self) -> Result<(LexState, Option<TokenSV>), LexerError> {
        let t0 = self.spec_skip_whitespace();
        if t0.spec_at_end() {
            Ok((t0, None))
        } else {
            let start = t0.spec_span();
            let c = t0.spec_peek();
            match t0.spec_advance().spec_token_after(c, start) {
                Ok((t1, tok)) => Ok((t1, Some(TokenSV { token_type: tok, location: start }))),
                Err(e) => Err(e),
            }
        }
    }

    /// All the remaining tokens.
    pub open spec fn spec_tokenize(self) -> Result<Seq<TokenSV>, LexerError>
        decreases self.chars.len() + 1 - self.pos,
    {
        match self.spec_next_token() {
            Ok((t1, Some(tok))) => {
                if self.wf() && t1.chars == self.chars && t1.pos > self.pos && t1.pos <= self.chars.len() {
                    match t1.spec_tokenize() {
                        Ok(rest) => Ok(seq![tok] + rest),
                        Err(e) => Err(e),
                    }
                } else {
                    Ok(seq![tok])
                }
            },
            Ok((_, None)) => Ok(seq![]),
            Err(e) => Err(e),
        }
    }
}

/// The keywords of the language, and the identifier a word is otherwise.
pub open spec fn keyword_or_ident(w: Seq<char>) -> TokenV {
    if w == seq!['r', 'e', 't', 'u', 'r', 'n'] {
        TokenV::Plain(PlainToken::Return)
    } else if w == seq!['i', 'n', 't'] {
        TokenV::Plain(PlainToken::Int)
    } else if w == seq!['v', 'o', 'i', 'd'] {
        TokenV::Plain(PlainToken::Void)
    } else if w == seq!['i', 'f'] {
        TokenV::Plain(PlainToken::If)
    } else if w == seq!['e', 'l', 's', 'e'] {
        TokenV::Plain(PlainToken::Else)
    } else if w == seq!['g', 'o', 't', 'o'] {
        TokenV::Plain(PlainToken::Goto)
    } else if w == seq!['d', 'o'] {
        TokenV::Plain(PlainToken::Do)
    } else if w == seq!['w', 'h', 'i', 'l', 'e'] {
        TokenV::Plain(PlainToken::While)
    } else if w == seq!['f', 'o', 'r'] {
        TokenV::Plain(PlainToken::For)
    } else if w == seq!['b', 'r', 'e', 'a', 'k'] {
        TokenV::Plain(PlainToken::Break)
    } else if w == seq!['c', 'o', 'n', 't', 'i', 'n', 'u', 'e'] {
        TokenV::Plain(PlainToken::Continue)
    } else if w == seq!['s', 'w', 'i', 't', 'c', 'h'] {
        TokenV::Plain(PlainToken::Switch)
    } else if w == seq!['c', 'a', 's', 'e'] {
        TokenV::Plain(PlainToken::Case)
    } else if w == seq!['d', 'e', 'f', 'a', 'u', 'l', 't'] {
        TokenV::Plain(PlainToken::Default)
    } else if w == seq!['s', 't', 'a', 't', 'i', 'c'] {
        TokenV::Plain(PlainToken::Static)
    } else if w == seq!['e', 'x', 't', 'e', 'r', 'n'] {
        TokenV::Plain(PlainToken::Extern)
    } else if w == seq!['l', 'o', 'n', 'g'] {
        TokenV::Plain(PlainToken::Long)
    } else if w == seq!['s', 'i', 'g', 'n', 'e', 'd'] {
        TokenV::Plain(PlainToken::Signed)
    } else if w == seq!['u', 'n', 's', 'i', 'g', 'n', 'e', 'd'] {
        TokenV::Plain(PlainToken::Unsigned)
    } else if w == seq!['d', 'o', 'u', 'b', 'l', 'e'] {
        TokenV::Plain(PlainToken::Double)
    } else {
        TokenV::Identifier(w)
    }
}

} // verus!

verus! {

/// Whether `w` spells exactly `kw`.
fn chars_eq(w: &Vec<char>, kw: &[char]) -> (r: bool)
    ensures
        r == (w@ == kw@),
{
    if w.len() != kw.len() {
        return false;
    }
    let mut i: usize = 0;
    while i < w.len()
        invariant
            i <= w@.len(),
            w@.len() == kw@.len(),
            forall|j: int| 0 <= j < i ==> w@[j] == kw@[j],
        decreases w@.len() - i,
    {
        if w[i] != kw[i] {
            return false;
        }
        i = i + 1;
    }
    assert(w@ =~= kw@);
    true
}

/// The keyword that `w` spells, if any.
fn keyword_token(w: &Vec<char>) -> (r: Option<TokenType>)
    ensures
        match keyword_or_ident(w@) {
            TokenV::Plain(p) => r is Some && r->0@ == TokenV::Plain(p),
            _ => r is None,
        },
{
    if chars_eq(w, &['r', 'e', 't', 'u', 'r', 'n']) {
        Some(TokenType::Return)
    } else if chars_eq(w, &['i', 'n', 't']) {
        Some(TokenType::Int)
    } else if chars_eq(w, &['v', 'o', 'i', 'd']) {
        Some(TokenType::Void)
    } else if chars_eq(w, &['i', 'f']) {
        Some(TokenType::If)
    } else if chars_eq(w, &['e', 'l', 's', 'e']) {
        Some(TokenType::Else)
    } else if chars_eq(w, &['g', 'o', 't', 'o']) {
        Some(TokenType::Goto)
    } else if chars_eq(w, &['d', 'o']) {
        Some(TokenType::Do)
    } else if chars_eq(w, &['w', 'h', 'i', 'l', 'e']) {
        Some(TokenType::While)
    } else if chars_eq(w, &['f', 'o', 'r']) {
        Some(TokenType::For)
    } else if chars_eq(w, &['b', 'r', 'e', 'a', 'k']) {
        Some(TokenType::Break)
    } else if chars_eq(w, &['c', 'o', 'n', 't', 'i', 'n', 'u', 'e']) {
        Some(TokenType::Continue)
    } else if chars_eq(w, &['s', 'w', 'i', 't', 'c', 'h']) {
        Some(TokenType::Switch)
    } else if chars_eq(w, &['c', 'a', 's', 'e']) {
        Some(TokenType::Case)
    } else if chars_eq(w, &['d', 'e', 'f', 'a', 'u', 'l', 't']) {
        Some(TokenType::Default)
    } else if chars_eq(w, &['s', 't', 'a', 't', 'i', 'c']) {
        Some(TokenType::Static)
    } else if chars_eq(w, &['e', 'x', 't', 'e', 'r', 'n']) {
        Some(TokenType::Extern)
    } else if chars_eq(w, &['l', 'o', 'n', 'g']) {
        Some(TokenType::Long)
    } else if chars_eq(w, &['s', 'i', 'g', 'n', 'e', 'd']) {
        Some(TokenType::Signed)
    } else if chars_eq(w, &['u', 'n', 's', 'i', 'g', 'n', 'e', 'd']) {
        Some(TokenType::Unsigned)
    } else if chars_eq(w, &['d', 'o', 'u', 'b', 'l', 'e']) {
        Some(TokenType::Double)
    } else {
        None
    }
}

/// Model of a list of tokens.
pub open spec fn tokens_view(ts: Seq<Token>) -> Seq<TokenSV> {
    ts.map_values(|t: Token| t@)
}

/// Model of an optional token.
pub open spec fn opt_token_view(o: Option<Token>) -> Option<TokenSV> {
    match o {
        Some(t) => Some(t@),
        None => None,
    }
}

/// The number of bytes of the UTF-8 encoding is at least the number of characters.
proof fn lemma_utf8_len(s: Seq<char>)
    ensures
        vstd::utf8::encode_utf8(s).len() >= s.len(),
    decreases s.len(),
{
    if s.len() > 0 {
        lemma_utf8_len(s.drop_first());
        assert(vstd::utf8::encode_scalar(s[0] as u32).len() >= 1);
    }
}

impl Tokenizer {
    /// A tokenizer at the start of `source`, on line 1, column 0.
    pub fn new(source: String) -> (r: Tokenizer)
        requires
            vstd::utf8::encode_utf8(source@).len() < usize::MAX,
        ensures
            r@.wf(),
            r@.chars == source@,
            r@.pos == 0,
            r@.current == 0,
            r@.line == 1,
            r@.col == 0,
            r@.len == vstd::utf8::encode_utf8(source@).len(),
    {
        let chars = chars_of(&source);
        let len = source.as_str().len();
        proof {
            lemma_utf8_len(source@);
        }
        Tokenizer { chars, current: 0, col: 0, len, line: 1, pos: 0 }
    }

    fn advance(&mut self) -> (c: char)
        requires
            old(self)@.wf(),
            old(self)@.current < old(self)@.len,
        ensures
            c == old(self)@.spec_peek(),
            final(self)@ == old(self)@.spec_advance(),
            final(self)@.wf(),
    {
        let c = self.peek();
        if self.pos < self.chars.len() {
            self.pos = self.pos + 1;
        }
        self.current = self.current + 1;
        self.col = self.col + 1;
        c
    }

    fn skip_whitespace(&mut self)
        requires
            old(self)@.wf(),
        ensures
            final(self)@ == old(self)@.spec_skip_whitespace(),
            final(self)@.wf(),
            final(self)@.pos >= old(self)@.pos,
            final(self)@.chars == old(self)@.chars,
    {
        while self.pos < self.chars.len()
            invariant_except_break
                self@.wf(),
                self@.spec_skip_whitespace() == old(self)@.spec_skip_whitespace(),
                self@.pos >= old(self)@.pos,
                self@.chars == old(self)@.chars,
            ensures
                self@.wf(),
                self@ == old(self)@.spec_skip_whitespace(),
                self@.pos >= old(self)@.pos,
                self@.chars == old(self)@.chars,
            decreases self@.chars.len() - self@.pos,
        {
            let c = self.chars[self.pos];
            if c == '\n' {
                self.line = self.line + 1;
                self.pos = self.pos + 1;
                self.current = self.current + 1;
                self.col = 0;
            } else if c == ' ' || c == '\r' || c == '\t' {
                self.pos = self.pos + 1;
                self.current = self.current + 1;
                self.col = self.col + 1;
            } else {
                break;
            }
        }
    }

    fn at_end(&self) -> (r: bool)
        ensures
            r == self@.spec_at_end(),
    {
        self.current >= self.len
    }

    fn peek(&self) -> (c: char)
        requires
            self@.wf(),
        ensures
            c == self@.spec_peek(),
    {
        if self.pos < self.chars.len() {
            self.chars[self.pos]
        } else {
            '\0'
        }
    }

    fn make_span(&self) -> (s: Span)
        ensures
            s == self@.spec_span(),
    {
        Span { line_number: self.line, col: self.col }
    }

    fn is_double_char(&mut self, nextchar: char, no: TokenType, yes: TokenType) -> (r: TokenType)
        requires
            old(self)@.wf(),
            nextchar != '\0',
        ensures
            final(self)@.wf(),
            final(self)@.chars == old(self)@.chars,
            final(self)@.pos >= old(self)@.pos,
            old(self)@.spec_peek() != nextchar ==> r == no && final(self)@ == old(self)@,
            old(self)@.spec_peek() == nextchar ==> r == yes && final(self)@ == old(self)@.spec_advance(),
    {
        if self.peek() != nextchar {
            no
        } else {
            self.advance();
            yes
        }
    }

    fn is_double_char_three(
        &mut self,
        not_double_char: TokenType,
        firstchar: char,
        first: TokenType,
        secondchar: char,
        second: TokenType,
    ) -> (r: TokenType)
        requires
            old(self)@.wf(),
            firstchar != '\0',
            secondchar != '\0',
        ensures
            final(self)@.wf(),
            final(self)@.chars == old(self)@.chars,
            final(self)@.pos >= old(self)@.pos,
            old(self)@.spec_peek() == firstchar ==> r == first && final(self)@ == old(self)@.spec_advance(),
            old(self)@.spec_peek() != firstchar && old(self)@.spec_peek() == secondchar ==> r == second
                && final(self)@ == old(self)@.spec_advance(),
            old(self)@.spec_peek() != firstchar && old(self)@.spec_peek() != secondchar ==> r
                == not_double_char && final(self)@ == old(self)@,
    {
        let next = self.peek();
        if next == firstchar {
            self.advance();
            first
        } else if next == secondchar {
            self.advance();
            second
        } else {
            not_double_char
        }
    }

    /// The keyword that `lexeme` spells, if it is one.
    fn parse_keyword(&self, lexeme: &Vec<char>) -> (r: Option<TokenType>)
        ensures
            match keyword_or_ident(lexeme@) {
                TokenV::Plain(p) => r is Some && r->0@ == TokenV::Plain(p),
                _ => r is None,
            },
    {
        keyword_token(lexeme)
    }

    /// An identifier or keyword whose first character `first` was consumed.
    fn scan_text(&mut self, first: char) -> (r: TokenType)
        requires
            old(self)@.wf(),
        ensures
            final(self)@.wf(),
            final(self)@.chars == old(self)@.chars,
            final(self)@.pos >= old(self)@.pos,
            (final(self)@, r@) == ({
                let (t, w) = old(self)@.spec_word(seq![first]);
                (t, keyword_or_ident(w))
            }),
    {
        let mut word: Vec<char> = Vec::new();
        word.push(first);
        while is_alnum(self.peek()) || self.peek() == '_'
            invariant
                self@.wf(),
                self@.chars == old(self)@.chars,
                self@.pos >= old(self)@.pos,
                self@.spec_word(word@) == old(self)@.spec_word(seq![first]),
            decreases self@.chars.len() - self@.pos,
        {
            let c = self.advance();
            word.push(c);
        }
        match self.parse_keyword(&word) {
            Some(tokentype) => tokentype,
            None => TokenType::Identifier(string_from_chars(&word)),
        }
    }

    /// The suffix letters of an integer literal (`l`, `L`, `u`, `U`).
    fn scan_suffix(&mut self, numtype: NumericType) -> (r: Result<NumericType, LexerError>)
        requires
            old(self)@.wf(),
        ensures
            final(self)@.wf(),
            final(self)@.chars == old(self)@.chars,
            final(self)@.pos >= old(self)@.pos,
            match old(self)@.spec_suffix(numtype) {
                Ok((t, nt)) => r == Ok::<NumericType, LexerError>(nt) && final(self)@ == t,
                Err(e) => r == Err::<NumericType, LexerError>(e),
            },
        decreases old(self)@.chars.len() - old(self)@.pos,
    {
        let letter = self.peek();
        if self.pos < self.chars.len() && is_alpha(letter) {
            if letter == 'l' || letter == 'L' {
                self.advance();
                if numtype == NumericType::Int {
                    self.scan_suffix(NumericType::Long)
                } else if numtype == NumericType::UInt {
                    self.scan_suffix(NumericType::ULong)
                } else {
                    Err(LexerError::InvalidCharacter(letter, self.make_span()))
                }
            } else if letter == 'u' || letter == 'U' {
                self.advance();
                if numtype == NumericType::Int {
                    self.scan_suffix(NumericType::UInt)
                } else if numtype == NumericType::Long {
                    self.scan_suffix(NumericType::ULong)
                } else {
                    Err(LexerError::InvalidCharacter(letter, self.make_span()))
                }
            } else {
                Err(LexerError::InvalidCharacter(letter, self.make_span()))
            }
        } else {
            Ok(numtype)
        }
    }

    /// The fraction and exponent of a floating-point literal, appended to `number`.
    fn scan_float_part(
        &mut self,
        number: &mut Vec<char>,
        numtype: NumericType,
        seen_point: bool,
        seen_exponent: bool,
    ) -> (r: Result<NumericType, LexerError>)
        requires
            old(self)@.wf(),
        ensures
            final(self)@.wf(),
            final(self)@.chars == old(self)@.chars,
            final(self)@.pos >= old(self)@.pos,
            match old(self)@.spec_float_part(old(number)@, numtype, seen_point, seen_exponent) {
                Ok((t, acc, nt)) => r == Ok::<NumericType, LexerError>(nt) && final(self)@ == t
                    && final(number)@ == acc,
                Err(e) => r == Err::<NumericType, LexerError>(e),
            },
        decreases old(self)@.chars.len() - old(self)@.pos,
    {
        let letter = self.peek();
        if self.pos < self.chars.len() && (is_alnum(letter) || letter == '.') {
            if letter == '.' {
                if seen_exponent {
                    return Err(LexerError::InvalidCharacter(letter, self.make_span()));
                }
                let mut point = seen_point;
                flip_or_err(&mut point, letter, self.make_span())?;
                let c = self.advance();
                number.push(c);
                if numtype != NumericType::Int {
                    return Err(LexerError::InvalidCharacter(letter, self.make_span()));
                }
                let nx = self.peek();
                if (is_alpha(nx) || nx == '_') && !(nx == 'e' || nx == 'E') {
                    return Err(LexerError::InvalidCharacter(letter, self.make_span()));
                }
                self.scan_float_part(number, NumericType::Double, true, seen_exponent)
            } else if letter == 'e' || letter == 'E' {
                let c = self.advance();
                number.push(c);
                let mut exponent = seen_exponent;
                flip_or_err(&mut exponent, letter, self.make_span())?;
                if !(numtype == NumericType::Int || numtype == NumericType::Double) {
                    return Err(LexerError::InvalidCharacter(letter, self.make_span()));
                }
                let sg = self.peek();
                if sg == '+' || sg == '-' {
                    let c2 = self.advance();
                    number.push(c2);
                    if !is_digit(self.peek()) {
                        return Err(LexerError::InvalidCharacter(letter, self.make_span()));
                    }
                } else if !is_digit(sg) {
                    return Err(LexerError::InvalidCharacter(letter, self.make_span()));
                }
                self.scan_float_part(number, NumericType::Double, seen_point, true)
            } else if is_digit(letter) {
                let c = self.advance();
                number.push(c);
                self.scan_float_part(number, numtype, seen_point, seen_exponent)
            } else {
                Err(LexerError::InvalidCharacter(letter, self.make_span()))
            }
        } else {
            Ok(numtype)
        }
    }

    /// A numeric literal whose first character `first` (a digit or a point) was consumed.
    fn scan_constant(&mut self, first: char) -> (r: Result<TokenType, LexerError>)
        requires
            old(self)@.wf(),
        ensures
            final(self)@.wf(),
            final(self)@.chars == old(self)@.chars,
            final(self)@.pos >= old(self)@.pos,
            match old(self)@.spec_scan_constant(first) {
                Ok((t, lit)) => r is Ok && final(self)@ == t && r->Ok_0@ == TokenV::NumericConstant(lit),
                Err(e) => r == Err::<TokenType, LexerError>(e),
            },
    {
        let ghost s0 = self@;
        let mut number: Vec<char> = Vec::new();
        number.push(first);
        let seen_point = first == '.';
        while is_digit(self.peek())
            invariant
                self@.wf(),
                self@.chars == s0.chars,
                self@.pos >= s0.pos,
                self@.spec_digits(number@) == s0.spec_digits(seq![first]),
            decreases self@.chars.len() - self@.pos,
        {
            let c = self.advance();
            number.push(c);
        }
        let p = self.peek();
        let numtype = if is_alpha(p) || p == '.' {
            if p == 'l' || p == 'L' || p == 'u' || p == 'U' {
                self.scan_suffix(NumericType::Int)?
            } else if p == '.' || p == 'e' || p == 'E' {
                self.scan_float_part(&mut number, NumericType::Int, seen_point, false)?
            } else {
                return Err(LexerError::InvalidCharacter(p, self.make_span()));
            }
        } else if seen_point {
            NumericType::Double
        } else {
            NumericType::Int
        };
        Ok(TokenType::NumericConstant(NumericLiteral { numtype, number: string_from_chars(&number) }))
    }

    /// The token that starts with `c`, which was just consumed at `start`.
    fn token_after(&mut self, c: char, start: Span) -> (r: Result<TokenType, LexerError>)
        requires
            old(self)@.wf(),
        ensures
            final(self)@.wf(),
            final(self)@.chars == old(self)@.chars,
            final(self)@.pos >= old(self)@.pos,
            match old(self)@.spec_token_after(c, start) {
                Ok((t, tok)) => r is Ok && final(self)@ == t && r->Ok_0@ == tok,
                Err(e) => r == Err::<TokenType, LexerError>(e),
            },
    {
        let token_type = if c == '(' {
            TokenType::OpenParen
        } else if c == ')' {
            TokenType::CloseParen
        } else if c == '{' {
            TokenType::OpenBrace
        } else if c == '}' {
            TokenType::CloseBrace
        } else if c == ';' {
            TokenType::Semicolon
        } else if c == '~' {
            TokenType::Tilde
        } else if c == '?' {
            TokenType::QuestionMark
        } else if c == ':' {
            TokenType::Colon
        } else if c == ',' {
            TokenType::Comma
        } else if c == '*' {
            self.is_double_char('=', TokenType::Asterisk, TokenType::AsteriskEqual)
        } else if c == '/' {
            self.is_double_char('=', TokenType::FwdSlash, TokenType::FwdSlashEqual)
        } else if c == '%' {
            self.is_double_char('=', TokenType::Percent, TokenType::PercentEqual)
        } else if c == '^' {
            self.is_double_char('=', TokenType::Caret, TokenType::CaretEqual)
        } else if c == '!' {
            self.is_double_char('=', TokenType::Exclamation, TokenType::NotEqual)
        } else if c == '&' {
            self.is_double_char_three(TokenType::Ampersand, '&', TokenType::DoubleAmpersand, '=', TokenType::AmpersandEqual)
        } else if c == '|' {
            self.is_double_char_three(TokenType::Pipe, '|', TokenType::DoublePipe, '=', TokenType::PipeEqual)
        } else if c == '-' {
            self.is_double_char_three(TokenType::Minus, '-', TokenType::DoubleMinus, '=', TokenType::MinusEqual)
        } else if c == '+' {
            self.is_double_char_three(TokenType::Plus, '+', TokenType::DoublePlus, '=', TokenType::PlusEqual)
        } else if c == '<' {
            let n = self.peek();
            if n == '<' {
                self.advance();
                self.is_double_char('=', TokenType::DoubleLeftAngled, TokenType::DLAngledEqual)
            } else if n == '=' {
                self.advance();
                TokenType::LessOrEqual
            } else {
                TokenType::LessThan
            }
        } else if c == '>' {
            let n = self.peek();
            if n == '>' {
                self.advance();
                self.is_double_char('=', TokenType::DoubleRightAngled, TokenType::DRAngledEqual)
            } else if n == '=' {
                self.advance();
                TokenType::GreaterOrEqual
            } else {
                TokenType::GreaterThan
            }
        } else if c == '=' {
            self.is_double_char('=', TokenType::Equal, TokenType::DoubleEqual)
        } else if is_digit(c) || c == '.' {
            self.scan_constant(c)?
        } else if is_alpha(c) || c == '_' {
            self.scan_text(c)
        } else {
            return Err(LexerError::InvalidCharacter(c, start));
        };
        Ok(token_type)
    }

    /// The next token, or `None` once the text is used up.
    fn next_token(&mut self) -> (r: Result<Option<Token>, LexerError>)
        requires
            old(self)@.wf(),
        ensures
            final(self)@.wf(),
            final(self)@.chars == old(self)@.chars,
            final(self)@.pos >= old(self)@.pos,
            r matches Ok(Some(_)) ==> final(self)@.pos > old(self)@.pos,
            match old(self)@.spec_next_token() {
                Ok((t, tok)) => r is Ok && final(self)@ == t && opt_token_view(r->Ok_0) == tok,
                Err(e) => r == Err::<Option<Token>, LexerError>(e),
            },
    {
        self.skip_whitespace();
        if self.at_end() {
            return Ok(None);
        }
        let start_location = self.make_span();
        let c = self.advance();
        let token_type = self.token_after(c, start_location)?;
        Ok(Some(Token { token_type, location: start_location }))
    }

    /// Splits the rest of the text into tokens.
    pub fn tokenize(&mut self) -> (r: Result<Vec<Token>, LexerError>)
        requires
            old(self)@.wf(),
        ensures
            match old(self)@.spec_tokenize() {
                Ok(ts) => r is Ok && tokens_view(r->Ok_0@) == ts,
                Err(e) => r == Err::<Vec<Token>, LexerError>(e),
            },
    {
        let mut tokens: Vec<Token> = Vec::new();
        loop
            invariant
                self@.wf(),
                old(self)@.spec_tokenize() == match self@.spec_tokenize() {
                    Ok(rest) => Ok(tokens_view(tokens@) + rest),
                    Err(e) => Err(e),
                },
            decreases self@.chars.len() + 1 - self@.pos,
        {
            let ghost before = self@;
            let next = self.next_token();
            match next {
                Ok(Some(token)) => {
                    proof {
                        let tv = token@;
                        assert(tokens_view(tokens@.push(token)) == tokens_view(tokens@).push(tv));
                        match self@.spec_tokenize() {
                            Ok(rest) => {
                                assert(tokens_view(tokens@).push(tv) + rest == tokens_view(tokens@) + (seq![tv] + rest));
                            },
                            Err(_) => {},
                        }
                    }
                    tokens.push(token);
                },
                Ok(None) => {
                    proof {
                        assert(tokens_view(tokens@) + seq![] == tokens_view(tokens@));
                    }
                    return Ok(tokens);
                },
                Err(e) => {
                    return Err(e);
                },
            }
        }
    }
}

} // verus!

verus! {

/// Reading a word consumes exactly the characters it appends.
proof fn lemma_word_reads(st: LexState, acc: Seq<char>)
    requires
        st.pos <= st.chars.len(),
    ensures
        st.spec_word(acc).0.chars == st.chars,
        st.pos <= st.spec_word(acc).0.pos <= st.chars.len(),
        st.spec_word(acc).1 == acc + st.chars.subrange(st.pos as int, st.spec_word(acc).0.pos as int),
    decreases st.chars.len() - st.pos,
{
    let c = st.spec_peek();
    if st.pos < st.chars.len() && (is_alnum_spec(c) || c == '_') {
        let nx = st.spec_advance();
        lemma_word_reads(nx, acc.push(c));
        let e = nx.spec_word(acc.push(c)).0.pos;
        assert(acc.push(c) + st.chars.subrange(nx.pos as int, e as int) =~= acc + st.chars.subrange(st.pos as int, e as int));
    } else {
        assert(st.chars.subrange(st.pos as int, st.pos as int) =~= Seq::<char>::empty());
        assert(acc + Seq::<char>::empty() =~= acc);
    }
}

/// Skipping blanks keeps the text and stays within it.
proof fn lemma_skip_stays(st: LexState)
    requires
        st.pos <= st.chars.len(),
    ensures
        st.spec_skip_whitespace().chars == st.chars,
        st.pos <= st.spec_skip_whitespace().pos <= st.chars.len(),
    decreases st.chars.len() - st.pos,
{
    if st.pos < st.chars.len() {
        let c = st.chars[st.pos as int];
        if c == '\n' {
            lemma_skip_stays(LexState { line: st.line + 1, pos: st.pos + 1, current: st.current + 1, col: 0, ..st });
        } else if c == ' ' || c == '\r' || c == '\t' {
            lemma_skip_stays(LexState { pos: st.pos + 1, current: st.current + 1, col: st.col + 1, ..st });
        }
    }
}

/// The text of the token that starts with `c` is `c` followed by what was read after it.
proof fn lemma_token_after_reads(st: LexState, c: char, start: Span)
    requires
        st.pos <= st.chars.len(),
    ensures
        match st.spec_token_after(c, start) {
            Ok((t1, TokenV::Plain(p))) => {
                &&& t1.chars == st.chars
                &&& st.pos <= t1.pos <= st.chars.len()
                &&& seq![c] + st.chars.subrange(st.pos as int, t1.pos as int) == spelling(p)
            },
            Ok((t1, TokenV::Identifier(w))) => {
                &&& t1.chars == st.chars
                &&& st.pos <= t1.pos <= st.chars.len()
                &&& seq![c] + st.chars.subrange(st.pos as int, t1.pos as int) == w
            },
            _ => true,
        },
{
    let n = st.spec_peek();
    let a = st.spec_advance();
    let here = st.chars.subrange(st.pos as int, st.pos as int);
    assert(here =~= Seq::<char>::empty());
    assert(seq![c] + here =~= seq![c]);
    if st.pos < st.chars.len() {
        assert(st.chars.subrange(st.pos as int, a.pos as int) =~= seq![n]);
        assert(seq![c] + st.chars.subrange(st.pos as int, a.pos as int) =~= seq![c, n]);
        if a.pos < a.chars.len() {
            let n2 = a.spec_peek();
            assert(st.chars.subrange(st.pos as int, a.spec_advance().pos as int) =~= seq![n, n2]);
            assert(seq![c] + st.chars.subrange(st.pos as int, a.spec_advance().pos as int) =~= seq![c, n, n2]);
        }
    }
    if is_alpha_spec(c) || c == '_' {
        lemma_word_reads(st, seq![c]);
    }
}

/// Law: a token is spelled by exactly the characters it was read from.
/// After the blanks are skipped, the text from where the token starts to
/// where reading stopped is the spelling of the operator or keyword it is,
/// or the identifier's own name. So `!=` reads as `NotEqual`, and only `==`
/// reads as `DoubleEqual`.
pub proof fn lemma_token_spelled_as_read(st: LexState)
    requires
        st.wf(),
    ensures
        match st.spec_next_token() {
            Ok((t1, Some(tok))) => {
                let t0 = st.spec_skip_whitespace();
                &&& (tok.token_type matches TokenV::Plain(p) ==> {
                    &&& t0.pos < t1.pos <= st.chars.len()
                    &&& st.chars.subrange(t0.pos as int, t1.pos as int) == spelling(p)
                })
                &&& (tok.token_type matches TokenV::Identifier(w) ==> {
                    &&& t0.pos < t1.pos <= st.chars.len()
                    &&& st.chars.subrange(t0.pos as int, t1.pos as int) == w
                })
            },
            _ => true,
        },
{
    let t0 = st.spec_skip_whitespace();
    lemma_skip_stays(st);
    if !t0.spec_at_end() {
        let c = t0.spec_peek();
        let a = t0.spec_advance();
        lemma_token_after_reads(a, c, t0.spec_span());
        if t0.pos < t0.chars.len() {
            match a.spec_token_after(c, t0.spec_span()) {
                Ok((t1, TokenV::Plain(_))) => {
                    assert(st.chars.subrange(t0.pos as int, t1.pos as int) =~= seq![c] + st.chars.subrange(a.pos as int, t1.pos as int));
                },
                Ok((t1, TokenV::Identifier(_))) => {
                    assert(st.chars.subrange(t0.pos as int, t1.pos as int) =~= seq![c] + st.chars.subrange(a.pos as int, t1.pos as int));
                },
                _ => {},
            }
        }
    }
}

} // verus!
