use vstd::prelude::*;

pub mod ast;
pub mod decl;
pub mod expr;
pub mod stmt;

use crate::lexer::{NumericType, PlainToken, Span, Token, TokenSV, TokenType, TokenV, tokens_view};
use crate::types::{Type, TypeV};
use crate::parser::ast::{Expression, ExpressionKind};

verus! {

broadcast use vstd::std_specs::vec::group_vec_axioms, vstd::seq::group_seq_axioms;

/// Why a list of tokens is not a program.
#[derive(Debug)]
pub enum ParseError {
    UnexpectedToken(TokenType, Span),
    UnexpectedEOF,
    ExpectedStatement(Span),
    ExpectedIdentifier(Span),
    ExpectedExpression(Span),
    ExpectedVarDecl(Span),
    ExpectedParam(Span),
    LabelWithoutStatement(Span),
    InvalidTypes(Span),
    InvalidStorageClasses(Span),
    IntegerOverflow(Span),
    InvalidFloat(Span),
    MissingType(Span),
    InvalidDeclarator(Span),
}

/// Model of a [`ParseError`].
pub enum ParseErrorV {
    UnexpectedToken(TokenV, Span),
    UnexpectedEOF,
    ExpectedStatement(Span),
    ExpectedIdentifier(Span),
    ExpectedExpression(Span),
    ExpectedVarDecl(Span),
    ExpectedParam(Span),
    LabelWithoutStatement(Span),
    InvalidTypes(Span),
    InvalidStorageClasses(Span),
    IntegerOverflow(Span),
    InvalidFloat(Span),
    MissingType(Span),
    InvalidDeclarator(Span),
}

impl View for ParseError {
    type V = ParseErrorV;

    open spec fn view(&self) -> ParseErrorV {
        match self {
            ParseError::UnexpectedToken(t, s) => ParseErrorV::UnexpectedToken(t@, *s),
            ParseError::UnexpectedEOF => ParseErrorV::UnexpectedEOF,
            ParseError::ExpectedStatement(s) => ParseErrorV::ExpectedStatement(*s),
            ParseError::ExpectedIdentifier(s) => ParseErrorV::ExpectedIdentifier(*s),
            ParseError::ExpectedExpression(s) => ParseErrorV::ExpectedExpression(*s),
            ParseError::ExpectedVarDecl(s) => ParseErrorV::ExpectedVarDecl(*s),
            ParseError::ExpectedParam(s) => ParseErrorV::ExpectedParam(*s),
            ParseError::LabelWithoutStatement(s) => ParseErrorV::LabelWithoutStatement(*s),
            ParseError::InvalidTypes(s) => ParseErrorV::InvalidTypes(*s),
            ParseError::InvalidStorageClasses(s) => ParseErrorV::InvalidStorageClasses(*s),
            ParseError::IntegerOverflow(s) => ParseErrorV::IntegerOverflow(*s),
            ParseError::InvalidFloat(s) => ParseErrorV::InvalidFloat(*s),
            ParseError::MissingType(s) => ParseErrorV::MissingType(*s),
            ParseError::InvalidDeclarator(s) => ParseErrorV::InvalidDeclarator(*s),
        }
    }
}

/// Model of the parser: the tokens, how many were consumed, and where the
/// last one consumed starts.
pub struct PState {
    pub toks: Seq<TokenSV>,
    pub pos: nat,
    pub span: Span,
}

impl PState {
    /// The next token, if any.
    pub open spec fn peek(self) -> Option<TokenSV> {
        if self.pos < self.toks.len() {
            Some(self.toks[self.pos as int])
        } else {
            None
        }
    }

    /// Whether the next token is `p`.
    pub open spec fn next_is(self, p: PlainToken) -> bool {
        self.peek() matches Some(t) && t.token_type == TokenV::Plain(p)
    }

    /// The kind of the next token; an error at the end.
    pub open spec fn next_type(self) -> Result<TokenV, ParseErrorV> {
        match self.peek() {
            Some(t) => Ok(t.token_type),
            None => Err(ParseErrorV::UnexpectedEOF),
        }
    }

    /// Consumes the next token.
    pub open spec fn adv(self) -> Result<(TokenSV, PState), ParseErrorV> {
        if self.pos < self.toks.len() {
            let t = self.toks[self.pos as int];
            Ok((t, PState { pos: self.pos + 1, span: t.location, ..self }))
        } else {
            Err(ParseErrorV::UnexpectedEOF)
        }
    }

    /// Consumes the next token, which must be `p`.
    pub open spec fn expect(self, p: PlainToken) -> Result<PState, ParseErrorV> {
        match self.adv() {
            Err(e) => Err(e),
            Ok((t, s)) => if t.token_type == TokenV::Plain(p) {
                Ok(s)
            } else {
                Err(ParseErrorV::UnexpectedToken(t.token_type, t.location))
            },
        }
    }

    /// `s` is this state with at least one more token consumed.
    pub open spec fn advanced_to(self, s: PState) -> bool {
        s.toks == self.toks && self.pos < s.pos <= self.toks.len()
    }

    /// `s` is this state with no fewer tokens consumed.
    pub open spec fn reaches(self, s: PState) -> bool {
        s.toks == self.toks && self.pos <= s.pos <= self.toks.len()
    }

    pub open spec fn wf(self) -> bool {
        self.pos <= self.toks.len()
    }
}

/// Type specifiers.
pub open spec fn is_type_token(t: TokenV) -> bool {
    t == TokenV::Plain(PlainToken::Int) || t == TokenV::Plain(PlainToken::Long) || t == TokenV::Plain(
        PlainToken::Unsigned,
    ) || t == TokenV::Plain(PlainToken::Signed) || t == TokenV::Plain(PlainToken::Double)
}

/// Type specifiers and storage classes.
pub open spec fn is_specifier_token(t: TokenV) -> bool {
    is_type_token(t) || t == TokenV::Plain(PlainToken::Static) || t == TokenV::Plain(PlainToken::Extern)
}

fn is_type_plain(p: PlainToken) -> (r: bool)
    ensures
        r == is_type_token(TokenV::Plain(p)),
{
    p == PlainToken::Int || p == PlainToken::Long || p == PlainToken::Unsigned || p == PlainToken::Signed
        || p == PlainToken::Double
}

/// Parses a list of tokens.
pub struct Parser {
    tokens: Vec<Token>,
    pos: usize,
    current_span: Span,
}

impl View for Parser {
    type V = PState;

    closed spec fn view(&self) -> PState {
        PState { toks: tokens_view(self.tokens@), pos: self.pos as nat, span: self.current_span }
    }
}

/// The flags of the type specifiers seen in a declaration.
pub struct TypeFlags {
    pub saw_int: bool,
    pub saw_long: bool,
    pub saw_unsigned: bool,
    pub saw_signed: bool,
    pub saw_double: bool,
}

/// The flags after the specifiers `ts`, or the error for a repeated or
/// misplaced one.
pub open spec fn flags_of(ts: Seq<TokenV>, span: Span) -> Result<TypeFlags, ParseErrorV>
    decreases ts.len(),
{
    if ts.len() == 0 {
        Ok(TypeFlags { saw_int: false, saw_long: false, saw_unsigned: false, saw_signed: false, saw_double: false })
    } else {
        match flags_of(ts.drop_last(), span) {
            Err(e) => Err(e),
            Ok(f) => {
                let t = ts.last();
                if t == TokenV::Plain(PlainToken::Int) {
                    if f.saw_int { Err(ParseErrorV::InvalidTypes(span)) } else { Ok(TypeFlags { saw_int: true, ..f }) }
                } else if t == TokenV::Plain(PlainToken::Long) {
                    if f.saw_long { Err(ParseErrorV::InvalidTypes(span)) } else { Ok(TypeFlags { saw_long: true, ..f }) }
                } else if t == TokenV::Plain(PlainToken::Unsigned) {
                    if f.saw_unsigned { Err(ParseErrorV::InvalidTypes(span)) } else { Ok(TypeFlags { saw_unsigned: true, ..f }) }
                } else if t == TokenV::Plain(PlainToken::Signed) {
                    if f.saw_signed { Err(ParseErrorV::InvalidTypes(span)) } else { Ok(TypeFlags { saw_signed: true, ..f }) }
                } else if t == TokenV::Plain(PlainToken::Double) {
                    if f.saw_double { Err(ParseErrorV::InvalidTypes(span)) } else { Ok(TypeFlags { saw_double: true, ..f }) }
                } else {
                    Err(ParseErrorV::InvalidTypes(span))
                }
            },
        }
    }
}

/// The type the flags spell: `double` alone, or an integer type.
pub open spec fn type_of_flags(f: TypeFlags, span: Span) -> Result<TypeV, ParseErrorV> {
    if f.saw_signed && f.saw_unsigned {
        Err(ParseErrorV::InvalidTypes(span))
    } else if !f.saw_double {
        if !f.saw_unsigned {
            if f.saw_long { Ok(TypeV::Long) } else { Ok(TypeV::Int) }
        } else {
            if f.saw_long { Ok(TypeV::ULong) } else { Ok(TypeV::UInt) }
        }
    } else if !(f.saw_long || f.saw_unsigned || f.saw_int || f.saw_signed) {
        Ok(TypeV::Double)
    } else {
        Err(ParseErrorV::InvalidTypes(span))
    }
}

/// The type a list of type specifiers spells.
pub open spec fn types_of(ts: Seq<TokenV>, span: Span) -> Result<TypeV, ParseErrorV> {
    match flags_of(ts, span) {
        Err(e) => Err(e),
        Ok(f) => type_of_flags(f, span),
    }
}

/// Sets `*flag`, failing with `InvalidTypes(span)` if it was already set.
fn flip_or_err(flag: &mut bool, span: Span) -> (r: Result<(), ParseError>)
    ensures
        *old(flag) ==> (r matches Err(ParseError::InvalidTypes(s)) && s == span),
        !*old(flag) ==> r is Ok && *final(flag),
{
    if *flag {
        Err(ParseError::InvalidTypes(span))
    } else {
        *flag = true;
        Ok(())
    }
}

impl TypeFlags {
    pub fn new() -> (r: Self)
        ensures
            r == (TypeFlags { saw_int: false, saw_long: false, saw_unsigned: false, saw_signed: false, saw_double: false }),
    {
        TypeFlags { saw_int: false, saw_long: false, saw_unsigned: false, saw_signed: false, saw_double: false }
    }

    /// Records one type specifier.
    fn set_flag(&mut self, dtype: &TokenType, span: Span) -> (r: Result<(), ParseError>)
        ensures
            ({
                let t = dtype@;
                let f = *old(self);
                if t == TokenV::Plain(PlainToken::Int) {
                    if f.saw_int { r is Err && r->Err_0@ == ParseErrorV::InvalidTypes(span) } else { r is Ok && *final(self) == TypeFlags { saw_int: true, ..f } }
                } else if t == TokenV::Plain(PlainToken::Long) {
                    if f.saw_long { r is Err && r->Err_0@ == ParseErrorV::InvalidTypes(span) } else { r is Ok && *final(self) == TypeFlags { saw_long: true, ..f } }
                } else if t == TokenV::Plain(PlainToken::Unsigned) {
                    if f.saw_unsigned { r is Err && r->Err_0@ == ParseErrorV::InvalidTypes(span) } else { r is Ok && *final(self) == TypeFlags { saw_unsigned: true, ..f } }
                } else if t == TokenV::Plain(PlainToken::Signed) {
                    if f.saw_signed { r is Err && r->Err_0@ == ParseErrorV::InvalidTypes(span) } else { r is Ok && *final(self) == TypeFlags { saw_signed: true, ..f } }
                } else if t == TokenV::Plain(PlainToken::Double) {
                    if f.saw_double { r is Err && r->Err_0@ == ParseErrorV::InvalidTypes(span) } else { r is Ok && *final(self) == TypeFlags { saw_double: true, ..f } }
                } else {
                    r is Err && r->Err_0@ == ParseErrorV::InvalidTypes(span)
                }
            }),
    {
        match dtype.plain() {
            Some(PlainToken::Int) => flip_or_err(&mut self.saw_int, span),
            Some(PlainToken::Long) => flip_or_err(&mut self.saw_long, span),
            Some(PlainToken::Unsigned) => flip_or_err(&mut self.saw_unsigned, span),
            Some(PlainToken::Signed) => flip_or_err(&mut self.saw_signed, span),
            Some(PlainToken::Double) => flip_or_err(&mut self.saw_double, span),
            _ => Err(ParseError::InvalidTypes(span)),
        }
    }

    /// The type the flags spell.
    fn get_type(&self, span: Span) -> (r: Result<Type, ParseError>)
        ensures
            match type_of_flags(*self, span) {
                Ok(t) => r is Ok && r->Ok_0@ == t,
                Err(e) => r is Err && r->Err_0@ == e,
            },
    {
        if self.saw_signed && self.saw_unsigned {
            return Err(ParseError::InvalidTypes(span));
        }
        if !self.saw_double {
            if !self.saw_unsigned {
                if self.saw_long { Ok(Type::Long) } else { Ok(Type::Int) }
            } else {
                if self.saw_long { Ok(Type::ULong) } else { Ok(Type::UInt) }
            }
        } else {
            if !(self.saw_long || self.saw_unsigned || self.saw_int || self.saw_signed) {
                Ok(Type::Double)
            } else {
                Err(ParseError::InvalidTypes(span))
            }
        }
    }
}

/// Models of a list of token kinds.
pub open spec fn token_types_view(ts: Seq<TokenType>) -> Seq<TokenV> {
    ts.map_values(|t: TokenType| t@)
}

impl Parser {
    pub fn new(tokens: Vec<Token>) -> (r: Parser)
        ensures
            r@ == (PState { toks: tokens_view(tokens@), pos: 0, span: Span { line_number: 0, col: 0 } }),
            r@.wf(),
    {
        Parser { tokens, pos: 0, current_span: Span { line_number: 0, col: 0 } }
    }

    /// Where the last token consumed starts.
    fn span(&self) -> (r: Span)
        ensures
            r == self@.span,
    {
        self.current_span
    }

    /// A new, untyped expression that ends at the current span.
    fn new_expr(&self, kind: ExpressionKind) -> (r: Expression)
        ensures
            r.kind == kind,
            r.expression_type is None,
            r.span == self@.span,
    {
        Expression::new(kind, None, self.current_span)
    }

    /// Consumes and returns the next token.
    fn advance(&mut self) -> (r: Result<Token, ParseError>)
        requires
            old(self)@.wf(),
        ensures
            final(self)@.wf(),
            old(self)@.reaches(final(self)@),
            match old(self)@.adv() {
                Ok((t, s)) => r is Ok && r->Ok_0@ == t && final(self)@ == s,
                Err(e) => r is Err && r->Err_0@ == e && final(self)@ == old(self)@,
            },
    {
        if self.pos < self.tokens.len() {
            let t = &self.tokens[self.pos];
            let token = Token { token_type: t.token_type.duplicate(), location: t.location };
            self.current_span = t.location;
            self.pos = self.pos + 1;
            assert(tokens_view(self.tokens@)[self.pos - 1] == self.tokens@[self.pos - 1]@);
            Ok(token)
        } else {
            Err(ParseError::UnexpectedEOF)
        }
    }

    /// Consumes the next token, which must be `expected`.
    fn expect(&mut self, expected: PlainToken) -> (r: Result<(), ParseError>)
        requires
            old(self)@.wf(),
        ensures
            final(self)@.wf(),
            old(self)@.reaches(final(self)@),
            match old(self)@.expect(expected) {
                Ok(s) => r is Ok && final(self)@ == s,
                Err(e) => r is Err && r->Err_0@ == e,
            },
    {
        let token = self.advance()?;
        if token.token_type.plain() == Some(expected) {
            Ok(())
        } else {
            Err(ParseError::UnexpectedToken(token.token_type, token.location))
        }
    }

    /// Whether the next token is `p`.
    fn next_token_is(&self, p: PlainToken) -> (r: bool)
        requires
            self@.wf(),
        ensures
            r == self@.next_is(p),
    {
        if self.pos < self.tokens.len() {
            assert(tokens_view(self.tokens@)[self.pos as int] == self.tokens@[self.pos as int]@);
            self.tokens[self.pos].token_type.plain() == Some(p)
        } else {
            false
        }
    }

    /// The kind of the next token.
    fn next_token_type(&self) -> (r: Result<TokenType, ParseError>)
        requires
            self@.wf(),
        ensures
            match self@.next_type() {
                Ok(t) => r is Ok && r->Ok_0@ == t,
                Err(e) => r is Err && r->Err_0@ == e,
            },
    {
        if self.pos < self.tokens.len() {
            assert(tokens_view(self.tokens@)[self.pos as int] == self.tokens@[self.pos as int]@);
            Ok(self.tokens[self.pos].token_type.duplicate())
        } else {
            Err(ParseError::UnexpectedEOF)
        }
    }

    /// Whether the next token is a type specifier or a storage class.
    fn next_token_is_specifier(&self) -> (r: bool)
        requires
            self@.wf(),
        ensures
            r == (self@.peek() matches Some(t) && is_specifier_token(t.token_type)),
    {
        if self.pos < self.tokens.len() {
            assert(tokens_view(self.tokens@)[self.pos as int] == self.tokens@[self.pos as int]@);
            match self.tokens[self.pos].token_type.plain() {
                Some(p) => is_type_plain(p) || p == PlainToken::Static || p == PlainToken::Extern,
                None => false,
            }
        } else {
            false
        }
    }

    /// Whether the next token is a type specifier.
    fn next_token_is_type(&self) -> (r: bool)
        requires
            self@.wf(),
        ensures
            r == (self@.peek() matches Some(t) && is_type_token(t.token_type)),
    {
        if self.pos < self.tokens.len() {
            assert(tokens_view(self.tokens@)[self.pos as int] == self.tokens@[self.pos as int]@);
            match self.tokens[self.pos].token_type.plain() {
                Some(p) => is_type_plain(p),
                None => false,
            }
        } else {
            false
        }
    }

    /// The type a list of type specifiers spells.
    fn parse_types(&self, types: &Vec<TokenType>) -> (r: Result<Type, ParseError>)
        ensures
            match types_of(token_types_view(types@), self@.span) {
                Ok(t) => r is Ok && r->Ok_0@ == t,
                Err(e) => r is Err && r->Err_0@ == e,
            },
    {
        let ghost ts = token_types_view(types@);
        let mut flags = TypeFlags::new();
        let mut i: usize = 0;
        assert(ts.subrange(0, 0) =~= Seq::<TokenV>::empty());
        while i < types.len()
            invariant
                i <= types@.len(),
                ts == token_types_view(types@),
                ts.len() == types@.len(),
                flags_of(ts.subrange(0, i as int), self@.span) == Ok::<TypeFlags, ParseErrorV>(flags),
            decreases types@.len() - i,
        {
            let ghost next = ts.subrange(0, i + 1);
            assert(next.drop_last() =~= ts.subrange(0, i as int));
            assert(next.last() == types@[i as int]@);
            match flags.set_flag(&types[i], self.current_span) {
                Ok(()) => {},
                Err(e) => {
                    proof {
                        lemma_flags_err(ts, i as int, self@.span);
                    }
                    return Err(e);
                },
            }
            i = i + 1;
        }
        assert(ts.subrange(0, i as int) =~= ts);
        flags.get_type(self.current_span)
    }
}

/// A bad specifier at position `i` after a good prefix is the error of the whole list.
proof fn lemma_flags_err(ts: Seq<TokenV>, i: int, span: Span)
    requires
        0 <= i < ts.len(),
        flags_of(ts.subrange(0, i), span) is Ok,
        flags_of(ts.subrange(0, i + 1), span) is Err,
    ensures
        flags_of(ts, span) == flags_of(ts.subrange(0, i + 1), span),
    decreases ts.len(),
{
    if i + 1 < ts.len() {
        assert(ts.drop_last().subrange(0, i) =~= ts.subrange(0, i));
        assert(ts.drop_last().subrange(0, i + 1) =~= ts.subrange(0, i + 1));
        lemma_flags_err(ts.drop_last(), i, span);
    } else {
        assert(ts.subrange(0, i + 1) =~= ts);
    }
}

} // verus!
