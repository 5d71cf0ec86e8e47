use vstd::prelude::*;

use crate::lexer::{NumericLiteral, NumericLiteralV, NumericType, PlainToken, Span, Token, TokenSV, TokenType, TokenV, spelling};
use crate::parser::ast::{BinaryOp, Const, ConstV, ExprKindV, ExprV, Expression, ExpressionKind, UnaryOp, clone_expr, exprs_view, lemma_exprs_view};
use crate::parser::{PState, ParseError, ParseErrorV, Parser, is_type_token, token_types_view, types_of};
use crate::text::chars_of;
use crate::types::TypeV;

verus! {

broadcast use vstd::std_specs::vec::group_vec_axioms, vstd::seq::group_seq_axioms;

// ---------------------------------------------------------------------------
// Literals
// ---------------------------------------------------------------------------

pub open spec fn is_digit_char(c: char) -> bool {
    '0' <= c && c <= '9'
}

/// A nonempty run of decimal digits.
pub open spec fn is_decimal(s: Seq<char>) -> bool {
    s.len() > 0 && forall|i: int| 0 <= i < s.len() ==> is_digit_char(#[trigger] s[i])
}

/// The value of a run of decimal digits.
pub open spec fn dec_value(s: Seq<char>) -> nat
    decreases s.len(),
{
    if s.len() == 0 {
        0
    } else {
        dec_value(s.drop_last()) * 10 + ((s.last() as int) - ('0' as int)) as nat
    }
}

/// The mantissa of a floating-point literal (the text before any exponent)
/// has a digit.
pub open spec fn float_text_ok(s: Seq<char>) -> bool {
    exists|i: int|
        0 <= i < s.len() && is_digit_char(#[trigger] s[i]) && forall|j: int| 0 <= j < i ==> s[j] != 'e' && s[j] != 'E'
}

/// The constant a numeric literal denotes: an `int` literal too large for
/// `int` becomes a `long`, an `unsigned` one too large for `unsigned int`
/// becomes an `unsigned long`.
pub open spec fn const_of(n: NumericLiteralV, span: Span) -> Result<ConstV, ParseErrorV> {
    let ok = is_decimal(n.number);
    let v = dec_value(n.number);
    match n.numtype {
        NumericType::Int => if ok && v <= i32::MAX {
            Ok(ConstV::Int(v as i32))
        } else if ok && v <= i64::MAX {
            Ok(ConstV::Long(v as i64))
        } else {
            Err(ParseErrorV::IntegerOverflow(span))
        },
        NumericType::Long => if ok && v <= i64::MAX {
            Ok(ConstV::Long(v as i64))
        } else {
            Err(ParseErrorV::IntegerOverflow(span))
        },
        NumericType::UInt => if ok && v <= u32::MAX {
            Ok(ConstV::UInt(v as u32))
        } else if ok && v <= u64::MAX {
            Ok(ConstV::ULong(v as u64))
        } else {
            Err(ParseErrorV::IntegerOverflow(span))
        },
        NumericType::ULong => if ok && v <= u64::MAX {
            Ok(ConstV::ULong(v as u64))
        } else {
            Err(ParseErrorV::IntegerOverflow(span))
        },
        NumericType::Double => if float_text_ok(n.number) {
            Ok(ConstV::Double(n.number))
        } else {
            Err(ParseErrorV::InvalidFloat(span))
        },
    }
}

proof fn lemma_dec_value_prefix(s: Seq<char>, k: int)
    requires
        0 <= k <= s.len(),
    ensures
        dec_value(s) >= dec_value(s.subrange(0, k)),
    decreases s.len(),
{
    if k < s.len() {
        assert(s.drop_last().subrange(0, k) =~= s.subrange(0, k));
        lemma_dec_value_prefix(s.drop_last(), k);
    } else {
        assert(s.subrange(0, k) =~= s);
    }
}

/// The value of a run of decimal digits that fits in a `u64`.
fn parse_decimal(s: &String) -> (r: Option<u64>)
    ensures
        r == if is_decimal(s@) && dec_value(s@) <= u64::MAX {
            Some(dec_value(s@) as u64)
        } else {
            None::<u64>
        },
{
    let cs = chars_of(s);
    if cs.len() == 0 {
        return None;
    }
    let mut acc: u64 = 0;
    let mut i: usize = 0;
    while i < cs.len()
        invariant
            cs@ == s@,
            i <= cs@.len(),
            forall|j: int| 0 <= j < i ==> is_digit_char(#[trigger] cs@[j]),
            acc == dec_value(cs@.subrange(0, i as int)),
        decreases cs@.len() - i,
    {
        let c = cs[i];
        if !('0' <= c && c <= '9') {
            return None;
        }
        let d = (c as u32 - '0' as u32) as u64;
        let ghost next = cs@.subrange(0, i + 1);
        assert(next.drop_last() =~= cs@.subrange(0, i as int));
        if acc > (18446744073709551615u64 - d) / 10 {
            proof {
                assert(dec_value(next) == acc * 10 + d);
                assert(acc * 10 + d > 18446744073709551615) by (nonlinear_arith)
                    requires
                        acc > (18446744073709551615u64 - d) / 10,
                        d <= 9,
                ;
                lemma_dec_value_prefix(s@, i + 1);
            }
            return None;
        }
        assert(acc * 10 + d <= 18446744073709551615) by (nonlinear_arith)
            requires
                acc <= (18446744073709551615u64 - d) / 10,
                d <= 9,
        ;
        acc = acc * 10 + d;
        i = i + 1;
    }
    assert(cs@.subrange(0, i as int) =~= cs@);
    Some(acc)
}

/// Whether the mantissa of a floating-point literal has a digit.
fn float_text_valid(s: &String) -> (r: bool)
    ensures
        r == float_text_ok(s@),
{
    let cs = chars_of(s);
    let mut i: usize = 0;
    while i < cs.len()
        invariant
            cs@ == s@,
            i <= cs@.len(),
            forall|j: int| 0 <= j < i ==> !is_digit_char(#[trigger] cs@[j]) && cs@[j] != 'e' && cs@[j] != 'E',
        decreases cs@.len() - i,
    {
        let c = cs[i];
        if c == 'e' || c == 'E' {
            assert forall|k: int| 0 <= k < s@.len() && is_digit_char(#[trigger] s@[k]) implies !(forall|j: int|
                0 <= j < k ==> s@[j] != 'e' && s@[j] != 'E') by {
                assert(k > i);
                assert(s@[i as int] == 'e' || s@[i as int] == 'E');
            }
            return false;
        }
        if '0' <= c && c <= '9' {
            assert(is_digit_char(s@[i as int]));
            return true;
        }
        i = i + 1;
    }
    false
}

impl Parser {
    /// The constant a numeric literal denotes; errors carry the current span.
    fn parse_literal(&self, n: &NumericLiteral) -> (r: Result<Const, ParseError>)
        ensures
            match const_of(n@, self@.span) {
                Ok(c) => r is Ok && r->Ok_0@ == c,
                Err(e) => r is Err && r->Err_0@ == e,
            },
    {
        let span = self.current_span;
        match n.numtype {
            NumericType::Double => {
                if float_text_valid(&n.number) {
                    Ok(Const::Double(n.number.clone()))
                } else {
                    Err(ParseError::InvalidFloat(span))
                }
            },
            NumericType::Int => self.parse_const(&n.number),
            NumericType::UInt => self.parse_u_const(&n.number),
            NumericType::Long => match parse_decimal(&n.number) {
                Some(v) if v <= 9223372036854775807u64 => Ok(Const::Long(v as i64)),
                _ => Err(ParseError::IntegerOverflow(span)),
            },
            NumericType::ULong => match parse_decimal(&n.number) {
                Some(v) => Ok(Const::ULong(v)),
                None => Err(ParseError::IntegerOverflow(span)),
            },
        }
    }

    /// An `int` literal: `int` if it fits, else `long`.
    fn parse_const(&self, number: &String) -> (r: Result<Const, ParseError>)
        ensures
            match const_of(NumericLiteralV { numtype: NumericType::Int, number: number@ }, self@.span) {
                Ok(c) => r is Ok && r->Ok_0@ == c,
                Err(e) => r is Err && r->Err_0@ == e,
            },
    {
        match parse_decimal(number) {
            Some(v) => {
                if v <= 2147483647u64 {
                    Ok(Const::Int(v as i32))
                } else if v <= 9223372036854775807u64 {
                    Ok(Const::Long(v as i64))
                } else {
                    Err(ParseError::IntegerOverflow(self.current_span))
                }
            },
            None => Err(ParseError::IntegerOverflow(self.current_span)),
        }
    }

    /// An `unsigned` literal: `unsigned int` if it fits, else `unsigned long`.
    fn parse_u_const(&self, number: &String) -> (r: Result<Const, ParseError>)
        ensures
            match const_of(NumericLiteralV { numtype: NumericType::UInt, number: number@ }, self@.span) {
                Ok(c) => r is Ok && r->Ok_0@ == c,
                Err(e) => r is Err && r->Err_0@ == e,
            },
    {
        match parse_decimal(number) {
            Some(v) => {
                if v <= 4294967295u64 {
                    Ok(Const::UInt(v as u32))
                } else {
                    Ok(Const::ULong(v))
                }
            },
            None => Err(ParseError::IntegerOverflow(self.current_span)),
        }
    }
}

// ---------------------------------------------------------------------------
// Operators
// ---------------------------------------------------------------------------

/// The binary operator a token stands for, if any.
pub open spec fn binop_of(t: TokenV) -> Option<BinaryOp> {
    match t {
        TokenV::Plain(p) => if p == PlainToken::Plus {
            Some(BinaryOp::Add)
        } else if p == PlainToken::Minus {
            Some(BinaryOp::Subtract)
        } else if p == PlainToken::Asterisk {
            Some(BinaryOp::Multiply)
        } else if p == PlainToken::FwdSlash {
            Some(BinaryOp::Divide)
        } else if p == PlainToken::Percent {
            Some(BinaryOp::Remainder)
        } else if p == PlainToken::DoubleLeftAngled {
            Some(BinaryOp::LeftShift)
        } else if p == PlainToken::DoubleRightAngled {
            Some(BinaryOp::RightShift)
        } else if p == PlainToken::Ampersand {
            Some(BinaryOp::BitwiseAnd)
        } else if p == PlainToken::Pipe {
            Some(BinaryOp::BitwiseOr)
        } else if p == PlainToken::Caret {
            Some(BinaryOp::BitwiseXor)
        } else if p == PlainToken::DoubleAmpersand {
            Some(BinaryOp::LogicalAnd)
        } else if p == PlainToken::DoublePipe {
            Some(BinaryOp::LogicalOr)
        } else if p == PlainToken::DoubleEqual {
            Some(BinaryOp::Equal)
        } else if p == PlainToken::NotEqual {
            Some(BinaryOp::NotEqual)
        } else if p == PlainToken::LessThan {
            Some(BinaryOp::LessThan)
        } else if p == PlainToken::LessOrEqual {
            Some(BinaryOp::LessOrEqual)
        } else if p == PlainToken::GreaterThan {
            Some(BinaryOp::GreaterThan)
        } else if p == PlainToken::GreaterOrEqual {
            Some(BinaryOp::GreaterOrEqual)
        } else if p == PlainToken::Equal {
            Some(BinaryOp::Assign)
        } else if p == PlainToken::PlusEqual {
            Some(BinaryOp::OpSet(Box::new(BinaryOp::Add)))
        } else if p == PlainToken::MinusEqual {
            Some(BinaryOp::OpSet(Box::new(BinaryOp::Subtract)))
        } else if p == PlainToken::AsteriskEqual {
            Some(BinaryOp::OpSet(Box::new(BinaryOp::Multiply)))
        } else if p == PlainToken::FwdSlashEqual {
            Some(BinaryOp::OpSet(Box::new(BinaryOp::Divide)))
        } else if p == PlainToken::PercentEqual {
            Some(BinaryOp::OpSet(Box::new(BinaryOp::Remainder)))
        } else if p == PlainToken::AmpersandEqual {
            Some(BinaryOp::OpSet(Box::new(BinaryOp::BitwiseAnd)))
        } else if p == PlainToken::PipeEqual {
            Some(BinaryOp::OpSet(Box::new(BinaryOp::BitwiseOr)))
        } else if p == PlainToken::CaretEqual {
            Some(BinaryOp::OpSet(Box::new(BinaryOp::BitwiseXor)))
        } else if p == PlainToken::DLAngledEqual {
            Some(BinaryOp::OpSet(Box::new(BinaryOp::LeftShift)))
        } else if p == PlainToken::DRAngledEqual {
            Some(BinaryOp::OpSet(Box::new(BinaryOp::RightShift)))
        } else if p == PlainToken::QuestionMark {
            Some(BinaryOp::Ternary)
        } else {
            None
        },
        _ => None,
    }
}

/// How tightly an operator binds.
pub open spec fn prec(op: BinaryOp) -> int {
    match op {
        BinaryOp::Multiply | BinaryOp::Divide | BinaryOp::Remainder => 50,
        BinaryOp::Add | BinaryOp::Subtract => 45,
        BinaryOp::LeftShift | BinaryOp::RightShift => 42,
        BinaryOp::LessThan | BinaryOp::LessOrEqual | BinaryOp::GreaterThan | BinaryOp::GreaterOrEqual => 35,
        BinaryOp::Equal | BinaryOp::NotEqual => 30,
        BinaryOp::BitwiseAnd => 28,
        BinaryOp::BitwiseXor => 26,
        BinaryOp::BitwiseOr => 24,
        BinaryOp::LogicalAnd => 10,
        BinaryOp::LogicalOr => 5,
        BinaryOp::Ternary => 3,
        BinaryOp::Assign => 1,
        BinaryOp::OpSet(_) => 1,
    }
}

impl Parser {
    /// The binary operator the next token stands for; an error at the end.
    fn peek_binop(&self) -> (r: Result<Option<BinaryOp>, ParseError>)
        requires
            self@.wf(),
        ensures
            match self@.next_type() {
                Ok(t) => r is Ok && r->Ok_0 == binop_of(t),
                Err(e) => r is Err && r->Err_0@ == e,
            },
    {
        let t = self.next_token_type()?;
        let p = match t.plain() {
            Some(p) => p,
            None => return Ok(None),
        };
        if p == PlainToken::Plus {
            Ok(Some(BinaryOp::Add))
        } else if p == PlainToken::Minus {
            Ok(Some(BinaryOp::Subtract))
        } else if p == PlainToken::Asterisk {
            Ok(Some(BinaryOp::Multiply))
        } else if p == PlainToken::FwdSlash {
            Ok(Some(BinaryOp::Divide))
        } else if p == PlainToken::Percent {
            Ok(Some(BinaryOp::Remainder))
        } else if p == PlainToken::DoubleLeftAngled {
            Ok(Some(BinaryOp::LeftShift))
        } else if p == PlainToken::DoubleRightAngled {
            Ok(Some(BinaryOp::RightShift))
        } else if p == PlainToken::Ampersand {
            Ok(Some(BinaryOp::BitwiseAnd))
        } else if p == PlainToken::Pipe {
            Ok(Some(BinaryOp::BitwiseOr))
        } else if p == PlainToken::Caret {
            Ok(Some(BinaryOp::BitwiseXor))
        } else if p == PlainToken::DoubleAmpersand {
            Ok(Some(BinaryOp::LogicalAnd))
        } else if p == PlainToken::DoublePipe {
            Ok(Some(BinaryOp::LogicalOr))
        } else if p == PlainToken::DoubleEqual {
            Ok(Some(BinaryOp::Equal))
        } else if p == PlainToken::NotEqual {
            Ok(Some(BinaryOp::NotEqual))
        } else if p == PlainToken::LessThan {
            Ok(Some(BinaryOp::LessThan))
        } else if p == PlainToken::LessOrEqual {
            Ok(Some(BinaryOp::LessOrEqual))
        } else if p == PlainToken::GreaterThan {
            Ok(Some(BinaryOp::GreaterThan))
        } else if p == PlainToken::GreaterOrEqual {
            Ok(Some(BinaryOp::GreaterOrEqual))
        } else if p == PlainToken::Equal {
            Ok(Some(BinaryOp::Assign))
        } else if p == PlainToken::PlusEqual {
            Ok(Some(BinaryOp::OpSet(Box::new(BinaryOp::Add))))
        } else if p == PlainToken::MinusEqual {
            Ok(Some(BinaryOp::OpSet(Box::new(BinaryOp::Subtract))))
        } else if p == PlainToken::AsteriskEqual {
            Ok(Some(BinaryOp::OpSet(Box::new(BinaryOp::Multiply))))
        } else if p == PlainToken::FwdSlashEqual {
            Ok(Some(BinaryOp::OpSet(Box::new(BinaryOp::Divide))))
        } else if p == PlainToken::PercentEqual {
            Ok(Some(BinaryOp::OpSet(Box::new(BinaryOp::Remainder))))
        } else if p == PlainToken::AmpersandEqual {
            Ok(Some(BinaryOp::OpSet(Box::new(BinaryOp::BitwiseAnd))))
        } else if p == PlainToken::PipeEqual {
            Ok(Some(BinaryOp::OpSet(Box::new(BinaryOp::BitwiseOr))))
        } else if p == PlainToken::CaretEqual {
            Ok(Some(BinaryOp::OpSet(Box::new(BinaryOp::BitwiseXor))))
        } else if p == PlainToken::DLAngledEqual {
            Ok(Some(BinaryOp::OpSet(Box::new(BinaryOp::LeftShift))))
        } else if p == PlainToken::DRAngledEqual {
            Ok(Some(BinaryOp::OpSet(Box::new(BinaryOp::RightShift))))
        } else if p == PlainToken::QuestionMark {
            Ok(Some(BinaryOp::Ternary))
        } else {
            Ok(None)
        }
    }

    /// How tightly `op` binds.
    fn precedence(&self, op: &BinaryOp) -> (r: i32)
        ensures
            r == prec(*op),
    {
        match op {
            BinaryOp::Multiply => 50,
            BinaryOp::Divide => 50,
            BinaryOp::Remainder => 50,
            BinaryOp::Add => 45,
            BinaryOp::Subtract => 45,
            BinaryOp::LeftShift => 42,
            BinaryOp::RightShift => 42,
            BinaryOp::LessThan => 35,
            BinaryOp::LessOrEqual => 35,
            BinaryOp::GreaterThan => 35,
            BinaryOp::GreaterOrEqual => 35,
            BinaryOp::Equal => 30,
            BinaryOp::NotEqual => 30,
            BinaryOp::BitwiseAnd => 28,
            BinaryOp::BitwiseXor => 26,
            BinaryOp::BitwiseOr => 24,
            BinaryOp::LogicalAnd => 10,
            BinaryOp::LogicalOr => 5,
            BinaryOp::Ternary => 3,
            BinaryOp::Assign => 1,
            BinaryOp::OpSet(_) => 1,
        }
    }
}

// ---------------------------------------------------------------------------
// The expression grammar, as functions on the parser's state
// ---------------------------------------------------------------------------

/// A new, untyped expression node that ends at `span`.
pub open spec fn mk(kind: ExprKindV, span: Span) -> ExprV {
    ExprV { kind, ty: None, span }
}

/// An expression, then binary operators that bind at least as tightly as `min_prec`.
pub open spec fn p_expr(s: PState, min_prec: int) -> Result<(ExprV, PState), ParseErrorV>
    decreases s.toks.len() - s.pos, 2int,
{
    match p_factor(s) {
        Err(e) => Err(e),
        Ok((left, s1)) => if s.advanced_to(s1) {
            p_cont(s1, left, min_prec)
        } else {
            Err(ParseErrorV::UnexpectedEOF)
        },
    }
}

/// The binary operators that follow `left` (precedence climbing).
pub open spec fn p_cont(s: PState, left: ExprV, min_prec: int) -> Result<(ExprV, PState), ParseErrorV>
    decreases s.toks.len() - s.pos, 0int,
{
    match s.next_type() {
        Err(e) => Err(e),
        Ok(t) => match binop_of(t) {
            None => Ok((left, s)),
            Some(op) => if prec(op) < min_prec {
                Ok((left, s))
            } else {
                match s.adv() {
                    Err(e) => Err(e),
                    Ok((_, s1)) => match p_cont_step(s1, op, left) {
                        Err(e) => Err(e),
                        Ok((l2, s2)) => if s.advanced_to(s2) {
                            p_cont(s2, l2, min_prec)
                        } else {
                            Err(ParseErrorV::UnexpectedEOF)
                        },
                    },
                }
            },
        },
    }
}

/// The right operand of `op`, whose token was consumed, and the expression
/// it makes with `left`.
pub open spec fn p_cont_step(s: PState, op: BinaryOp, left: ExprV) -> Result<(ExprV, PState), ParseErrorV>
    decreases s.toks.len() - s.pos, 3int,
{
    match op {
        BinaryOp::Assign => match p_expr(s, prec(op)) {
            Err(e) => Err(e),
            Ok((right, s2)) => Ok((mk(ExprKindV::Assignment(Box::new(left), Box::new(right)), s2.span), s2)),
        },
        BinaryOp::OpSet(inner) => match p_expr(s, prec(op)) {
            Err(e) => Err(e),
            Ok((right, s2)) => {
                let binary = mk(ExprKindV::Binary(*inner, Box::new(left), Box::new(right)), s2.span);
                Ok((mk(ExprKindV::Assignment(Box::new(left), Box::new(binary)), s2.span), s2))
            },
        },
        BinaryOp::Ternary => match p_expr(s, 0) {
            Err(e) => Err(e),
            Ok((middle, s2)) => match s2.expect(PlainToken::Colon) {
                Err(e) => Err(e),
                Ok(s3) => if s.advanced_to(s3) {
                    match p_expr(s3, prec(op)) {
                        Err(e) => Err(e),
                        Ok((right, s4)) => Ok(
                            (mk(ExprKindV::Conditional(Box::new(left), Box::new(middle), Box::new(right)), s4.span), s4),
                        ),
                    }
                } else {
                    Err(ParseErrorV::UnexpectedEOF)
                },
            },
        },
        _ => match p_expr(s, prec(op) + 1) {
            Err(e) => Err(e),
            Ok((right, s2)) => Ok((mk(ExprKindV::Binary(op, Box::new(left), Box::new(right)), s2.span), s2)),
        },
    }
}

/// A factor: the next token and what follows it.
pub open spec fn p_factor(s: PState) -> Result<(ExprV, PState), ParseErrorV>
    decreases s.toks.len() - s.pos, 1int,
{
    match s.adv() {
        Err(e) => Err(e),
        Ok((tok, s1)) => p_factor_tok(s1, tok),
    }
}

/// A factor whose first token `tok` was consumed, then its postfix operators.
pub open spec fn p_factor_tok(s: PState, tok: TokenSV) -> Result<(ExprV, PState), ParseErrorV>
    decreases s.toks.len() - s.pos, 5int,
{
    match p_primary(s, tok) {
        Err(e) => Err(e),
        Ok((e, s2)) => if s.reaches(s2) {
            p_postfix(s2, e)
        } else {
            Err(ParseErrorV::UnexpectedEOF)
        },
    }
}

/// A factor without its postfix operators, whose first token `tok` was consumed.
pub open spec fn p_primary(s: PState, tok: TokenSV) -> Result<(ExprV, PState), ParseErrorV>
    decreases s.toks.len() - s.pos, 4int,
{
    match tok.token_type {
        TokenV::NumericConstant(n) => match const_of(n, s.span) {
            Err(e) => Err(e),
            Ok(c) => Ok((mk(ExprKindV::Constant(c), s.span), s)),
        },
        TokenV::Identifier(name) => if s.next_is(PlainToken::OpenParen) {
            match p_args(s) {
                Err(e) => Err(e),
                Ok((args, s2)) => Ok((mk(ExprKindV::FunctionCall(name, args), s2.span), s2)),
            }
        } else {
            Ok((mk(ExprKindV::Var(name), s.span), s))
        },
        TokenV::Plain(p) => if p == PlainToken::OpenParen {
            p_paren(s)
        } else if p == PlainToken::Exclamation || p == PlainToken::Tilde || p == PlainToken::Minus {
            let op = if p == PlainToken::Exclamation {
                UnaryOp::Not
            } else if p == PlainToken::Tilde {
                UnaryOp::Complement
            } else {
                UnaryOp::Negate
            };
            match p_factor(s) {
                Err(e) => Err(e),
                Ok((inner, s2)) => Ok((mk(ExprKindV::Unary(op, Box::new(inner)), s2.span), s2)),
            }
        } else if p == PlainToken::DoublePlus {
            match p_factor(s) {
                Err(e) => Err(e),
                Ok((inner, s2)) => Ok((mk(ExprKindV::PrefixIncrement(Box::new(inner)), s2.span), s2)),
            }
        } else if p == PlainToken::DoubleMinus {
            match p_factor(s) {
                Err(e) => Err(e),
                Ok((inner, s2)) => Ok((mk(ExprKindV::PrefixDecrement(Box::new(inner)), s2.span), s2)),
            }
        } else {
            Err(ParseErrorV::ExpectedExpression(s.span))
        },
    }
}

/// After an opening parenthesis: a cast and its operand, or an expression
/// and the closing parenthesis.
pub open spec fn p_paren(s: PState) -> Result<(ExprV, PState), ParseErrorV>
    decreases s.toks.len() - s.pos, 3int,
{
    if s.peek() matches Some(t) && is_type_token(t.token_type) {
        match p_types(s, Seq::empty()) {
            Err(e) => Err(e),
            Ok((types, s2)) => match types_of(types, s2.span) {
                Err(e) => Err(e),
                Ok(ty) => match s2.expect(PlainToken::CloseParen) {
                    Err(e) => Err(e),
                    Ok(s3) => if s.advanced_to(s3) {
                        match p_factor(s3) {
                            Err(e) => Err(e),
                            Ok((inner, s4)) => Ok((mk(ExprKindV::Cast(ty, Box::new(inner)), s4.span), s4)),
                        }
                    } else {
                        Err(ParseErrorV::UnexpectedEOF)
                    },
                },
            },
        }
    } else {
        match p_expr(s, 0) {
            Err(e) => Err(e),
            Ok((e, s2)) => match s2.expect(PlainToken::CloseParen) {
                Err(x) => Err(x),
                Ok(s3) => Ok((e, s3)),
            },
        }
    }
}

/// The postfix `++` and `--` after `e`; an error at the end of the tokens.
pub open spec fn p_postfix(s: PState, e: ExprV) -> Result<(ExprV, PState), ParseErrorV>
    decreases s.toks.len() - s.pos, 0int,
{
    match s.next_type() {
        Err(x) => Err(x),
        Ok(t) => if t == TokenV::Plain(PlainToken::DoublePlus) || t == TokenV::Plain(PlainToken::DoubleMinus) {
            match s.adv() {
                Err(x) => Err(x),
                Ok((_, s1)) => p_postfix(
                    s1,
                    mk(
                        if t == TokenV::Plain(PlainToken::DoublePlus) {
                            ExprKindV::PostfixIncrement(Box::new(e))
                        } else {
                            ExprKindV::PostfixDecrement(Box::new(e))
                        },
                        s1.span,
                    ),
                ),
            }
        } else {
            Ok((e, s))
        },
    }
}

/// The type specifiers of a cast, up to the closing parenthesis.
pub open spec fn p_types(s: PState, acc: Seq<TokenV>) -> Result<(Seq<TokenV>, PState), ParseErrorV>
    decreases s.toks.len() - s.pos, 0int,
{
    if s.next_is(PlainToken::CloseParen) {
        Ok((acc, s))
    } else {
        match s.adv() {
            Err(e) => Err(e),
            Ok((t, s1)) => p_types(s1, acc.push(t.token_type)),
        }
    }
}

/// The parenthesized arguments of a call.
pub open spec fn p_args(s: PState) -> Result<(Seq<ExprV>, PState), ParseErrorV>
    decreases s.toks.len() - s.pos, 3int,
{
    match s.expect(PlainToken::OpenParen) {
        Err(e) => Err(e),
        Ok(s1) => p_args_outer(s1, Seq::empty()),
    }
}

/// Arguments until the closing parenthesis, which is consumed.
pub open spec fn p_args_outer(s: PState, acc: Seq<ExprV>) -> Result<(Seq<ExprV>, PState), ParseErrorV>
    decreases s.toks.len() - s.pos, 3int,
{
    if s.next_is(PlainToken::CloseParen) {
        match s.expect(PlainToken::CloseParen) {
            Err(e) => Err(e),
            Ok(s1) => Ok((acc, s1)),
        }
    } else {
        match p_expr(s, 0) {
            Err(e) => Err(e),
            Ok((e, s1)) => if s.advanced_to(s1) {
                match p_args_inner(s1, acc.push(e)) {
                    Err(x) => Err(x),
                    Ok((acc2, s2)) => if s.advanced_to(s2) {
                        p_args_outer(s2, acc2)
                    } else {
                        Err(ParseErrorV::UnexpectedEOF)
                    },
                }
            } else {
                Err(ParseErrorV::UnexpectedEOF)
            },
        }
    }
}

/// Further arguments, each after a comma.
pub open spec fn p_args_inner(s: PState, acc: Seq<ExprV>) -> Result<(Seq<ExprV>, PState), ParseErrorV>
    decreases s.toks.len() - s.pos, 0int,
{
    if s.next_is(PlainToken::Comma) {
        match s.expect(PlainToken::Comma) {
            Err(e) => Err(e),
            Ok(s1) => match p_expr(s1, 0) {
                Err(e) => Err(e),
                Ok((e, s2)) => if s.advanced_to(s2) {
                    p_args_inner(s2, acc.push(e))
                } else {
                    Err(ParseErrorV::UnexpectedEOF)
                },
            },
        }
    } else {
        Ok((acc, s))
    }
}

impl Parser {
    /// An expression whose operators bind at least as tightly as `min_prec`.
    pub fn parse_expression(&mut self, min_prec: i32) -> (r: Result<Expression, ParseError>)
        requires
            old(self)@.wf(),
        ensures
            final(self)@.wf(),
            old(self)@.reaches(final(self)@),
            r is Ok ==> old(self)@.advanced_to(final(self)@),
            match p_expr(old(self)@, min_prec as int) {
                Ok((e, s)) => r is Ok && r->Ok_0@ == e && final(self)@ == s,
                Err(x) => r is Err && r->Err_0@ == x,
            },
        decreases old(self)@.toks.len() - old(self)@.pos, 2int,
    {
        let left = self.parse_factor(None)?;
        self.parse_expression_cont(left, min_prec)
    }

    /// The binary operators that follow `left`.
    pub fn parse_expression_cont(&mut self, left: Expression, min_prec: i32) -> (r: Result<Expression, ParseError>)
        requires
            old(self)@.wf(),
        ensures
            final(self)@.wf(),
            old(self)@.reaches(final(self)@),
            match p_cont(old(self)@, left@, min_prec as int) {
                Ok((e, s)) => r is Ok && r->Ok_0@ == e && final(self)@ == s,
                Err(x) => r is Err && r->Err_0@ == x,
            },
        decreases old(self)@.toks.len() - old(self)@.pos, 0int,
    {
        let ghost s0 = self@;
        let ghost e0 = left@;
        let mut cur = left;
        loop
            invariant
                self@.wf(),
                s0 == old(self)@,
                s0.reaches(self@),
                e0 == left@,
                p_cont(s0, e0, min_prec as int) == p_cont(self@, cur@, min_prec as int),
            ensures
                self@.wf(),
                s0.reaches(self@),
                p_cont(s0, e0, min_prec as int) == Ok::<(ExprV, PState), ParseErrorV>((cur@, self@)),
            decreases self@.toks.len() - self@.pos,
        {
            let ghost s = self@;
            let ghost le = cur@;
            let op = match self.peek_binop() {
                Ok(Some(op)) => op,
                Ok(None) => break,
                Err(e) => return Err(e),
            };
            let prec_op = self.precedence(&op);
            if prec_op < min_prec {
                break;
            }
            match self.advance() {
                Ok(_) => {},
                Err(e) => return Err(e),
            }
            cur = match self.parse_binop_rhs(op, cur, prec_op) {
                Ok(l) => l,
                Err(e) => return Err(e),
            };
            assert(s.advanced_to(self@));
            assert(p_cont(s, le, min_prec as int) == p_cont(self@, cur@, min_prec as int));
        }
        Ok(cur)
    }

    /// The right operand of `op`, just consumed, and the expression it makes with `left`.
    fn parse_binop_rhs(&mut self, op: BinaryOp, left: Expression, prec_op: i32) -> (r: Result<Expression, ParseError>)
        requires
            old(self)@.wf(),
            prec_op == prec(op),
        ensures
            final(self)@.wf(),
            old(self)@.reaches(final(self)@),
            r is Ok ==> old(self)@.advanced_to(final(self)@),
            match p_cont_step(old(self)@, op, left@) {
                Ok((e, s)) => r is Ok && r->Ok_0@ == e && final(self)@ == s,
                Err(x) => r is Err && r->Err_0@ == x,
            },
        decreases old(self)@.toks.len() - old(self)@.pos, 3int,
    {
        let ghost s_in = self@;
        let ghost lv = left@;
        match op {
            BinaryOp::Assign => {
                let right = self.parse_expression(prec_op)?;
                let r = self.new_expr(ExpressionKind::Assignment(Box::new(left), Box::new(right)));
                assert(p_cont_step(s_in, BinaryOp::Assign, lv) == Ok::<(ExprV, PState), ParseErrorV>((r@, self@)));
                Ok(r)
            },
            BinaryOp::OpSet(inner) => {
                let ghost iv = *inner;
                let right = self.parse_expression(prec_op)?;
                let copy = clone_expr(&left);
                let ghost rv = right@;
                let binary = self.new_expr(ExpressionKind::Binary(*inner, Box::new(copy), Box::new(right)));
                assert(binary@.kind == ExprKindV::Binary(iv, Box::new(lv), Box::new(rv)));
                assert(binary@ == mk(ExprKindV::Binary(iv, Box::new(lv), Box::new(rv)), self@.span));
                let r = self.new_expr(ExpressionKind::Assignment(Box::new(left), Box::new(binary)));
                assert(r@ == mk(ExprKindV::Assignment(Box::new(lv), Box::new(mk(ExprKindV::Binary(iv, Box::new(lv), Box::new(rv)), self@.span))), self@.span));
                assert(p_cont_step(s_in, BinaryOp::OpSet(Box::new(iv)), lv) == Ok::<(ExprV, PState), ParseErrorV>((r@, self@)));
                Ok(r)
            },
            BinaryOp::Ternary => {
                let middle = self.parse_expression(0)?;
                self.expect(PlainToken::Colon)?;
                let right = self.parse_expression(prec_op)?;
                let r = self.new_expr(ExpressionKind::Conditional(Box::new(left), Box::new(middle), Box::new(right)));
                assert(p_cont_step(s_in, BinaryOp::Ternary, lv) == Ok::<(ExprV, PState), ParseErrorV>((r@, self@)));
                Ok(r)
            },
            _ => {
                let ghost ov = op;
                let right = self.parse_expression(prec_op + 1)?;
                let r = self.new_expr(ExpressionKind::Binary(op, Box::new(left), Box::new(right)));
                assert(p_cont_step(s_in, ov, lv) == Ok::<(ExprV, PState), ParseErrorV>((r@, self@)));
                Ok(r)
            },
        }
    }

    /// A factor: a literal, a variable or call, a parenthesized expression or
    /// cast, or a prefix operator and its operand; then postfix operators.
    /// `token` is its first token when the caller already consumed it.
    pub fn parse_factor(&mut self, token: Option<Token>) -> (r: Result<Expression, ParseError>)
        requires
            old(self)@.wf(),
        ensures
            final(self)@.wf(),
            old(self)@.reaches(final(self)@),
            r is Ok && token is None ==> old(self)@.advanced_to(final(self)@),
            match (match token {
                Some(t) => p_factor_tok(old(self)@, t@),
                None => p_factor(old(self)@),
            }) {
                Ok((e, s)) => r is Ok && r->Ok_0@ == e && final(self)@ == s,
                Err(x) => r is Err && r->Err_0@ == x,
            },
        decreases old(self)@.toks.len() - old(self)@.pos, if token is None { 1int } else { 6int },
    {
        let current_token = match token {
            Some(t) => t,
            None => self.advance()?,
        };
        let expr = self.parse_primary(current_token)?;
        self.check_postfix(expr)
    }

    /// A factor without its postfix operators, whose first token was consumed.
    fn parse_primary(&mut self, current_token: Token) -> (r: Result<Expression, ParseError>)
        requires
            old(self)@.wf(),
        ensures
            final(self)@.wf(),
            old(self)@.reaches(final(self)@),
            match p_primary(old(self)@, current_token@) {
                Ok((e, s)) => r is Ok && r->Ok_0@ == e && final(self)@ == s,
                Err(x) => r is Err && r->Err_0@ == x,
            },
        decreases old(self)@.toks.len() - old(self)@.pos, 4int,
    {
        match current_token.token_type {
            TokenType::NumericConstant(n) => {
                let c = self.parse_literal(&n)?;
                Ok(self.new_expr(ExpressionKind::Constant(c)))
            },
            TokenType::Identifier(name) => {
                if self.next_token_is(PlainToken::OpenParen) {
                    let args = self.parse_func_args()?;
                    Ok(self.new_expr(ExpressionKind::FunctionCall(name, args)))
                } else {
                    Ok(self.new_expr(ExpressionKind::Var(name)))
                }
            },
            TokenType::OpenParen => self.parse_paren(),
            TokenType::Exclamation => self.parse_unop(UnaryOp::Not),
            TokenType::Tilde => self.parse_unop(UnaryOp::Complement),
            TokenType::Minus => self.parse_unop(UnaryOp::Negate),
            TokenType::DoublePlus => {
                let operand = self.parse_factor(None)?;
                Ok(self.new_expr(ExpressionKind::PrefixIncrement(Box::new(operand))))
            },
            TokenType::DoubleMinus => {
                let operand = self.parse_factor(None)?;
                Ok(self.new_expr(ExpressionKind::PrefixDecrement(Box::new(operand))))
            },
            _ => Err(ParseError::ExpectedExpression(self.span())),
        }
    }

    /// After an opening parenthesis: a cast, or a parenthesized expression.
    fn parse_paren(&mut self) -> (r: Result<Expression, ParseError>)
        requires
            old(self)@.wf(),
        ensures
            final(self)@.wf(),
            old(self)@.reaches(final(self)@),
            match p_paren(old(self)@) {
                Ok((e, s)) => r is Ok && r->Ok_0@ == e && final(self)@ == s,
                Err(x) => r is Err && r->Err_0@ == x,
            },
        decreases old(self)@.toks.len() - old(self)@.pos, 3int,
    {
        if self.next_token_is_type() {
            let types = self.collect_cast_types()?;
            let ctype = self.parse_types(&types)?;
            self.expect(PlainToken::CloseParen)?;
            let factor = self.parse_factor(None)?;
            Ok(self.new_expr(ExpressionKind::Cast(ctype, Box::new(factor))))
        } else {
            let expression = self.parse_expression(0)?;
            self.expect(PlainToken::CloseParen)?;
            Ok(expression)
        }
    }

    /// A prefix operator's operand.
    fn parse_unop(&mut self, op: UnaryOp) -> (r: Result<Expression, ParseError>)
        requires
            old(self)@.wf(),
        ensures
            final(self)@.wf(),
            old(self)@.reaches(final(self)@),
            r is Ok ==> old(self)@.advanced_to(final(self)@),
            match p_factor(old(self)@) {
                Ok((e, s)) => r is Ok && r->Ok_0@ == mk(ExprKindV::Unary(op, Box::new(e)), s.span) && final(self)@ == s,
                Err(x) => r is Err && r->Err_0@ == x,
            },
        decreases old(self)@.toks.len() - old(self)@.pos, 3int,
    {
        let operand = self.parse_factor(None)?;
        Ok(self.new_expr(ExpressionKind::Unary(op, Box::new(operand))))
    }

    /// The type specifiers of a cast, up to the closing parenthesis.
    fn collect_cast_types(&mut self) -> (r: Result<Vec<TokenType>, ParseError>)
        requires
            old(self)@.wf(),
        ensures
            final(self)@.wf(),
            old(self)@.reaches(final(self)@),
            match p_types(old(self)@, Seq::empty()) {
                Ok((ts, s)) => r is Ok && token_types_view(r->Ok_0@) == ts && final(self)@ == s,
                Err(x) => r is Err && r->Err_0@ == x,
            },
    {
        let mut types: Vec<TokenType> = Vec::new();
        let ghost s0 = self@;
        assert(token_types_view(types@) =~= Seq::<TokenV>::empty());
        while !self.next_token_is(PlainToken::CloseParen)
            invariant
                self@.wf(),
                s0 == old(self)@,
                s0.reaches(self@),
                p_types(s0, Seq::empty()) == p_types(self@, token_types_view(types@)),
            decreases self@.toks.len() - self@.pos,
        {
            let t = self.advance()?;
            proof {
                assert(token_types_view(types@.push(t.token_type)) =~= token_types_view(types@).push(t.token_type@));
            }
            types.push(t.token_type);
        }
        Ok(types)
    }

    /// The parenthesized arguments of a call.
    fn parse_func_args(&mut self) -> (r: Result<Vec<Expression>, ParseError>)
        requires
            old(self)@.wf(),
        ensures
            final(self)@.wf(),
            old(self)@.reaches(final(self)@),
            match p_args(old(self)@) {
                Ok((args, s)) => r is Ok && exprs_view(r->Ok_0@) == args && final(self)@ == s,
                Err(x) => r is Err && r->Err_0@ == x,
            },
        decreases old(self)@.toks.len() - old(self)@.pos, 3int,
    {
        self.expect(PlainToken::OpenParen)?;
        let mut args: Vec<Expression> = Vec::new();
        assert(exprs_view(args@) =~= Seq::<ExprV>::empty());
        self.parse_args_outer(&mut args)?;
        Ok(args)
    }

    fn parse_args_outer(&mut self, args: &mut Vec<Expression>) -> (r: Result<(), ParseError>)
        requires
            old(self)@.wf(),
        ensures
            final(self)@.wf(),
            old(self)@.reaches(final(self)@),
            match p_args_outer(old(self)@, exprs_view(old(args)@)) {
                Ok((acc, s)) => r is Ok && exprs_view(final(args)@) == acc && final(self)@ == s,
                Err(x) => r is Err && r->Err_0@ == x,
            },
        decreases old(self)@.toks.len() - old(self)@.pos, 3int,
    {
        if self.next_token_is(PlainToken::CloseParen) {
            self.expect(PlainToken::CloseParen)?;
            return Ok(());
        }
        let e = self.parse_expression(0)?;
        proof {
            lemma_exprs_view(args@);
            lemma_exprs_view(args@.push(e));
            assert(exprs_view(args@.push(e)) =~= exprs_view(args@).push(e@));
        }
        args.push(e);
        self.parse_args_inner(args)?;
        self.parse_args_outer(args)
    }

    fn parse_args_inner(&mut self, args: &mut Vec<Expression>) -> (r: Result<(), ParseError>)
        requires
            old(self)@.wf(),
        ensures
            final(self)@.wf(),
            old(self)@.reaches(final(self)@),
            match p_args_inner(old(self)@, exprs_view(old(args)@)) {
                Ok((acc, s)) => r is Ok && exprs_view(final(args)@) == acc && final(self)@ == s,
                Err(x) => r is Err && r->Err_0@ == x,
            },
        decreases old(self)@.toks.len() - old(self)@.pos, 0int,
    {
        if !self.next_token_is(PlainToken::Comma) {
            return Ok(());
        }
        self.expect(PlainToken::Comma)?;
        let e = self.parse_expression(0)?;
        proof {
            lemma_exprs_view(args@);
            lemma_exprs_view(args@.push(e));
            assert(exprs_view(args@.push(e)) =~= exprs_view(args@).push(e@));
        }
        args.push(e);
        self.parse_args_inner(args)
    }

    /// The postfix `++` and `--` after `expr`.
    pub fn check_postfix(&mut self, expr: Expression) -> (r: Result<Expression, ParseError>)
        requires
            old(self)@.wf(),
        ensures
            final(self)@.wf(),
            old(self)@.reaches(final(self)@),
            match p_postfix(old(self)@, expr@) {
                Ok((e, s)) => r is Ok && r->Ok_0@ == e && final(self)@ == s,
                Err(x) => r is Err && r->Err_0@ == x,
            },
    {
        let ghost s0 = self@;
        let ghost e0 = expr@;
        let mut cur = expr;
        loop
            invariant
                self@.wf(),
                s0 == old(self)@,
                s0.reaches(self@),
                e0 == expr@,
                p_postfix(s0, e0) == p_postfix(self@, cur@),
            decreases self@.toks.len() - self@.pos,
        {
            let next = match self.next_token_type() {
                Ok(t) => t,
                Err(e) => return Err(e),
            };
            match next.plain() {
                Some(PlainToken::DoublePlus) => {
                    match self.advance() {
                        Ok(_) => {},
                        Err(e) => return Err(e),
                    }
                    cur = self.new_expr(ExpressionKind::PostfixIncrement(Box::new(cur)));
                },
                Some(PlainToken::DoubleMinus) => {
                    match self.advance() {
                        Ok(_) => {},
                        Err(e) => return Err(e),
                    }
                    cur = self.new_expr(ExpressionKind::PostfixDecrement(Box::new(cur)));
                },
                _ => return Ok(cur),
            }
        }
    }
}

} // verus!

verus! {

/// How an operator is written in C: the symbol of each operator, `=` for
/// assignment, `?` for the conditional, and the symbol followed by `=` for
/// an operator combined with assignment.
pub open spec fn op_spelling(op: BinaryOp) -> Seq<char>
    decreases op,
{
    match op {
        BinaryOp::Add => seq!['+'],
        BinaryOp::Subtract => seq!['-'],
        BinaryOp::Multiply => seq!['*'],
        BinaryOp::Divide => seq!['/'],
        BinaryOp::Remainder => seq!['%'],
        BinaryOp::BitwiseAnd => seq!['&'],
        BinaryOp::BitwiseOr => seq!['|'],
        BinaryOp::BitwiseXor => seq!['^'],
        BinaryOp::LeftShift => seq!['<', '<'],
        BinaryOp::RightShift => seq!['>', '>'],
        BinaryOp::LogicalAnd => seq!['&', '&'],
        BinaryOp::LogicalOr => seq!['|', '|'],
        BinaryOp::Equal => seq!['=', '='],
        BinaryOp::NotEqual => seq!['!', '='],
        BinaryOp::LessThan => seq!['<'],
        BinaryOp::LessOrEqual => seq!['<', '='],
        BinaryOp::GreaterThan => seq!['>'],
        BinaryOp::GreaterOrEqual => seq!['>', '='],
        BinaryOp::Assign => seq!['='],
        BinaryOp::OpSet(inner) => op_spelling(*inner) + seq!['='],
        BinaryOp::Ternary => seq!['?'],
    }
}

/// Law: a token stands for the operator written the same way. So an
/// assignment operator `op=` stands for assignment combined with `op`: `-=`
/// subtracts and `+=` adds.
pub proof fn lemma_binop_spelled(p: PlainToken)
    ensures
        binop_of(TokenV::Plain(p)) matches Some(op) ==> spelling(p) == op_spelling(op),
        binop_of(TokenV::Plain(p)) matches Some(BinaryOp::OpSet(inner)) ==> spelling(p) == op_spelling(*inner).push('='),
{
    reveal_with_fuel(op_spelling, 2);
    match binop_of(TokenV::Plain(p)) {
        Some(op) => {
            assert(spelling(p) =~= op_spelling(op));
            match op {
                BinaryOp::OpSet(inner) => {
                    assert(op_spelling(*inner) + seq!['='] =~= op_spelling(*inner).push('='));
                },
                _ => {},
            }
        },
        None => {},
    }
}

/// How a prefix operator is written in C.
pub open spec fn unop_spelling(op: UnaryOp) -> Seq<char> {
    match op {
        UnaryOp::Negate => seq!['-'],
        UnaryOp::Complement => seq!['~'],
        UnaryOp::Not => seq!['!'],
    }
}

/// Law: a factor that starts with a prefix operator token (`-`, `~`, `!`) is
/// the unary operator written the same way, applied to what follows.
pub proof fn lemma_unop_spelled(s: PState, tok: TokenSV)
    ensures
        match (tok.token_type, p_primary(s, tok)) {
            (TokenV::Plain(p), Ok((e, _))) => (p == PlainToken::Minus || p == PlainToken::Tilde || p == PlainToken::Exclamation)
                ==> (e.kind matches ExprKindV::Unary(op, _) && spelling(p) == unop_spelling(op)),
            _ => true,
        },
{
}

/// Law: operators bind as the levels of C's grammar do. Operators of one
/// level bind alike, and each level binds tighter than the next: `* / %`,
/// then `+ -`, shifts, relations, equality, `&`, `^`, `|`, `&&`, `||`, the
/// conditional, and last assignment with or without an operator.
pub proof fn lemma_prec_levels(inner: BinaryOp)
    ensures
        prec(BinaryOp::Multiply) == prec(BinaryOp::Divide) == prec(BinaryOp::Remainder),
        prec(BinaryOp::Add) == prec(BinaryOp::Subtract),
        prec(BinaryOp::LeftShift) == prec(BinaryOp::RightShift),
        prec(BinaryOp::LessThan) == prec(BinaryOp::LessOrEqual) == prec(BinaryOp::GreaterThan) == prec(BinaryOp::GreaterOrEqual),
        prec(BinaryOp::Equal) == prec(BinaryOp::NotEqual),
        prec(BinaryOp::Assign) == prec(BinaryOp::OpSet(Box::new(inner))),
        prec(BinaryOp::Multiply) > prec(BinaryOp::Add) > prec(BinaryOp::LeftShift) > prec(BinaryOp::LessThan)
            > prec(BinaryOp::Equal) > prec(BinaryOp::BitwiseAnd) > prec(BinaryOp::BitwiseXor) > prec(BinaryOp::BitwiseOr)
            > prec(BinaryOp::LogicalAnd) > prec(BinaryOp::LogicalOr) > prec(BinaryOp::Ternary) > prec(BinaryOp::Assign),
{
}

/// The value of an integer constant.
pub open spec fn const_int_value(c: ConstV) -> Option<int> {
    match c {
        ConstV::Int(i) => Some(i as int),
        ConstV::Long(l) => Some(l as int),
        ConstV::UInt(u) => Some(u as int),
        ConstV::ULong(u) => Some(u as int),
        ConstV::Double(_) => None,
    }
}

/// Law: an integer literal keeps its value and gets the first type of its
/// list that can hold it: `int` then `long` without a suffix, `long` with
/// `l`, `unsigned int` then `unsigned long` with `u`, `unsigned long` with
/// `ul`. A literal that no type of its list can hold is refused.
pub proof fn lemma_literal_value(n: NumericLiteralV, span: Span)
    requires
        !(n.numtype is Double),
        is_decimal(n.number),
    ensures
        ({
            let v = dec_value(n.number) as int;
            let fits = match n.numtype {
                NumericType::Int | NumericType::Long => v <= i64::MAX,
                _ => v <= u64::MAX,
            };
            match const_of(n, span) {
                Ok(c) => {
                    &&& fits
                    &&& const_int_value(c) == Some(v)
                    &&& (c is Int || c is Long) == (n.numtype is Int || n.numtype is Long)
                    &&& (c is Long && n.numtype is Int ==> v > i32::MAX)
                    &&& (c is ULong && n.numtype is UInt ==> v > u32::MAX)
                },
                Err(_) => !fits,
            }
        }),
{
}

} // verus!
