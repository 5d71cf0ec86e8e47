use vstd::prelude::*;

use crate::lexer::{PlainToken, Span, Token, TokenSV, TokenType, TokenV};
use crate::parser::ast::{
    Block, BlockItem, BlockItemV, Decl, DeclV, ExprKindV, ExprV, Expression, ExpressionKind, ForInit, ForInitV,
    FuncDeclV, FuncDeclaration, Program, Statement, StatementKind, StmtKindV, StmtV, StorageClass, VarDeclV,
    VarDeclaration, items_view, lemma_items_view, opt_expr_view,
};
use crate::parser::decl::{Declarator, DeclaratorV, names_view, p_declarator, p_specifiers, process_decl};
use crate::parser::expr::{mk, p_cont, p_expr, p_factor_tok, p_postfix};
use crate::parser::{PState, ParseError, ParseErrorV, Parser, is_specifier_token, is_type_token};
use crate::types::{Type, TypeV};

verus! {

broadcast use vstd::std_specs::vec::group_vec_axioms, vstd::seq::group_seq_axioms;

pub open spec fn mk_stmt(kind: StmtKindV, span: Span) -> StmtV {
    StmtV { kind, span }
}

/// A variable declaration after its declarator: an optional initializer and `;`.
pub open spec fn p_var_decl(s: PState, ident: Seq<char>, var_type: TypeV, storage: Option<StorageClass>) -> Result<
    (VarDeclV, PState),
    ParseErrorV,
> {
    let init: Result<(Option<ExprV>, PState), ParseErrorV> = if !s.next_is(PlainToken::Semicolon) {
        match s.expect(PlainToken::Equal) {
            Err(e) => Err(e),
            Ok(s1) => match p_expr(s1, 0) {
                Err(e) => Err(e),
                Ok((e, s2)) => Ok((Some(e), s2)),
            },
        }
    } else {
        Ok((None, s))
    };
    match init {
        Err(e) => Err(e),
        Ok((init, s2)) => match s2.expect(PlainToken::Semicolon) {
            Err(e) => Err(e),
            Ok(s3) => Ok((VarDeclV { identifier: ident, var_type, init, storage, span: s3.span }, s3)),
        },
    }
}

/// A declaration: specifiers, a declarator, then a function's body or `;`,
/// or a variable's initializer and `;`.
pub open spec fn p_decl(s: PState) -> Result<(DeclV, PState), ParseErrorV>
    decreases s.toks.len() - s.pos, 7int,
{
    match p_specifiers(s, Seq::empty(), None) {
        Err(e) => Err(e),
        Ok(((dtype, storage), s1)) => match p_declarator(s1) {
            Err(e) => Err(e),
            Ok((d, s2)) => match process_decl(d, dtype, s2.span) {
                Err(e) => Err(e),
                Ok((ident, datatype, params)) => if s.advanced_to(s2) {
                    if d is FuncDeclarator {
                        match p_func_decl(s2, ident, datatype, params->0, storage) {
                            Err(e) => Err(e),
                            Ok((f, s3)) => Ok((DeclV::FuncDecl(f), s3)),
                        }
                    } else {
                        match p_var_decl(s2, ident, dtype, storage) {
                            Err(e) => Err(e),
                            Ok((v, s3)) => Ok((DeclV::VarDecl(v), s3)),
                        }
                    }
                } else {
                    Err(ParseErrorV::UnexpectedEOF)
                },
            },
        },
    }
}

/// A function declaration after its declarator: a body or `;`.
pub open spec fn p_func_decl(
    s: PState,
    ident: Seq<char>,
    func_type: TypeV,
    params: Seq<Seq<char>>,
    storage: Option<StorageClass>,
) -> Result<(FuncDeclV, PState), ParseErrorV>
    decreases s.toks.len() - s.pos, 7int,
{
    if s.next_is(PlainToken::OpenBrace) {
        match p_block(s) {
            Err(e) => Err(e),
            Ok((b, s1)) => Ok((FuncDeclV { identifier: ident, func_type, params, body: Some(b), storage, span: s1.span }, s1)),
        }
    } else {
        match s.expect(PlainToken::Semicolon) {
            Err(e) => Err(e),
            Ok(s1) => Ok((FuncDeclV { identifier: ident, func_type, params, body: None, storage, span: s1.span }, s1)),
        }
    }
}

/// A block: `{`, its items, `}`.
pub open spec fn p_block(s: PState) -> Result<(Seq<BlockItemV>, PState), ParseErrorV>
    decreases s.toks.len() - s.pos, 6int,
{
    match s.expect(PlainToken::OpenBrace) {
        Err(e) => Err(e),
        Ok(s1) => p_items(s1, Seq::empty()),
    }
}

/// Block items up to the closing brace, which is consumed.
pub open spec fn p_items(s: PState, acc: Seq<BlockItemV>) -> Result<(Seq<BlockItemV>, PState), ParseErrorV>
    decreases s.toks.len() - s.pos, 9int,
{
    if s.next_is(PlainToken::CloseBrace) {
        match s.expect(PlainToken::CloseBrace) {
            Err(e) => Err(e),
            Ok(s1) => Ok((acc, s1)),
        }
    } else {
        match p_item(s) {
            Err(e) => Err(e),
            Ok((it, s1)) => if s.advanced_to(s1) {
                p_items(s1, acc.push(it))
            } else {
                Err(ParseErrorV::UnexpectedEOF)
            },
        }
    }
}

/// A declaration if a specifier comes next, else a statement.
pub open spec fn p_item(s: PState) -> Result<(BlockItemV, PState), ParseErrorV>
    decreases s.toks.len() - s.pos, 8int,
{
    if s.peek() matches Some(t) && is_specifier_token(t.token_type) {
        match p_decl(s) {
            Err(e) => Err(e),
            Ok((d, s1)) => Ok((BlockItemV::D(d), s1)),
        }
    } else {
        match p_stmt(s) {
            Err(e) => Err(e),
            Ok((st, s1)) => Ok((BlockItemV::S(st), s1)),
        }
    }
}

/// A statement, by its first token.
pub open spec fn p_stmt(s: PState) -> Result<(StmtV, PState), ParseErrorV>
    decreases s.toks.len() - s.pos, 7int,
{
    match s.next_type() {
        Err(e) => Err(e),
        Ok(t) => if t is Identifier {
            p_ident_stmt(s)
        } else if t == TokenV::Plain(PlainToken::Semicolon) {
            match s.expect(PlainToken::Semicolon) {
                Err(e) => Err(e),
                Ok(s1) => Ok((mk_stmt(StmtKindV::Null, s1.span), s1)),
            }
        } else if t == TokenV::Plain(PlainToken::Return) {
            p_return(s)
        } else if t == TokenV::Plain(PlainToken::If) {
            p_if(s)
        } else if t == TokenV::Plain(PlainToken::Goto) {
            p_goto(s)
        } else if t == TokenV::Plain(PlainToken::OpenBrace) {
            match p_block(s) {
                Err(e) => Err(e),
                Ok((b, s1)) => Ok((mk_stmt(StmtKindV::Compound(b), s1.span), s1)),
            }
        } else if t == TokenV::Plain(PlainToken::While) {
            p_while(s)
        } else if t == TokenV::Plain(PlainToken::Do) {
            p_do_while(s)
        } else if t == TokenV::Plain(PlainToken::For) {
            p_for(s)
        } else if t == TokenV::Plain(PlainToken::Break) || t == TokenV::Plain(PlainToken::Continue) {
            p_jump(s, t == TokenV::Plain(PlainToken::Break))
        } else if t == TokenV::Plain(PlainToken::Switch) {
            p_switch(s)
        } else if t == TokenV::Plain(PlainToken::Case) {
            p_case(s)
        } else if t == TokenV::Plain(PlainToken::Default) {
            match s.adv() {
                Err(e) => Err(e),
                Ok((_, s1)) => match s1.expect(PlainToken::Colon) {
                    Err(e) => Err(e),
                    Ok(s2) => Ok((mk_stmt(StmtKindV::Default { lab: Seq::empty() }, s2.span), s2)),
                },
            }
        } else if is_type_token(t) {
            Err(ParseErrorV::ExpectedStatement(s.span))
        } else {
            match p_expr(s, 0) {
                Err(e) => Err(e),
                Ok((e, s1)) => match s1.expect(PlainToken::Semicolon) {
                    Err(x) => Err(x),
                    Ok(s2) => Ok((mk_stmt(StmtKindV::Expression(e), s2.span), s2)),
                },
            }
        },
    }
}

/// `return expression ;`
pub open spec fn p_return(s: PState) -> Result<(StmtV, PState), ParseErrorV>
    decreases s.toks.len() - s.pos, 6int,
{
    match s.adv() {
        Err(e) => Err(e),
        Ok((_, s1)) => match p_expr(s1, 0) {
            Err(e) => Err(e),
            Ok((e, s2)) => match s2.expect(PlainToken::Semicolon) {
                Err(x) => Err(x),
                Ok(s3) => Ok((mk_stmt(StmtKindV::Return(e), s3.span), s3)),
            },
        },
    }
}

/// `if ( condition ) statement [else statement]`
pub open spec fn p_if(s: PState) -> Result<(StmtV, PState), ParseErrorV>
    decreases s.toks.len() - s.pos, 6int,
{
    match s.adv() {
        Err(e) => Err(e),
        Ok((_, s1)) => match s1.expect(PlainToken::OpenParen) {
            Err(e) => Err(e),
            Ok(s2) => match p_expr(s2, 0) {
                Err(e) => Err(e),
                Ok((c, s3)) => match s3.expect(PlainToken::CloseParen) {
                    Err(e) => Err(e),
                    Ok(s4) => if s.advanced_to(s4) {
                        match p_stmt(s4) {
                            Err(e) => Err(e),
                            Ok((y, s5)) => if s.advanced_to(s5) {
                                if s5.next_is(PlainToken::Else) {
                                    match s5.adv() {
                                        Err(e) => Err(e),
                                        Ok((_, s6)) => match p_stmt(s6) {
                                            Err(e) => Err(e),
                                            Ok((n, s7)) => Ok(
                                                (mk_stmt(StmtKindV::If(c, Box::new(y), Some(Box::new(n))), s7.span), s7),
                                            ),
                                        },
                                    }
                                } else {
                                    Ok((mk_stmt(StmtKindV::If(c, Box::new(y), None), s5.span), s5))
                                }
                            } else {
                                Err(ParseErrorV::UnexpectedEOF)
                            },
                        }
                    } else {
                        Err(ParseErrorV::UnexpectedEOF)
                    },
                },
            },
        },
    }
}

/// A statement that starts with an identifier: a label, or an expression statement.
pub open spec fn p_ident_stmt(s: PState) -> Result<(StmtV, PState), ParseErrorV>
    decreases s.toks.len() - s.pos, 6int,
{
    match s.adv() {
        Err(e) => Err(e),
        Ok((tok, s1)) => if s1.next_is(PlainToken::Colon) {
            match s1.expect(PlainToken::Colon) {
                Err(e) => Err(e),
                Ok(s2) => match p_stmt(s2) {
                    Ok((b, s3)) => Ok((mk_stmt(StmtKindV::Label(tok.token_type->Identifier_0, Box::new(b)), s3.span), s3)),
                    Err(ParseErrorV::ExpectedStatement(sp)) => Err(ParseErrorV::LabelWithoutStatement(sp)),
                    Err(e) => Err(e),
                },
            }
        } else {
            let first: Result<(ExprV, PState), ParseErrorV> = if s1.next_is(PlainToken::OpenParen) {
                p_factor_tok(s1, tok)
            } else {
                p_postfix(s1, mk(ExprKindV::Var(tok.token_type->Identifier_0), s1.span))
            };
            match first {
                Err(e) => Err(e),
                Ok((e, s2)) => match p_cont(s2, e, 0) {
                    Err(x) => Err(x),
                    Ok((e2, s3)) => match s3.expect(PlainToken::Semicolon) {
                        Err(x) => Err(x),
                        Ok(s4) => Ok((mk_stmt(StmtKindV::Expression(e2), s4.span), s4)),
                    },
                },
            }
        },
    }
}

/// `goto label ;`
pub open spec fn p_goto(s: PState) -> Result<(StmtV, PState), ParseErrorV>
    decreases s.toks.len() - s.pos, 6int,
{
    match s.adv() {
        Err(e) => Err(e),
        Ok((_, s1)) => match s1.adv() {
            Err(e) => Err(e),
            Ok((tok, s2)) => if tok.token_type is Identifier {
                match s2.expect(PlainToken::Semicolon) {
                    Err(e) => Err(e),
                    Ok(s3) => Ok((mk_stmt(StmtKindV::Goto(tok.token_type->Identifier_0), s3.span), s3)),
                }
            } else {
                Err(ParseErrorV::ExpectedIdentifier(s2.span))
            },
        },
    }
}

/// `while ( condition ) statement`
pub open spec fn p_while(s: PState) -> Result<(StmtV, PState), ParseErrorV>
    decreases s.toks.len() - s.pos, 6int,
{
    match s.adv() {
        Err(e) => Err(e),
        Ok((_, s1)) => match s1.expect(PlainToken::OpenParen) {
            Err(e) => Err(e),
            Ok(s2) => match p_expr(s2, 0) {
                Err(e) => Err(e),
                Ok((c, s3)) => match s3.expect(PlainToken::CloseParen) {
                    Err(e) => Err(e),
                    Ok(s4) => if s.advanced_to(s4) {
                        match p_stmt(s4) {
                            Err(e) => Err(e),
                            Ok((body, s5)) => Ok(
                                (mk_stmt(StmtKindV::While { cond: c, body: Box::new(body), lab: Seq::empty() }, s5.span), s5),
                            ),
                        }
                    } else {
                        Err(ParseErrorV::UnexpectedEOF)
                    },
                },
            },
        },
    }
}

/// `do statement while ( condition ) ;`
pub open spec fn p_do_while(s: PState) -> Result<(StmtV, PState), ParseErrorV>
    decreases s.toks.len() - s.pos, 6int,
{
    match s.adv() {
        Err(e) => Err(e),
        Ok((_, s1)) => match p_stmt(s1) {
            Err(e) => Err(e),
            Ok((body, s2)) => match s2.expect(PlainToken::While) {
                Err(e) => Err(e),
                Ok(s3) => match s3.expect(PlainToken::OpenParen) {
                    Err(e) => Err(e),
                    Ok(s4) => match p_expr(s4, 0) {
                        Err(e) => Err(e),
                        Ok((c, s5)) => match s5.expect(PlainToken::CloseParen) {
                            Err(e) => Err(e),
                            Ok(s6) => match s6.expect(PlainToken::Semicolon) {
                                Err(e) => Err(e),
                                Ok(s7) => Ok(
                                    (mk_stmt(StmtKindV::DoWhile { body: Box::new(body), cond: c, lab: Seq::empty() }, s7.span), s7),
                                ),
                            },
                        },
                    },
                },
            },
        },
    }
}

/// `break ;` when `is_break`, else `continue ;`.
pub open spec fn p_jump(s: PState, is_break: bool) -> Result<(StmtV, PState), ParseErrorV>
    decreases s.toks.len() - s.pos, 6int,
{
    match s.adv() {
        Err(e) => Err(e),
        Ok((_, s1)) => match s1.expect(PlainToken::Semicolon) {
            Err(e) => Err(e),
            Ok(s2) => Ok(
                (
                    mk_stmt(
                        if is_break { StmtKindV::Break(Seq::empty()) } else { StmtKindV::Continue(Seq::empty()) },
                        s2.span,
                    ),
                    s2,
                ),
            ),
        },
    }
}

/// `switch ( scrutinee ) statement`, its cases not yet collected.
pub open spec fn p_switch(s: PState) -> Result<(StmtV, PState), ParseErrorV>
    decreases s.toks.len() - s.pos, 6int,
{
    match s.adv() {
        Err(e) => Err(e),
        Ok((_, s1)) => match s1.expect(PlainToken::OpenParen) {
            Err(e) => Err(e),
            Ok(s2) => match p_expr(s2, 0) {
                Err(e) => Err(e),
                Ok((c, s3)) => match s3.expect(PlainToken::CloseParen) {
                    Err(e) => Err(e),
                    Ok(s4) => if s.advanced_to(s4) {
                        match p_stmt(s4) {
                            Err(e) => Err(e),
                            Ok((body, s5)) => Ok(
                                (
                                    mk_stmt(
                                        StmtKindV::Switch { scrutinee: c, body: Box::new(body), lab: Seq::empty(), cases: Seq::empty() },
                                        s5.span,
                                    ),
                                    s5,
                                ),
                            ),
                        }
                    } else {
                        Err(ParseErrorV::UnexpectedEOF)
                    },
                },
            },
        },
    }
}

/// `case expression :`
pub open spec fn p_case(s: PState) -> Result<(StmtV, PState), ParseErrorV>
    decreases s.toks.len() - s.pos, 6int,
{
    match s.adv() {
        Err(e) => Err(e),
        Ok((_, s1)) => match p_expr(s1, 0) {
            Err(e) => Err(e),
            Ok((e, s2)) => match s2.expect(PlainToken::Colon) {
                Err(x) => Err(x),
                Ok(s3) => Ok((mk_stmt(StmtKindV::Case { expr: e, lab: Seq::empty() }, s3.span), s3)),
            },
        },
    }
}

/// `for ( init ; condition ; post ) statement`
pub open spec fn p_for(s: PState) -> Result<(StmtV, PState), ParseErrorV>
    decreases s.toks.len() - s.pos, 6int,
{
    match s.adv() {
        Err(e) => Err(e),
        Ok((_, s1)) => match s1.expect(PlainToken::OpenParen) {
            Err(e) => Err(e),
            Ok(s2) => {
                let init: Result<(ForInitV, PState), ParseErrorV> = match s2.next_type() {
                    Err(e) => Err(e),
                    Ok(t) => if t == TokenV::Plain(PlainToken::Semicolon) {
                        match s2.adv() {
                            Err(e) => Err(e),
                            Ok((_, s3)) => Ok((ForInitV::InitExp(None), s3)),
                        }
                    } else if is_type_token(t) {
                        match p_decl(s2) {
                            Err(e) => Err(e),
                            Ok((d, s3)) => match d {
                                DeclV::VarDecl(v) => Ok((ForInitV::InitDec(v), s3)),
                                DeclV::FuncDecl(_) => Err(ParseErrorV::ExpectedVarDecl(s3.span)),
                            },
                        }
                    } else {
                        match p_expr(s2, 0) {
                            Err(e) => Err(e),
                            Ok((e, s3)) => match s3.expect(PlainToken::Semicolon) {
                                Err(x) => Err(x),
                                Ok(s4) => Ok((ForInitV::InitExp(Some(e)), s4)),
                            },
                        }
                    },
                };
                match init {
                    Err(e) => Err(e),
                    Ok((init, s3)) => {
                        let cond: Result<(Option<ExprV>, PState), ParseErrorV> = if !s3.next_is(PlainToken::Semicolon) {
                            match p_expr(s3, 0) {
                                Err(e) => Err(e),
                                Ok((e, s4)) => Ok((Some(e), s4)),
                            }
                        } else {
                            Ok((None, s3))
                        };
                        match cond {
                            Err(e) => Err(e),
                            Ok((cond, s4)) => match s4.expect(PlainToken::Semicolon) {
                                Err(e) => Err(e),
                                Ok(s5) => {
                                    let post: Result<(Option<ExprV>, PState), ParseErrorV> = if !s5.next_is(
                                        PlainToken::CloseParen,
                                    ) {
                                        match p_expr(s5, 0) {
                                            Err(e) => Err(e),
                                            Ok((e, s6)) => Ok((Some(e), s6)),
                                        }
                                    } else {
                                        Ok((None, s5))
                                    };
                                    match post {
                                        Err(e) => Err(e),
                                        Ok((post, s6)) => match s6.expect(PlainToken::CloseParen) {
                                            Err(e) => Err(e),
                                            Ok(s7) => if s.advanced_to(s7) {
                                                match p_stmt(s7) {
                                                    Err(e) => Err(e),
                                                    Ok((body, s8)) => Ok(
                                                        (
                                                            mk_stmt(
                                                                StmtKindV::For {
                                                                    init,
                                                                    cond,
                                                                    post,
                                                                    body: Box::new(body),
                                                                    lab: Seq::empty(),
                                                                },
                                                                s8.span,
                                                            ),
                                                            s8,
                                                        ),
                                                    ),
                                                }
                                            } else {
                                                Err(ParseErrorV::UnexpectedEOF)
                                            },
                                        },
                                    }
                                },
                            },
                        }
                    },
                }
            },
        },
    }
}

/// Declarations while a specifier comes next, then the end of the tokens.
pub open spec fn p_decls(s: PState, acc: Seq<DeclV>) -> Result<Seq<DeclV>, ParseErrorV>
    decreases s.toks.len() - s.pos, 9int,
{
    if s.peek() matches Some(t) && is_specifier_token(t.token_type) {
        match p_decl(s) {
            Err(e) => Err(e),
            Ok((d, s1)) => if s.advanced_to(s1) {
                p_decls(s1, acc.push(d))
            } else {
                Err(ParseErrorV::UnexpectedEOF)
            },
        }
    } else {
        match s.peek() {
            None => Ok(acc),
            Some(t) => Err(ParseErrorV::UnexpectedToken(t.token_type, t.location)),
        }
    }
}

/// Models of a list of declarations.
pub open spec fn decls_view(ds: Seq<Decl>) -> Seq<DeclV> {
    ds.map_values(|d: Decl| d@)
}

impl Parser {
    fn new_stmt(&self, kind: StatementKind) -> (r: Statement)
        ensures
            r.kind == kind,
            r.span == self@.span,
    {
        Statement::new(kind, self.span())
    }

    /// A whole program: declarations until the end of the tokens.
    pub fn parse_program(&mut self) -> (r: Result<Program, ParseError>)
        requires
            old(self)@.wf(),
        ensures
            match p_decls(old(self)@, Seq::empty()) {
                Ok(ds) => r is Ok && decls_view(r->Ok_0.declarations@) == ds,
                Err(x) => r is Err && r->Err_0@ == x,
            },
    {
        let ghost s0 = self@;
        let mut declarations: Vec<Decl> = Vec::new();
        assert(decls_view(declarations@) =~= Seq::<DeclV>::empty());
        while self.next_token_is_specifier()
            invariant
                self@.wf(),
                s0 == old(self)@,
                p_decls(s0, Seq::empty()) == p_decls(self@, decls_view(declarations@)),
            decreases self@.toks.len() - self@.pos,
        {
            let d = self.parse_declaration()?;
            proof {
                assert(decls_view(declarations@.push(d)) =~= decls_view(declarations@).push(d@));
            }
            declarations.push(d);
        }
        if self.pos < self.tokens.len() {
            let t = &self.tokens[self.pos];
            assert(crate::lexer::tokens_view(self.tokens@)[self.pos as int] == self.tokens@[self.pos as int]@);
            return Err(ParseError::UnexpectedToken(t.token_type.duplicate(), t.location));
        }
        Ok(Program { declarations })
    }

    /// A declaration: a function's or a variable's.
    pub fn parse_declaration(&mut self) -> (r: Result<Decl, ParseError>)
        requires
            old(self)@.wf(),
        ensures
            final(self)@.wf(),
            old(self)@.reaches(final(self)@),
            r is Ok ==> old(self)@.advanced_to(final(self)@),
            match p_decl(old(self)@) {
                Ok((d, s)) => r is Ok && r->Ok_0@ == d && final(self)@ == s,
                Err(x) => r is Err && r->Err_0@ == x,
            },
        decreases old(self)@.toks.len() - old(self)@.pos, 7int,
    {
        let (dtype, storage) = self.parse_specifiers()?;
        let declarator = self.parse_declarator()?;
        let (ident, datatype, params) = self.process_declarator(&declarator, dtype.clone())?;
        match declarator {
            Declarator::FuncDeclarator(..) => {
                let param_names = match params {
                    Some(ps) => ps,
                    None => vstd::pervasive::unreached(),
                };
                let f = self.parse_func_declaration(ident, datatype, param_names, storage)?;
                Ok(Decl::FuncDecl(f))
            },
            _ => {
                let v = self.parse_var_declaration(ident, dtype, storage)?;
                Ok(Decl::VarDecl(v))
            },
        }
    }

    fn parse_func_declaration(
        &mut self,
        identifier: String,
        func_type: Type,
        params: Vec<String>,
        storage: Option<StorageClass>,
    ) -> (r: Result<FuncDeclaration, ParseError>)
        requires
            old(self)@.wf(),
        ensures
            final(self)@.wf(),
            old(self)@.reaches(final(self)@),
            r is Ok ==> old(self)@.advanced_to(final(self)@),
            match p_func_decl(old(self)@, identifier@, func_type@, names_view(params@), storage) {
                Ok((f, s)) => r is Ok && r->Ok_0@ == f && final(self)@ == s,
                Err(x) => r is Err && r->Err_0@ == x,
            },
        decreases old(self)@.toks.len() - old(self)@.pos, 7int,
    {
        let body = if self.next_token_is(PlainToken::OpenBrace) {
            Some(self.parse_block()?)
        } else {
            self.expect(PlainToken::Semicolon)?;
            None
        };
        proof {
            assert(crate::parser::ast::strings_view(params@) =~= names_view(params@));
        }
        Ok(FuncDeclaration { identifier, func_type, params, body, storage, span: self.span() })
    }

    fn parse_var_declaration(&mut self, identifier: String, var_type: Type, storage: Option<StorageClass>) -> (r: Result<VarDeclaration, ParseError>)
        requires
            old(self)@.wf(),
        ensures
            final(self)@.wf(),
            old(self)@.reaches(final(self)@),
            r is Ok ==> old(self)@.advanced_to(final(self)@),
            match p_var_decl(old(self)@, identifier@, var_type@, storage) {
                Ok((v, s)) => r is Ok && r->Ok_0@ == v && final(self)@ == s,
                Err(x) => r is Err && r->Err_0@ == x,
            },
    {
        let mut init: Option<Expression> = None;
        if !self.next_token_is(PlainToken::Semicolon) {
            self.expect(PlainToken::Equal)?;
            init = Some(self.parse_expression(0)?);
        }
        self.expect(PlainToken::Semicolon)?;
        Ok(VarDeclaration { identifier, var_type, init, storage, span: self.span() })
    }

    #[verifier::rlimit(40)]
    fn parse_block(&mut self) -> (r: Result<Block, ParseError>)
        requires
            old(self)@.wf(),
        ensures
            final(self)@.wf(),
            old(self)@.reaches(final(self)@),
            r is Ok ==> old(self)@.advanced_to(final(self)@),
            match p_block(old(self)@) {
                Ok((b, s)) => r is Ok && items_view(r->Ok_0.items@) == b && final(self)@ == s,
                Err(x) => r is Err && r->Err_0@ == x,
            },
        decreases old(self)@.toks.len() - old(self)@.pos, 6int,
    {
        self.expect(PlainToken::OpenBrace)?;
        let ghost s1 = self@;
        let mut blockitems: Vec<BlockItem> = Vec::new();
        assert(items_view(blockitems@) =~= Seq::<BlockItemV>::empty());
        while !self.next_token_is(PlainToken::CloseBrace)
            invariant
                self@.wf(),
                old(self)@.advanced_to(s1),
                p_block(old(self)@) == p_items(s1, Seq::empty()),
                s1.reaches(self@),
                p_items(s1, Seq::empty()) == p_items(self@, items_view(blockitems@)),
            decreases self@.toks.len() - self@.pos,
        {
            let item = self.parse_blockitem()?;
            proof {
                lemma_items_view(blockitems@);
                lemma_items_view(blockitems@.push(item));
                assert(items_view(blockitems@.push(item)) =~= items_view(blockitems@).push(item@));
            }
            blockitems.push(item);
        }
        self.expect(PlainToken::CloseBrace)?;
        Ok(Block { items: blockitems })
    }

    fn parse_blockitem(&mut self) -> (r: Result<BlockItem, ParseError>)
        requires
            old(self)@.wf(),
        ensures
            final(self)@.wf(),
            old(self)@.reaches(final(self)@),
            r is Ok ==> old(self)@.advanced_to(final(self)@),
            match p_item(old(self)@) {
                Ok((st, s)) => r is Ok && r->Ok_0@ == st && final(self)@ == s,
                Err(x) => r is Err && r->Err_0@ == x,
            },
        decreases old(self)@.toks.len() - old(self)@.pos, 8int,
    {
        if self.next_token_is_specifier() {
            Ok(BlockItem::D(self.parse_declaration()?))
        } else {
            Ok(BlockItem::S(self.parse_statement()?))
        }
    }

    /// A statement, chosen by its first token.
    pub fn parse_statement(&mut self) -> (r: Result<Statement, ParseError>)
        requires
            old(self)@.wf(),
        ensures
            final(self)@.wf(),
            old(self)@.reaches(final(self)@),
            r is Ok ==> old(self)@.advanced_to(final(self)@),
            match p_stmt(old(self)@) {
                Ok((st, s)) => r is Ok && r->Ok_0@ == st && final(self)@ == s,
                Err(x) => r is Err && r->Err_0@ == x,
            },
        decreases old(self)@.toks.len() - old(self)@.pos, 7int,
    {
        let next = self.next_token_type()?;
        if let TokenType::Identifier(_) = next {
            return self.parse_ident_statement();
        }
        let p = match next.plain() {
            Some(p) => p,
            None => {
                let e = self.parse_expression(0)?;
                self.expect(PlainToken::Semicolon)?;
                return Ok(self.new_stmt(StatementKind::Expression(e)));
            },
        };
        if p == PlainToken::Semicolon {
            self.expect(PlainToken::Semicolon)?;
            Ok(self.new_stmt(StatementKind::Null))
        } else if p == PlainToken::Return {
            self.parse_return()
        } else if p == PlainToken::If {
            self.parse_if()
        } else if p == PlainToken::Goto {
            self.parse_goto()
        } else if p == PlainToken::OpenBrace {
            let block = self.parse_block()?;
            Ok(self.new_stmt(StatementKind::Compound(block)))
        } else if p == PlainToken::While {
            self.parse_while()
        } else if p == PlainToken::Do {
            self.parse_do_while()
        } else if p == PlainToken::For {
            self.parse_for_loop()
        } else if p == PlainToken::Break || p == PlainToken::Continue {
            self.parse_jump(p == PlainToken::Break)
        } else if p == PlainToken::Switch {
            self.parse_switch()
        } else if p == PlainToken::Case {
            self.parse_case()
        } else if p == PlainToken::Default {
            self.advance()?;
            self.expect(PlainToken::Colon)?;
            Ok(self.new_stmt(StatementKind::Default { lab: String::new() }))
        } else if crate::parser::is_type_plain(p) {
            Err(ParseError::ExpectedStatement(self.span()))
        } else {
            let e = self.parse_expression(0)?;
            self.expect(PlainToken::Semicolon)?;
            Ok(self.new_stmt(StatementKind::Expression(e)))
        }
    }

    fn parse_return(&mut self) -> (r: Result<Statement, ParseError>)
        requires
            old(self)@.wf(),
        ensures
            final(self)@.wf(),
            old(self)@.reaches(final(self)@),
            r is Ok ==> old(self)@.advanced_to(final(self)@),
            match p_return(old(self)@) {
                Ok((st, s)) => r is Ok && r->Ok_0@ == st && final(self)@ == s,
                Err(x) => r is Err && r->Err_0@ == x,
            },
        decreases old(self)@.toks.len() - old(self)@.pos, 6int,
    {
        self.advance()?;
        let e = self.parse_expression(0)?;
        self.expect(PlainToken::Semicolon)?;
        Ok(self.new_stmt(StatementKind::Return(e)))
    }

    fn parse_if(&mut self) -> (r: Result<Statement, ParseError>)
        requires
            old(self)@.wf(),
        ensures
            final(self)@.wf(),
            old(self)@.reaches(final(self)@),
            r is Ok ==> old(self)@.advanced_to(final(self)@),
            match p_if(old(self)@) {
                Ok((st, s)) => r is Ok && r->Ok_0@ == st && final(self)@ == s,
                Err(x) => r is Err && r->Err_0@ == x,
            },
        decreases old(self)@.toks.len() - old(self)@.pos, 6int,
    {
        self.advance()?;
        self.expect(PlainToken::OpenParen)?;
        let cond = self.parse_expression(0)?;
        self.expect(PlainToken::CloseParen)?;
        let yes = self.parse_statement()?;
        if self.next_token_is(PlainToken::Else) {
            self.advance()?;
            let no = self.parse_statement()?;
            Ok(self.new_stmt(StatementKind::If(cond, Box::new(yes), Some(Box::new(no)))))
        } else {
            Ok(self.new_stmt(StatementKind::If(cond, Box::new(yes), None)))
        }
    }

    /// A statement that starts with an identifier: a label or an expression.
    fn parse_ident_statement(&mut self) -> (r: Result<Statement, ParseError>)
        requires
            old(self)@.wf(),
            old(self)@.next_type() matches Ok(t) && t is Identifier,
        ensures
            final(self)@.wf(),
            old(self)@.reaches(final(self)@),
            r is Ok ==> old(self)@.advanced_to(final(self)@),
            match p_ident_stmt(old(self)@) {
                Ok((st, s)) => r is Ok && r->Ok_0@ == st && final(self)@ == s,
                Err(x) => r is Err && r->Err_0@ == x,
            },
        decreases old(self)@.toks.len() - old(self)@.pos, 6int,
    {
        let tok = self.advance()?;
        let name = match &tok.token_type {
            TokenType::Identifier(n) => n.clone(),
            _ => String::new(),
        };
        if self.next_token_is(PlainToken::Colon) {
            self.expect(PlainToken::Colon)?;
            let body = match self.parse_statement() {
                Ok(st) => st,
                Err(ParseError::ExpectedStatement(sp)) => return Err(ParseError::LabelWithoutStatement(sp)),
                Err(e) => return Err(e),
            };
            Ok(self.new_stmt(StatementKind::Label(name, Box::new(body))))
        } else if self.next_token_is(PlainToken::OpenParen) {
            let expr = self.parse_factor(Some(tok))?;
            let expr = self.parse_expression_cont(expr, 0)?;
            self.expect(PlainToken::Semicolon)?;
            Ok(self.new_stmt(StatementKind::Expression(expr)))
        } else {
            let expr = self.new_expr(ExpressionKind::Var(name));
            let expr = self.check_postfix(expr)?;
            let expr = self.parse_expression_cont(expr, 0)?;
            self.expect(PlainToken::Semicolon)?;
            Ok(self.new_stmt(StatementKind::Expression(expr)))
        }
    }

    fn parse_goto(&mut self) -> (r: Result<Statement, ParseError>)
        requires
            old(self)@.wf(),
        ensures
            final(self)@.wf(),
            old(self)@.reaches(final(self)@),
            r is Ok ==> old(self)@.advanced_to(final(self)@),
            match p_goto(old(self)@) {
                Ok((st, s)) => r is Ok && r->Ok_0@ == st && final(self)@ == s,
                Err(x) => r is Err && r->Err_0@ == x,
            },
        decreases old(self)@.toks.len() - old(self)@.pos, 6int,
    {
        self.advance()?;
        let token = self.advance()?;
        match token.token_type {
            TokenType::Identifier(name) => {
                self.expect(PlainToken::Semicolon)?;
                Ok(self.new_stmt(StatementKind::Goto(name)))
            },
            _ => Err(ParseError::ExpectedIdentifier(self.span())),
        }
    }

    fn parse_while(&mut self) -> (r: Result<Statement, ParseError>)
        requires
            old(self)@.wf(),
        ensures
            final(self)@.wf(),
            old(self)@.reaches(final(self)@),
            r is Ok ==> old(self)@.advanced_to(final(self)@),
            match p_while(old(self)@) {
                Ok((st, s)) => r is Ok && r->Ok_0@ == st && final(self)@ == s,
                Err(x) => r is Err && r->Err_0@ == x,
            },
        decreases old(self)@.toks.len() - old(self)@.pos, 6int,
    {
        self.advance()?;
        self.expect(PlainToken::OpenParen)?;
        let cond = self.parse_expression(0)?;
        self.expect(PlainToken::CloseParen)?;
        let body = Box::new(self.parse_statement()?);
        Ok(self.new_stmt(StatementKind::While { cond, body, lab: String::new() }))
    }

    fn parse_do_while(&mut self) -> (r: Result<Statement, ParseError>)
        requires
            old(self)@.wf(),
        ensures
            final(self)@.wf(),
            old(self)@.reaches(final(self)@),
            r is Ok ==> old(self)@.advanced_to(final(self)@),
            match p_do_while(old(self)@) {
                Ok((st, s)) => r is Ok && r->Ok_0@ == st && final(self)@ == s,
                Err(x) => r is Err && r->Err_0@ == x,
            },
        decreases old(self)@.toks.len() - old(self)@.pos, 6int,
    {
        self.advance()?;
        let body = Box::new(self.parse_statement()?);
        self.expect(PlainToken::While)?;
        self.expect(PlainToken::OpenParen)?;
        let cond = self.parse_expression(0)?;
        self.expect(PlainToken::CloseParen)?;
        self.expect(PlainToken::Semicolon)?;
        Ok(self.new_stmt(StatementKind::DoWhile { body, cond, lab: String::new() }))
    }

    fn parse_jump(&mut self, is_break: bool) -> (r: Result<Statement, ParseError>)
        requires
            old(self)@.wf(),
        ensures
            final(self)@.wf(),
            old(self)@.reaches(final(self)@),
            r is Ok ==> old(self)@.advanced_to(final(self)@),
            match p_jump(old(self)@, is_break) {
                Ok((st, s)) => r is Ok && r->Ok_0@ == st && final(self)@ == s,
                Err(x) => r is Err && r->Err_0@ == x,
            },
        decreases old(self)@.toks.len() - old(self)@.pos, 6int,
    {
        self.advance()?;
        self.expect(PlainToken::Semicolon)?;
        if is_break {
            Ok(self.new_stmt(StatementKind::Break(String::new())))
        } else {
            Ok(self.new_stmt(StatementKind::Continue(String::new())))
        }
    }

    fn parse_switch(&mut self) -> (r: Result<Statement, ParseError>)
        requires
            old(self)@.wf(),
        ensures
            final(self)@.wf(),
            old(self)@.reaches(final(self)@),
            r is Ok ==> old(self)@.advanced_to(final(self)@),
            match p_switch(old(self)@) {
                Ok((st, s)) => r is Ok && r->Ok_0@ == st && final(self)@ == s,
                Err(x) => r is Err && r->Err_0@ == x,
            },
        decreases old(self)@.toks.len() - old(self)@.pos, 6int,
    {
        self.advance()?;
        self.expect(PlainToken::OpenParen)?;
        let scrutinee = self.parse_expression(0)?;
        self.expect(PlainToken::CloseParen)?;
        let body = self.parse_statement()?;
        let cases: Vec<(Option<Expression>, String)> = Vec::new();
        assert(crate::parser::ast::cases_view(cases@) =~= Seq::<(Option<ExprV>, Seq<char>)>::empty());
        Ok(self.new_stmt(StatementKind::Switch { scrutinee, body: Box::new(body), lab: String::new(), cases }))
    }

    fn parse_case(&mut self) -> (r: Result<Statement, ParseError>)
        requires
            old(self)@.wf(),
        ensures
            final(self)@.wf(),
            old(self)@.reaches(final(self)@),
            r is Ok ==> old(self)@.advanced_to(final(self)@),
            match p_case(old(self)@) {
                Ok((st, s)) => r is Ok && r->Ok_0@ == st && final(self)@ == s,
                Err(x) => r is Err && r->Err_0@ == x,
            },
        decreases old(self)@.toks.len() - old(self)@.pos, 6int,
    {
        self.advance()?;
        let expr = self.parse_expression(0)?;
        self.expect(PlainToken::Colon)?;
        Ok(self.new_stmt(StatementKind::Case { expr, lab: String::new() }))
    }

    fn parse_for_loop(&mut self) -> (r: Result<Statement, ParseError>)
        requires
            old(self)@.wf(),
        ensures
            final(self)@.wf(),
            old(self)@.reaches(final(self)@),
            r is Ok ==> old(self)@.advanced_to(final(self)@),
            match p_for(old(self)@) {
                Ok((st, s)) => r is Ok && r->Ok_0@ == st && final(self)@ == s,
                Err(x) => r is Err && r->Err_0@ == x,
            },
        decreases old(self)@.toks.len() - old(self)@.pos, 6int,
    {
        self.advance()?;
        self.expect(PlainToken::OpenParen)?;
        let next = self.next_token_type()?;
        let init = match next.plain() {
            Some(PlainToken::Semicolon) => {
                self.advance()?;
                ForInit::InitExp(None)
            },
            Some(p) if crate::parser::is_type_plain(p) => {
                let dec = match self.parse_declaration()? {
                    Decl::VarDecl(v) => v,
                    Decl::FuncDecl(_) => return Err(ParseError::ExpectedVarDecl(self.span())),
                };
                ForInit::InitDec(dec)
            },
            _ => {
                let exp = self.parse_expression(0)?;
                self.expect(PlainToken::Semicolon)?;
                ForInit::InitExp(Some(exp))
            },
        };
        let mut cond = None;
        if !self.next_token_is(PlainToken::Semicolon) {
            cond = Some(self.parse_expression(0)?);
        }
        self.expect(PlainToken::Semicolon)?;
        let mut post = None;
        if !self.next_token_is(PlainToken::CloseParen) {
            post = Some(self.parse_expression(0)?);
        }
        self.expect(PlainToken::CloseParen)?;
        let body = Box::new(self.parse_statement()?);
        Ok(self.new_stmt(StatementKind::For { init, cond, post, body, lab: String::new() }))
    }
}

} // verus!
