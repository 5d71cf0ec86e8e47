use vstd::prelude::*;

use crate::lexer::{PlainToken, Span, TokenSV, TokenType, TokenV};
use crate::parser::ast::StorageClass;
use crate::parser::{
    PState, ParseError, ParseErrorV, Parser, is_specifier_token, is_type_token, token_types_view, types_of,
};
use crate::text::chars_of;
use crate::types::{Type, TypeV, lemma_params_view, params_view};

verus! {

broadcast use vstd::std_specs::vec::group_vec_axioms, vstd::seq::group_seq_axioms;

/// The part of a declaration that names what is declared and derives its type.
#[derive(Debug)]
pub enum Declarator {
    Ident(String),
    PointerDeclarator(Box<Declarator>),
    FuncDeclarator(Vec<Parameter>, Box<Declarator>),
}

/// A declarator without a name, as in a cast to a pointer type.
#[derive(Debug)]
pub enum AbstractDeclarator {
    AbstractPointer(Box<AbstractDeclarator>),
    AbstractBase,
}

/// A function parameter: its declarator and its base type.
#[derive(Debug)]
pub struct Parameter {
    pub declarator: Declarator,
    pub datatype: Type,
}

pub enum DeclaratorV {
    Ident(Seq<char>),
    PointerDeclarator(Box<DeclaratorV>),
    FuncDeclarator(Seq<ParameterV>, Box<DeclaratorV>),
}

pub struct ParameterV {
    pub declarator: DeclaratorV,
    pub datatype: TypeV,
}

pub open spec fn declarator_view(d: Declarator) -> DeclaratorV
    decreases d,
{
    match d {
        Declarator::Ident(n) => DeclaratorV::Ident(n@),
        Declarator::PointerDeclarator(inner) => DeclaratorV::PointerDeclarator(Box::new(declarator_view(*inner))),
        Declarator::FuncDeclarator(ps, inner) => DeclaratorV::FuncDeclarator(
            parameters_view(ps@),
            Box::new(declarator_view(*inner)),
        ),
    }
}

pub open spec fn parameters_view(ps: Seq<Parameter>) -> Seq<ParameterV>
    decreases ps,
{
    if ps.len() == 0 {
        Seq::empty()
    } else {
        seq![ParameterV { declarator: declarator_view(ps[0].declarator), datatype: ps[0].datatype@ }]
            + parameters_view(ps.subrange(1, ps.len() as int))
    }
}

proof fn lemma_parameters_view(ps: Seq<Parameter>)
    ensures
        parameters_view(ps).len() == ps.len(),
        forall|i: int| 0 <= i < ps.len() ==> #[trigger] parameters_view(ps)[i] == (ParameterV {
            declarator: declarator_view(ps[i].declarator),
            datatype: ps[i].datatype@,
        }),
    decreases ps.len(),
{
    if ps.len() > 0 {
        let rest = ps.subrange(1, ps.len() as int);
        lemma_parameters_view(rest);
        assert(parameters_view(ps).len() == 1 + parameters_view(rest).len());
        assert forall|i: int| 0 <= i < ps.len() implies #[trigger] parameters_view(ps)[i] == (ParameterV {
            declarator: declarator_view(ps[i].declarator),
            datatype: ps[i].datatype@,
        }) by {
            if i > 0 {
                assert(rest[i - 1] == ps[i]);
            }
        }
    }
}

impl View for Declarator {
    type V = DeclaratorV;

    open spec fn view(&self) -> DeclaratorV {
        declarator_view(*self)
    }
}

/// The name, the type and, for a function, the parameter names a declarator
/// gives a base type.
pub open spec fn process_decl(d: DeclaratorV, base: TypeV, span: Span) -> Result<
    (Seq<char>, TypeV, Option<Seq<Seq<char>>>),
    ParseErrorV,
>
    decreases d,
{
    match d {
        DeclaratorV::Ident(name) => Ok((name, base, None)),
        DeclaratorV::PointerDeclarator(inner) => process_decl(*inner, TypeV::Pointer(Box::new(base)), span),
        DeclaratorV::FuncDeclarator(params, inner) => match *inner {
            DeclaratorV::Ident(name) => match process_params(params, span) {
                Err(e) => Err(e),
                Ok((names, types)) => Ok((name, TypeV::FuncType(types, Box::new(base)), Some(names))),
            },
            _ => Err(ParseErrorV::InvalidTypes(span)),
        },
    }
}

/// The names and types of a parameter list; a parameter of function type is an error.
pub open spec fn process_params(params: Seq<ParameterV>, span: Span) -> Result<(Seq<Seq<char>>, Seq<TypeV>), ParseErrorV>
    decreases params,
{
    if params.len() == 0 {
        Ok((Seq::empty(), Seq::empty()))
    } else {
        match process_decl(params[0].declarator, params[0].datatype, span) {
            Err(e) => Err(e),
            Ok((name, ty, _)) => if ty is FuncType {
                Err(ParseErrorV::InvalidTypes(span))
            } else {
                match process_params(params.subrange(1, params.len() as int), span) {
                    Err(e) => Err(e),
                    Ok((names, types)) => Ok((seq![name] + names, seq![ty] + types)),
                }
            },
        }
    }
}

// ---------------------------------------------------------------------------
// The declarator grammar
// ---------------------------------------------------------------------------

/// A declarator: `*` declarators, or a direct declarator.
pub open spec fn p_declarator(s: PState) -> Result<(DeclaratorV, PState), ParseErrorV>
    decreases s.toks.len() - s.pos, 3int,
{
    if s.next_is(PlainToken::Asterisk) {
        match s.adv() {
            Err(e) => Err(e),
            Ok((_, s1)) => match p_declarator(s1) {
                Err(e) => Err(e),
                Ok((d, s2)) => Ok((DeclaratorV::PointerDeclarator(Box::new(d)), s2)),
            },
        }
    } else {
        p_direct(s)
    }
}

/// A simple declarator, then a parameter list if one follows.
pub open spec fn p_direct(s: PState) -> Result<(DeclaratorV, PState), ParseErrorV>
    decreases s.toks.len() - s.pos, 2int,
{
    match p_simple(s) {
        Err(e) => Err(e),
        Ok((simple, s1)) => if s1.next_is(PlainToken::OpenParen) {
            if s.advanced_to(s1) {
                match p_func_params(s1) {
                    Err(e) => Err(e),
                    Ok((params, s2)) => Ok((DeclaratorV::FuncDeclarator(params, Box::new(simple)), s2)),
                }
            } else {
                Err(ParseErrorV::UnexpectedEOF)
            }
        } else {
            Ok((simple, s1))
        },
    }
}

/// A name, or a parenthesized declarator.
pub open spec fn p_simple(s: PState) -> Result<(DeclaratorV, PState), ParseErrorV>
    decreases s.toks.len() - s.pos, 1int,
{
    match s.next_type() {
        Err(e) => Err(e),
        Ok(t) => if t is Identifier {
            match s.adv() {
                Err(e) => Err(e),
                Ok((tok, s1)) => Ok((DeclaratorV::Ident(tok.token_type->Identifier_0), s1)),
            }
        } else if s.next_is(PlainToken::OpenParen) {
            match s.adv() {
                Err(e) => Err(e),
                Ok((_, s1)) => match p_declarator(s1) {
                    Err(e) => Err(e),
                    Ok((d, s2)) => match s2.expect(PlainToken::CloseParen) {
                        Err(e) => Err(e),
                        Ok(s3) => Ok((d, s3)),
                    },
                },
            }
        } else {
            Err(ParseErrorV::InvalidDeclarator(s.span))
        },
    }
}

/// A parameter list: `(void)`, or parameters separated by commas.
pub open spec fn p_func_params(s: PState) -> Result<(Seq<ParameterV>, PState), ParseErrorV>
    decreases s.toks.len() - s.pos, 2int,
{
    match s.expect(PlainToken::OpenParen) {
        Err(e) => Err(e),
        Ok(s1) => if s1.next_is(PlainToken::Void) {
            match s1.adv() {
                Err(e) => Err(e),
                Ok((_, s2)) => match s2.expect(PlainToken::CloseParen) {
                    Err(e) => Err(e),
                    Ok(s3) => Ok((Seq::empty(), s3)),
                },
            }
        } else {
            p_params_outer(s1, Seq::empty())
        },
    }
}

/// Parameters until the closing parenthesis, which is consumed.
pub open spec fn p_params_outer(s: PState, acc: Seq<ParameterV>) -> Result<(Seq<ParameterV>, PState), ParseErrorV>
    decreases s.toks.len() - s.pos, 5int,
{
    if s.next_is(PlainToken::CloseParen) {
        match s.expect(PlainToken::CloseParen) {
            Err(e) => Err(e),
            Ok(s1) => Ok((acc, s1)),
        }
    } else {
        match p_parameter(s) {
            Err(e) => Err(e),
            Ok((p, s1)) => if s.reaches(s1) {
                match p_params_inner(s1, acc.push(p)) {
                    Err(e) => Err(e),
                    Ok((acc2, s2)) => if s.advanced_to(s2) {
                        p_params_outer(s2, acc2)
                    } else {
                        Err(ParseErrorV::UnexpectedEOF)
                    },
                }
            } else {
                Err(ParseErrorV::UnexpectedEOF)
            },
        }
    }
}

/// Further parameters, each after a comma.
pub open spec fn p_params_inner(s: PState, acc: Seq<ParameterV>) -> Result<(Seq<ParameterV>, PState), ParseErrorV>
    decreases s.toks.len() - s.pos, 4int,
{
    if s.next_is(PlainToken::Comma) {
        match s.expect(PlainToken::Comma) {
            Err(e) => Err(e),
            Ok(s1) => match p_parameter(s1) {
                Err(e) => Err(e),
                Ok((p, s2)) => if s.advanced_to(s2) {
                    p_params_inner(s2, acc.push(p))
                } else {
                    Err(ParseErrorV::UnexpectedEOF)
                },
            },
        }
    } else {
        Ok((acc, s))
    }
}

/// One parameter: its type specifiers, then its declarator.
pub open spec fn p_parameter(s: PState) -> Result<(ParameterV, PState), ParseErrorV>
    decreases s.toks.len() - s.pos, 4int,
{
    match p_type_specs(s, Seq::empty()) {
        Err(e) => Err(e),
        Ok((types, s1)) => match types_of(types, s1.span) {
            Err(e) => Err(e),
            Ok(ty) => if s.reaches(s1) {
                match p_declarator(s1) {
                    Err(e) => Err(e),
                    Ok((d, s2)) => Ok((ParameterV { declarator: d, datatype: ty }, s2)),
                }
            } else {
                Err(ParseErrorV::UnexpectedEOF)
            },
        },
    }
}

/// A run of type specifiers; an error at the end of the tokens.
pub open spec fn p_type_specs(s: PState, acc: Seq<TokenV>) -> Result<(Seq<TokenV>, PState), ParseErrorV>
    decreases s.toks.len() - s.pos,
{
    match s.next_type() {
        Err(e) => Err(e),
        Ok(t) => if is_type_token(t) {
            match s.adv() {
                Err(e) => Err(e),
                Ok((tok, s1)) => p_type_specs(s1, acc.push(tok.token_type)),
            }
        } else {
            Ok((acc, s))
        },
    }
}

/// The specifiers of a declaration: its base type and storage class.
pub open spec fn p_specifiers(s: PState, types: Seq<TokenV>, storage: Option<StorageClass>) -> Result<
    ((TypeV, Option<StorageClass>), PState),
    ParseErrorV,
>
    decreases s.toks.len() - s.pos,
{
    match s.next_type() {
        Err(e) => Err(e),
        Ok(t) => if !is_specifier_token(t) {
            if types.len() < 1 {
                Err(ParseErrorV::InvalidTypes(s.span))
            } else {
                match types_of(types, s.span) {
                    Err(e) => Err(e),
                    Ok(ty) => Ok(((ty, storage), s)),
                }
            }
        } else {
            match s.adv() {
                Err(e) => Err(e),
                Ok((tok, s1)) => if is_type_token(tok.token_type) {
                    p_specifiers(s1, types.push(tok.token_type), storage)
                } else if storage is Some {
                    Err(ParseErrorV::InvalidStorageClasses(s1.span))
                } else if tok.token_type == TokenV::Plain(PlainToken::Static) {
                    p_specifiers(s1, types, Some(StorageClass::Static))
                } else {
                    p_specifiers(s1, types, Some(StorageClass::Extern))
                },
            }
        },
    }
}

/// Models of a list of names.
pub open spec fn names_view(ns: Seq<String>) -> Seq<Seq<char>> {
    ns.map_values(|n: String| n@)
}

impl Parser {
    /// The name of the next token, which must be an identifier.
    fn expect_ident(&mut self) -> (r: Result<String, ParseError>)
        requires
            old(self)@.wf(),
        ensures
            final(self)@.wf(),
            old(self)@.reaches(final(self)@),
            match old(self)@.adv() {
                Ok((t, s)) => if t.token_type is Identifier {
                    r is Ok && r->Ok_0@ == t.token_type->Identifier_0 && final(self)@ == s
                } else {
                    r is Err && r->Err_0@ == ParseErrorV::ExpectedIdentifier(s.span)
                },
                Err(e) => r is Err && r->Err_0@ == e,
            },
    {
        let token = self.advance()?;
        match token.token_type {
            TokenType::Identifier(name) => Ok(name),
            _ => Err(ParseError::ExpectedIdentifier(self.span())),
        }
    }

    pub(crate) fn parse_declarator(&mut self) -> (r: Result<Declarator, ParseError>)
        requires
            old(self)@.wf(),
        ensures
            final(self)@.wf(),
            old(self)@.reaches(final(self)@),
            r is Ok ==> old(self)@.advanced_to(final(self)@),
            match p_declarator(old(self)@) {
                Ok((d, s)) => r is Ok && r->Ok_0@ == d && final(self)@ == s,
                Err(x) => r is Err && r->Err_0@ == x,
            },
        decreases old(self)@.toks.len() - old(self)@.pos, 3int,
    {
        if self.next_token_is(PlainToken::Asterisk) {
            self.advance()?;
            let inner = self.parse_declarator()?;
            Ok(Declarator::PointerDeclarator(Box::new(inner)))
        } else {
            self.parse_direct_declarator()
        }
    }

    fn parse_direct_declarator(&mut self) -> (r: Result<Declarator, ParseError>)
        requires
            old(self)@.wf(),
        ensures
            final(self)@.wf(),
            old(self)@.reaches(final(self)@),
            r is Ok ==> old(self)@.advanced_to(final(self)@),
            match p_direct(old(self)@) {
                Ok((d, s)) => r is Ok && r->Ok_0@ == d && final(self)@ == s,
                Err(x) => r is Err && r->Err_0@ == x,
            },
        decreases old(self)@.toks.len() - old(self)@.pos, 2int,
    {
        let simple = self.parse_simple_declarator()?;
        if self.next_token_is(PlainToken::OpenParen) {
            let params = self.parse_func_params()?;
            Ok(Declarator::FuncDeclarator(params, Box::new(simple)))
        } else {
            Ok(simple)
        }
    }

    fn parse_simple_declarator(&mut self) -> (r: Result<Declarator, ParseError>)
        requires
            old(self)@.wf(),
        ensures
            final(self)@.wf(),
            old(self)@.reaches(final(self)@),
            r is Ok ==> old(self)@.advanced_to(final(self)@),
            match p_simple(old(self)@) {
                Ok((d, s)) => r is Ok && r->Ok_0@ == d && final(self)@ == s,
                Err(x) => r is Err && r->Err_0@ == x,
            },
        decreases old(self)@.toks.len() - old(self)@.pos, 1int,
    {
        let next = self.next_token_type()?;
        if let TokenType::Identifier(_) = next {
            let ident = self.expect_ident()?;
            Ok(Declarator::Ident(ident))
        } else if self.next_token_is(PlainToken::OpenParen) {
            self.advance()?;
            let declarator = self.parse_declarator()?;
            self.expect(PlainToken::CloseParen)?;
            Ok(declarator)
        } else {
            Err(ParseError::InvalidDeclarator(self.span()))
        }
    }

    fn parse_func_params(&mut self) -> (r: Result<Vec<Parameter>, ParseError>)
        requires
            old(self)@.wf(),
        ensures
            final(self)@.wf(),
            old(self)@.reaches(final(self)@),
            match p_func_params(old(self)@) {
                Ok((ps, s)) => r is Ok && parameters_view(r->Ok_0@) == ps && final(self)@ == s,
                Err(x) => r is Err && r->Err_0@ == x,
            },
        decreases old(self)@.toks.len() - old(self)@.pos, 2int,
    {
        self.expect(PlainToken::OpenParen)?;
        let mut params_list: Vec<Parameter> = Vec::new();
        assert(parameters_view(params_list@) =~= Seq::<ParameterV>::empty());
        if self.next_token_is(PlainToken::Void) {
            self.advance()?;
            self.expect(PlainToken::CloseParen)?;
            return Ok(params_list);
        }
        self.parse_params_outer(&mut params_list)?;
        Ok(params_list)
    }

    fn parse_params_outer(&mut self, params: &mut Vec<Parameter>) -> (r: Result<(), ParseError>)
        requires
            old(self)@.wf(),
        ensures
            final(self)@.wf(),
            old(self)@.reaches(final(self)@),
            match p_params_outer(old(self)@, parameters_view(old(params)@)) {
                Ok((acc, s)) => r is Ok && parameters_view(final(params)@) == acc && final(self)@ == s,
                Err(x) => r is Err && r->Err_0@ == x,
            },
        decreases old(self)@.toks.len() - old(self)@.pos, 5int,
    {
        if self.next_token_is(PlainToken::CloseParen) {
            self.expect(PlainToken::CloseParen)?;
            return Ok(());
        }
        let p = self.parse_parameter()?;
        proof {
            lemma_parameters_view(params@);
            lemma_parameters_view(params@.push(p));
            assert(parameters_view(params@.push(p)) =~= parameters_view(params@).push(
                ParameterV { declarator: declarator_view(p.declarator), datatype: p.datatype@ },
            ));
        }
        params.push(p);
        self.parse_params_inner(params)?;
        self.parse_params_outer(params)
    }

    fn parse_params_inner(&mut self, params: &mut Vec<Parameter>) -> (r: Result<(), ParseError>)
        requires
            old(self)@.wf(),
        ensures
            final(self)@.wf(),
            old(self)@.reaches(final(self)@),
            r is Ok && old(self)@.next_is(PlainToken::Comma) ==> old(self)@.advanced_to(final(self)@),
            match p_params_inner(old(self)@, parameters_view(old(params)@)) {
                Ok((acc, s)) => r is Ok && parameters_view(final(params)@) == acc && final(self)@ == s,
                Err(x) => r is Err && r->Err_0@ == x,
            },
        decreases old(self)@.toks.len() - old(self)@.pos, 4int,
    {
        if !self.next_token_is(PlainToken::Comma) {
            return Ok(());
        }
        self.expect(PlainToken::Comma)?;
        let p = self.parse_parameter()?;
        proof {
            lemma_parameters_view(params@);
            lemma_parameters_view(params@.push(p));
            assert(parameters_view(params@.push(p)) =~= parameters_view(params@).push(
                ParameterV { declarator: declarator_view(p.declarator), datatype: p.datatype@ },
            ));
        }
        params.push(p);
        self.parse_params_inner(params)
    }

    fn parse_parameter(&mut self) -> (r: Result<Parameter, ParseError>)
        requires
            old(self)@.wf(),
        ensures
            final(self)@.wf(),
            old(self)@.reaches(final(self)@),
            r is Ok ==> old(self)@.advanced_to(final(self)@),
            match p_parameter(old(self)@) {
                Ok((p, s)) => r is Ok && (ParameterV {
                    declarator: declarator_view(r->Ok_0.declarator),
                    datatype: r->Ok_0.datatype@,
                }) == p && final(self)@ == s,
                Err(x) => r is Err && r->Err_0@ == x,
            },
        decreases old(self)@.toks.len() - old(self)@.pos, 4int,
    {
        let param_type = self.collect_param_type()?;
        let param_decl = self.parse_declarator()?;
        Ok(Parameter { declarator: param_decl, datatype: param_type })
    }

    /// The type specifiers of a parameter and the type they spell.
    fn collect_param_type(&mut self) -> (r: Result<Type, ParseError>)
        requires
            old(self)@.wf(),
        ensures
            final(self)@.wf(),
            old(self)@.reaches(final(self)@),
            match p_type_specs(old(self)@, Seq::empty()) {
                Ok((ts, s)) => match types_of(ts, s.span) {
                    Ok(t) => r is Ok && r->Ok_0@ == t && final(self)@ == s,
                    Err(x) => r is Err && r->Err_0@ == x,
                },
                Err(x) => r is Err && r->Err_0@ == x,
            },
    {
        let ghost s0 = self@;
        let mut types: Vec<TokenType> = Vec::new();
        assert(token_types_view(types@) =~= Seq::<TokenV>::empty());
        loop
            invariant
                self@.wf(),
                s0 == old(self)@,
                s0.reaches(self@),
                p_type_specs(s0, Seq::empty()) == p_type_specs(self@, token_types_view(types@)),
            ensures
                self@.wf(),
                s0.reaches(self@),
                p_type_specs(s0, Seq::empty()) == Ok::<(Seq<TokenV>, PState), ParseErrorV>((token_types_view(types@), self@)),
            decreases self@.toks.len() - self@.pos,
        {
            let next = match self.next_token_type() {
                Ok(t) => t,
                Err(e) => return Err(e),
            };
            let is_type = match next.plain() {
                Some(p) => crate::parser::is_type_plain(p),
                None => false,
            };
            if !is_type {
                break;
            }
            let tk = match self.advance() {
                Ok(t) => t,
                Err(e) => return Err(e),
            };
            proof {
                assert(token_types_view(types@.push(tk.token_type)) =~= token_types_view(types@).push(tk.token_type@));
            }
            types.push(tk.token_type);
        }
        self.parse_types(&types)
    }

    /// The specifiers of a declaration: its base type and storage class.
    pub(crate) fn parse_specifiers(&mut self) -> (r: Result<(Type, Option<StorageClass>), ParseError>)
        requires
            old(self)@.wf(),
        ensures
            final(self)@.wf(),
            old(self)@.reaches(final(self)@),
            match p_specifiers(old(self)@, Seq::empty(), None) {
                Ok(((t, st), s)) => r is Ok && r->Ok_0.0@ == t && r->Ok_0.1 == st && final(self)@ == s,
                Err(x) => r is Err && r->Err_0@ == x,
            },
    {
        let ghost s0 = self@;
        let mut storage: Option<StorageClass> = None;
        let mut types: Vec<TokenType> = Vec::new();
        assert(token_types_view(types@) =~= Seq::<TokenV>::empty());
        loop
            invariant
                self@.wf(),
                s0 == old(self)@,
                s0.reaches(self@),
                p_specifiers(s0, Seq::empty(), None) == p_specifiers(self@, token_types_view(types@), storage),
            ensures
                self@.wf(),
                s0.reaches(self@),
                self@.next_type() is Ok && !is_specifier_token(self@.next_type()->Ok_0),
                p_specifiers(s0, Seq::empty(), None) == p_specifiers(self@, token_types_view(types@), storage),
            decreases self@.toks.len() - self@.pos,
        {
            let next = match self.next_token_type() {
                Ok(t) => t,
                Err(e) => return Err(e),
            };
            let is_spec = match next.plain() {
                Some(p) => crate::parser::is_type_plain(p) || p == PlainToken::Static || p == PlainToken::Extern,
                None => false,
            };
            if !is_spec {
                break;
            }
            let token = match self.advance() {
                Ok(t) => t.token_type,
                Err(e) => return Err(e),
            };
            let p = match token.plain() {
                Some(p) => p,
                None => vstd::pervasive::unreached(),
            };
            if crate::parser::is_type_plain(p) {
                proof {
                    assert(token_types_view(types@.push(token)) =~= token_types_view(types@).push(token@));
                }
                types.push(token);
            } else if storage.is_some() {
                return Err(ParseError::InvalidStorageClasses(self.span()));
            } else if p == PlainToken::Static {
                storage = Some(StorageClass::Static);
            } else {
                storage = Some(StorageClass::Extern);
            }
        }
        if types.len() < 1 {
            return Err(ParseError::InvalidTypes(self.span()));
        }
        let dtype = self.parse_types(&types)?;
        Ok((dtype, storage))
    }

    /// The name, type and parameter names a declarator gives `base_type`.
    pub(crate) fn process_declarator(&self, declarator: &Declarator, base_type: Type) -> (r: Result<(String, Type, Option<Vec<String>>), ParseError>)
        ensures
            match process_decl(declarator@, base_type@, self@.span) {
                Ok((n, t, ps)) => r is Ok && r->Ok_0.0@ == n && r->Ok_0.1@ == t && match ps {
                    Some(ps) => r->Ok_0.2 is Some && names_view(r->Ok_0.2->0@) == ps,
                    None => r->Ok_0.2 is None,
                },
                Err(x) => r is Err && r->Err_0@ == x,
            },
        decreases declarator,
    {
        match declarator {
            Declarator::Ident(ident) => Ok((ident.clone(), base_type, None)),
            Declarator::PointerDeclarator(d) => {
                let derived_type = Type::Pointer(Box::new(base_type));
                self.process_declarator(d, derived_type)
            },
            Declarator::FuncDeclarator(params, d) => {
                match &**d {
                    Declarator::Ident(ident) => {
                        let ghost pv = parameters_view(params@);
                        proof {
                            lemma_parameters_view(params@);
                            assert(pv.subrange(0, pv.len() as int) =~= pv);
                        }
                        let mut param_names: Vec<String> = Vec::new();
                        let mut param_types: Vec<Box<Type>> = Vec::new();
                        assert(declarator_view(**d) == DeclaratorV::Ident(ident@));
                        assert(declarator@ == DeclaratorV::FuncDeclarator(pv, Box::new(DeclaratorV::Ident(ident@))));
                        assert(process_decl(declarator@, base_type@, self@.span) == match process_params(pv, self@.span) {
                            Err(e) => Err(e),
                            Ok((ns, ts)) => Ok((ident@, TypeV::FuncType(ts, Box::new(base_type@)), Some(ns))),
                        });
                        assert(names_view(param_names@) =~= Seq::<Seq<char>>::empty());
                        assert(params_view(param_types@) =~= Seq::<TypeV>::empty());
                        let mut i: usize = 0;
                        while i < params.len()
                            invariant
                                i <= params@.len(),
                                pv == parameters_view(params@),
                                pv.len() == params@.len(),
                                forall|j: int| 0 <= j < params@.len() ==> #[trigger] pv[j] == (ParameterV {
                                    declarator: declarator_view(params@[j].declarator),
                                    datatype: params@[j].datatype@,
                                }),
                                *declarator is FuncDeclarator && declarator->FuncDeclarator_0 == *params,
                                process_decl(declarator@, base_type@, self@.span) == match process_params(pv, self@.span) {
                                    Err(e) => Err(e),
                                    Ok((ns, ts)) => Ok((ident@, TypeV::FuncType(ts, Box::new(base_type@)), Some(ns))),
                                },
                                param_names@.len() == i,
                                param_types@.len() == i,
                                process_params(pv, self@.span) == match process_params(pv.subrange(i as int, pv.len() as int), self@.span) {
                                    Err(e) => Err(e),
                                    Ok((ns, ts)) => Ok((names_view(param_names@) + ns, params_view(param_types@) + ts)),
                                },
                            decreases params@.len() - i,
                        {
                            proof {
                                vstd::std_specs::vec::axiom_vec_index_decreases(*params, i as int);
                                assert(decreases_to!(*declarator => params@[i as int].declarator));
                            }
                            let ghost sub = pv.subrange(i as int, pv.len() as int);
                            assert(sub[0] == pv[i as int]);
                            assert(sub.subrange(1, sub.len() as int) =~= pv.subrange(i + 1, pv.len() as int));
                            let (param_name, param_type, _) = self.process_declarator(
                                &params[i].declarator,
                                params[i].datatype.clone(),
                            )?;
                            if matches!(param_type, Type::FuncType { .. }) {
                                return Err(ParseError::InvalidTypes(self.span()));
                            }
                            proof {
                                lemma_params_view(param_types@);
                                lemma_params_view(param_types@.push(Box::new(param_type)));
                                assert(names_view(param_names@.push(param_name)) =~= names_view(param_names@).push(param_name@));
                                assert(params_view(param_types@.push(Box::new(param_type))) =~= params_view(param_types@).push(param_type@));
                                match process_params(pv.subrange(i + 1, pv.len() as int), self@.span) {
                                    Ok((ns, ts)) => {
                                        assert(names_view(param_names@).push(param_name@) + ns =~= names_view(param_names@) + (seq![param_name@] + ns));
                                        assert(params_view(param_types@).push(param_type@) + ts =~= params_view(param_types@) + (seq![param_type@] + ts));
                                    },
                                    Err(_) => {},
                                }
                            }
                            param_names.push(param_name);
                            param_types.push(Box::new(param_type));
                            i = i + 1;
                        }
                        proof {
                            assert(pv.subrange(i as int, pv.len() as int) =~= Seq::<ParameterV>::empty());
                            assert(names_view(param_names@) + Seq::<Seq<char>>::empty() =~= names_view(param_names@));
                            assert(params_view(param_types@) + Seq::<TypeV>::empty() =~= params_view(param_types@));
                        }
                        let derived_type = Type::FuncType { params: param_types, ret: Box::new(base_type) };
                        Ok((ident.clone(), derived_type, Some(param_names)))
                    },
                    _ => Err(ParseError::InvalidTypes(self.span())),
                }
            },
        }
    }
}

} // verus!
