use vstd::prelude::*;

use crate::lexer::Span;
use crate::types::{Type, TypeV, clone_type};
use crate::semanal::switch_collector::{tdiv, trem};

verus! {

broadcast use vstd::std_specs::vec::group_vec_axioms, vstd::seq::group_seq_axioms;

/// A constant as written in the source.
#[derive(Debug, PartialEq)]
pub enum Const {
    Int(i32),
    Long(i64),
    UInt(u32),
    ULong(u64),
    /// A `double`, by the decimal text of its literal.
    Double(String),
}

pub enum ConstV {
    Int(i32),
    Long(i64),
    UInt(u32),
    ULong(u64),
    Double(Seq<char>),
}

impl View for Const {
    type V = ConstV;

    open spec fn view(&self) -> ConstV {
        match self {
            Const::Int(i) => ConstV::Int(*i),
            Const::Long(i) => ConstV::Long(*i),
            Const::UInt(i) => ConstV::UInt(*i),
            Const::ULong(i) => ConstV::ULong(*i),
            Const::Double(d) => ConstV::Double(d@),
        }
    }
}

impl Const {
    /// A copy with the same model.
    pub fn duplicate(&self) -> (r: Const)
        ensures
            r@ == self@,
    {
        match self {
            Const::Int(i) => Const::Int(*i),
            Const::Long(i) => Const::Long(*i),
            Const::UInt(i) => Const::UInt(*i),
            Const::ULong(i) => Const::ULong(*i),
            Const::Double(d) => Const::Double(d.clone()),
        }
    }
}

#[derive(Debug, Clone, Copy, PartialEq, Eq, Structural)]
pub enum UnaryOp {
    Complement,
    Negate,
    Not,
}

/// Binary operators; `Assign`, `OpSet` and `Ternary` stand for `=`, the
/// compound assignments and `?` while an expression is being parsed.
#[derive(Debug, PartialEq)]
pub enum BinaryOp {
    Add,
    Subtract,
    Multiply,
    Divide,
    Remainder,
    BitwiseAnd,
    BitwiseOr,
    BitwiseXor,
    LeftShift,
    RightShift,
    LogicalAnd,
    LogicalOr,
    Equal,
    NotEqual,
    LessThan,
    LessOrEqual,
    GreaterThan,
    GreaterOrEqual,
    Assign,
    OpSet(Box<BinaryOp>),
    Ternary,
}

impl BinaryOp {
    /// A copy of the operator.
    pub fn duplicate(&self) -> (r: BinaryOp)
        ensures
            r == *self,
        decreases self,
    {
        match self {
            BinaryOp::Add => BinaryOp::Add,
            BinaryOp::Subtract => BinaryOp::Subtract,
            BinaryOp::Multiply => BinaryOp::Multiply,
            BinaryOp::Divide => BinaryOp::Divide,
            BinaryOp::Remainder => BinaryOp::Remainder,
            BinaryOp::BitwiseAnd => BinaryOp::BitwiseAnd,
            BinaryOp::BitwiseOr => BinaryOp::BitwiseOr,
            BinaryOp::BitwiseXor => BinaryOp::BitwiseXor,
            BinaryOp::LeftShift => BinaryOp::LeftShift,
            BinaryOp::RightShift => BinaryOp::RightShift,
            BinaryOp::LogicalAnd => BinaryOp::LogicalAnd,
            BinaryOp::LogicalOr => BinaryOp::LogicalOr,
            BinaryOp::Equal => BinaryOp::Equal,
            BinaryOp::NotEqual => BinaryOp::NotEqual,
            BinaryOp::LessThan => BinaryOp::LessThan,
            BinaryOp::LessOrEqual => BinaryOp::LessOrEqual,
            BinaryOp::GreaterThan => BinaryOp::GreaterThan,
            BinaryOp::GreaterOrEqual => BinaryOp::GreaterOrEqual,
            BinaryOp::Assign => BinaryOp::Assign,
            BinaryOp::OpSet(op) => BinaryOp::OpSet(Box::new(op.duplicate())),
            BinaryOp::Ternary => BinaryOp::Ternary,
        }
    }
}

/// An expression, the type the type checker gave it, and where it starts.
#[derive(Debug)]
pub struct Expression {
    pub kind: ExpressionKind,
    pub expression_type: Option<Type>,
    pub span: Span,
}

#[derive(Debug)]
pub enum ExpressionKind {
    Constant(Const),
    Var(String),
    Cast(Type, Box<Expression>),
    Assignment(Box<Expression>, Box<Expression>),
    Unary(UnaryOp, Box<Expression>),
    Binary(BinaryOp, Box<Expression>, Box<Expression>),
    Conditional(Box<Expression>, Box<Expression>, Box<Expression>),
    FunctionCall(String, Vec<Expression>),
    PrefixIncrement(Box<Expression>),
    PostfixIncrement(Box<Expression>),
    PrefixDecrement(Box<Expression>),
    PostfixDecrement(Box<Expression>),
}

/// Model of an [`Expression`].
pub struct ExprV {
    pub kind: ExprKindV,
    pub ty: Option<TypeV>,
    pub span: Span,
}

pub enum ExprKindV {
    Constant(ConstV),
    Var(Seq<char>),
    Cast(TypeV, Box<ExprV>),
    Assignment(Box<ExprV>, Box<ExprV>),
    Unary(UnaryOp, Box<ExprV>),
    Binary(BinaryOp, Box<ExprV>, Box<ExprV>),
    Conditional(Box<ExprV>, Box<ExprV>, Box<ExprV>),
    FunctionCall(Seq<char>, Seq<ExprV>),
    PrefixIncrement(Box<ExprV>),
    PostfixIncrement(Box<ExprV>),
    PrefixDecrement(Box<ExprV>),
    PostfixDecrement(Box<ExprV>),
}

pub open spec fn opt_type_view(t: Option<Type>) -> Option<TypeV> {
    match t {
        Some(t) => Some(t@),
        None => None,
    }
}

impl View for Expression {
    type V = ExprV;

    open spec fn view(&self) -> ExprV
        decreases self,
    {
        let kind = match &self.kind {
            ExpressionKind::Constant(c) => ExprKindV::Constant(c@),
            ExpressionKind::Var(n) => ExprKindV::Var(n@),
            ExpressionKind::Cast(t, e) => ExprKindV::Cast(t@, Box::new((**e).view())),
            ExpressionKind::Assignment(a, b) => ExprKindV::Assignment(Box::new((**a).view()), Box::new((**b).view())),
            ExpressionKind::Unary(op, e) => ExprKindV::Unary(*op, Box::new((**e).view())),
            ExpressionKind::Binary(op, a, b) => ExprKindV::Binary(*op, Box::new((**a).view()), Box::new((**b).view())),
            ExpressionKind::Conditional(c, a, b) => ExprKindV::Conditional(
                Box::new((**c).view()),
                Box::new((**a).view()),
                Box::new((**b).view()),
            ),
            ExpressionKind::FunctionCall(n, args) => ExprKindV::FunctionCall(n@, exprs_view(args@)),
            ExpressionKind::PrefixIncrement(e) => ExprKindV::PrefixIncrement(Box::new((**e).view())),
            ExpressionKind::PostfixIncrement(e) => ExprKindV::PostfixIncrement(Box::new((**e).view())),
            ExpressionKind::PrefixDecrement(e) => ExprKindV::PrefixDecrement(Box::new((**e).view())),
            ExpressionKind::PostfixDecrement(e) => ExprKindV::PostfixDecrement(Box::new((**e).view())),
        };
        ExprV { kind, ty: opt_type_view(self.expression_type), span: self.span }
    }
}

/// Models of a list of expressions.
pub open spec fn exprs_view(es: Seq<Expression>) -> Seq<ExprV>
    decreases es,
{
    if es.len() == 0 {
        Seq::empty()
    } else {
        seq![es[0].view()] + exprs_view(es.subrange(1, es.len() as int))
    }
}

pub proof fn lemma_exprs_view(es: Seq<Expression>)
    ensures
        exprs_view(es).len() == es.len(),
        forall|i: int| 0 <= i < es.len() ==> #[trigger] exprs_view(es)[i] == es[i]@,
    decreases es.len(),
{
    if es.len() > 0 {
        let rest = es.subrange(1, es.len() as int);
        lemma_exprs_view(rest);
        assert(exprs_view(es) == seq![es[0].view()] + exprs_view(rest));
        assert(exprs_view(es).len() == 1 + exprs_view(rest).len());
        assert forall|i: int| 0 <= i < es.len() implies #[trigger] exprs_view(es)[i] == es[i]@ by {
            if i > 0 {
                assert(rest[i - 1] == es[i]);
            }
        }
    }
}

/// A list of expressions whose models are `vs`.
pub proof fn lemma_exprs_view_eq(es: Seq<Expression>, vs: Seq<ExprV>)
    requires
        es.len() == vs.len(),
        forall|i: int| 0 <= i < es.len() ==> es[i]@ == #[trigger] vs[i],
    ensures
        exprs_view(es) == vs,
{
    lemma_exprs_view(es);
    assert(exprs_view(es) =~= vs);
}

impl Expression {
    pub fn new(kind: ExpressionKind, expression_type: Option<Type>, span: Span) -> (r: Expression)
        ensures
            r.kind == kind,
            r.expression_type == expression_type,
            r.span == span,
    {
        Expression { kind, expression_type, span }
    }
}

/// A copy of an expression, with the same model.
pub fn clone_expr(e: &Expression) -> (r: Expression)
    ensures
        r@ == e@,
    decreases e,
{
    let kind = match &e.kind {
        ExpressionKind::Constant(c) => ExpressionKind::Constant(c.duplicate()),
        ExpressionKind::Var(n) => ExpressionKind::Var(n.clone()),
        ExpressionKind::Cast(t, x) => ExpressionKind::Cast(clone_type(t), Box::new(clone_expr(x))),
        ExpressionKind::Assignment(a, b) => ExpressionKind::Assignment(Box::new(clone_expr(a)), Box::new(clone_expr(b))),
        ExpressionKind::Unary(op, x) => ExpressionKind::Unary(*op, Box::new(clone_expr(x))),
        ExpressionKind::Binary(op, a, b) => ExpressionKind::Binary(
            op.duplicate(),
            Box::new(clone_expr(a)),
            Box::new(clone_expr(b)),
        ),
        ExpressionKind::Conditional(c, a, b) => ExpressionKind::Conditional(
            Box::new(clone_expr(c)),
            Box::new(clone_expr(a)),
            Box::new(clone_expr(b)),
        ),
        ExpressionKind::FunctionCall(n, args) => {
            let mut out: Vec<Expression> = Vec::new();
            let mut i: usize = 0;
            while i < args.len()
                invariant
                    i <= args@.len(),
                    out@.len() == i,
                    e.kind is FunctionCall && e.kind->FunctionCall_1 == *args,
                    forall|j: int| 0 <= j < i ==> out@[j]@ == args@[j]@,
                decreases args@.len() - i,
            {
                proof {
                    vstd::std_specs::vec::axiom_vec_index_decreases(*args, i as int);
                    assert(decreases_to!(*e => args@[i as int]));
                }
                out.push(clone_expr(&args[i]));
                i = i + 1;
            }
            proof {
                lemma_exprs_view(args@);
                lemma_exprs_view_eq(out@, exprs_view(args@));
            }
            ExpressionKind::FunctionCall(n.clone(), out)
        },
        ExpressionKind::PrefixIncrement(x) => ExpressionKind::PrefixIncrement(Box::new(clone_expr(x))),
        ExpressionKind::PostfixIncrement(x) => ExpressionKind::PostfixIncrement(Box::new(clone_expr(x))),
        ExpressionKind::PrefixDecrement(x) => ExpressionKind::PrefixDecrement(Box::new(clone_expr(x))),
        ExpressionKind::PostfixDecrement(x) => ExpressionKind::PostfixDecrement(Box::new(clone_expr(x))),
    };
    let ty = match &e.expression_type {
        Some(t) => Some(clone_type(t)),
        None => None,
    };
    Expression { kind, expression_type: ty, span: e.span }
}

/// The storage class written in a declaration.
#[derive(Debug, Clone, Copy, PartialEq, Eq, Structural)]
pub enum StorageClass {
    Static,
    Extern,
}

/// A variable declaration, with its initializer if it has one.
#[derive(Debug)]
pub struct VarDeclaration {
    pub identifier: String,
    pub var_type: Type,
    pub init: Option<Expression>,
    pub storage: Option<StorageClass>,
    pub span: Span,
}

/// A function declaration; `body` is present where it is defined.
#[derive(Debug)]
pub struct FuncDeclaration {
    pub identifier: String,
    pub func_type: Type,
    pub params: Vec<String>,
    pub body: Option<Block>,
    pub storage: Option<StorageClass>,
    pub span: Span,
}

#[derive(Debug)]
pub enum Decl {
    VarDecl(VarDeclaration),
    FuncDecl(FuncDeclaration),
}

#[derive(Debug)]
pub struct Block {
    pub items: Vec<BlockItem>,
}

#[derive(Debug)]
pub enum BlockItem {
    S(Statement),
    D(Decl),
}

/// The first clause of a `for` loop.
#[derive(Debug)]
pub enum ForInit {
    InitDec(VarDeclaration),
    InitExp(Option<Expression>),
}

/// A statement and where it ends.
#[derive(Debug)]
pub struct Statement {
    pub kind: StatementKind,
    pub span: Span,
}

#[derive(Debug)]
pub enum StatementKind {
    Return(Expression),
    Expression(Expression),
    If(Expression, Box<Statement>, Option<Box<Statement>>),
    Compound(Block),
    Label(String, Box<Statement>),
    Goto(String),
    While { cond: Expression, body: Box<Statement>, lab: String },
    DoWhile { body: Box<Statement>, cond: Expression, lab: String },
    For { init: ForInit, cond: Option<Expression>, post: Option<Expression>, body: Box<Statement>, lab: String },
    Switch { scrutinee: Expression, body: Box<Statement>, lab: String, cases: Vec<(Option<Expression>, String)> },
    Case { expr: Expression, lab: String },
    Default { lab: String },
    Break(String),
    Continue(String),
    Null,
}

impl Statement {
    pub fn new(kind: StatementKind, span: Span) -> (r: Statement)
        ensures
            r.kind == kind,
            r.span == span,
    {
        Statement { kind, span }
    }
}

/// A whole translation unit.
#[derive(Debug)]
pub struct Program {
    pub declarations: Vec<Decl>,
}

/// Declarations that carry a storage class.
pub trait HasStorage {
    spec fn spec_storage(&self) -> Option<StorageClass>;

    fn storage_class(&self) -> (r: Option<StorageClass>)
        ensures
            r == self.spec_storage(),
    ;
}

impl HasStorage for VarDeclaration {
    open spec fn spec_storage(&self) -> Option<StorageClass> {
        self.storage
    }

    fn storage_class(&self) -> (r: Option<StorageClass>) {
        self.storage
    }
}

impl HasStorage for FuncDeclaration {
    open spec fn spec_storage(&self) -> Option<StorageClass> {
        self.storage
    }

    fn storage_class(&self) -> (r: Option<StorageClass>) {
        self.storage
    }
}

/// Whether a declaration is `static`.
pub fn is_static<T: HasStorage>(decl: &T) -> (r: bool)
    ensures
        r == (decl.spec_storage() == Some(StorageClass::Static)),
{
    match decl.storage_class() {
        Some(StorageClass::Static) => true,
        _ => false,
    }
}

/// Whether a declaration is `extern`.
pub fn is_extern<T: HasStorage>(decl: &T) -> (r: bool)
    ensures
        r == (decl.spec_storage() == Some(StorageClass::Extern)),
{
    match decl.storage_class() {
        Some(StorageClass::Extern) => true,
        _ => false,
    }
}

/// Model of a [`VarDeclaration`].
pub struct VarDeclV {
    pub identifier: Seq<char>,
    pub var_type: TypeV,
    pub init: Option<ExprV>,
    pub storage: Option<StorageClass>,
    pub span: Span,
}

/// Model of a [`FuncDeclaration`].
pub struct FuncDeclV {
    pub identifier: Seq<char>,
    pub func_type: TypeV,
    pub params: Seq<Seq<char>>,
    pub body: Option<Seq<BlockItemV>>,
    pub storage: Option<StorageClass>,
    pub span: Span,
}

pub enum DeclV {
    VarDecl(VarDeclV),
    FuncDecl(FuncDeclV),
}

pub enum BlockItemV {
    S(StmtV),
    D(DeclV),
}

pub enum ForInitV {
    InitDec(VarDeclV),
    InitExp(Option<ExprV>),
}

/// Model of a [`Statement`].
pub struct StmtV {
    pub kind: StmtKindV,
    pub span: Span,
}

pub enum StmtKindV {
    Return(ExprV),
    Expression(ExprV),
    If(ExprV, Box<StmtV>, Option<Box<StmtV>>),
    Compound(Seq<BlockItemV>),
    Label(Seq<char>, Box<StmtV>),
    Goto(Seq<char>),
    While { cond: ExprV, body: Box<StmtV>, lab: Seq<char> },
    DoWhile { body: Box<StmtV>, cond: ExprV, lab: Seq<char> },
    For { init: ForInitV, cond: Option<ExprV>, post: Option<ExprV>, body: Box<StmtV>, lab: Seq<char> },
    Switch { scrutinee: ExprV, body: Box<StmtV>, lab: Seq<char>, cases: Seq<(Option<ExprV>, Seq<char>)> },
    Case { expr: ExprV, lab: Seq<char> },
    Default { lab: Seq<char> },
    Break(Seq<char>),
    Continue(Seq<char>),
    Null,
}

pub open spec fn opt_expr_view(e: Option<Expression>) -> Option<ExprV> {
    match e {
        Some(e) => Some(e@),
        None => None,
    }
}

pub open spec fn var_decl_view(d: VarDeclaration) -> VarDeclV {
    VarDeclV {
        identifier: d.identifier@,
        var_type: d.var_type@,
        init: opt_expr_view(d.init),
        storage: d.storage,
        span: d.span,
    }
}

pub open spec fn strings_view(ss: Seq<String>) -> Seq<Seq<char>> {
    ss.map_values(|s: String| s@)
}

pub open spec fn cases_view(cs: Seq<(Option<Expression>, String)>) -> Seq<(Option<ExprV>, Seq<char>)> {
    cs.map_values(|c: (Option<Expression>, String)| (opt_expr_view(c.0), c.1@))
}

pub open spec fn func_decl_view(d: FuncDeclaration) -> FuncDeclV
    decreases d,
{
    FuncDeclV {
        identifier: d.identifier@,
        func_type: d.func_type@,
        params: strings_view(d.params@),
        body: match d.body {
            Some(b) => Some(items_view(b.items@)),
            None => None,
        },
        storage: d.storage,
        span: d.span,
    }
}

pub open spec fn decl_view(d: Decl) -> DeclV
    decreases d,
{
    match d {
        Decl::VarDecl(v) => DeclV::VarDecl(var_decl_view(v)),
        Decl::FuncDecl(f) => DeclV::FuncDecl(func_decl_view(f)),
    }
}

pub open spec fn item_view(i: BlockItem) -> BlockItemV
    decreases i,
{
    match i {
        BlockItem::S(s) => BlockItemV::S(stmt_view(s)),
        BlockItem::D(d) => BlockItemV::D(decl_view(d)),
    }
}

/// Models of a list of block items.
pub open spec fn items_view(is: Seq<BlockItem>) -> Seq<BlockItemV>
    decreases is,
{
    if is.len() == 0 {
        Seq::empty()
    } else {
        seq![item_view(is[0])] + items_view(is.subrange(1, is.len() as int))
    }
}

pub open spec fn stmt_view(st: Statement) -> StmtV
    decreases st,
{
    let kind = match st.kind {
        StatementKind::Return(e) => StmtKindV::Return(e@),
        StatementKind::Expression(e) => StmtKindV::Expression(e@),
        StatementKind::If(c, y, n) => StmtKindV::If(
            c@,
            Box::new(stmt_view(*y)),
            match n {
                Some(n) => Some(Box::new(stmt_view(*n))),
                None => None,
            },
        ),
        StatementKind::Compound(b) => StmtKindV::Compound(items_view(b.items@)),
        StatementKind::Label(l, b) => StmtKindV::Label(l@, Box::new(stmt_view(*b))),
        StatementKind::Goto(l) => StmtKindV::Goto(l@),
        StatementKind::While { cond, body, lab } => StmtKindV::While { cond: cond@, body: Box::new(stmt_view(*body)), lab: lab@ },
        StatementKind::DoWhile { body, cond, lab } => StmtKindV::DoWhile { body: Box::new(stmt_view(*body)), cond: cond@, lab: lab@ },
        StatementKind::For { init, cond, post, body, lab } => StmtKindV::For {
            init: match init {
                ForInit::InitDec(d) => ForInitV::InitDec(var_decl_view(d)),
                ForInit::InitExp(e) => ForInitV::InitExp(opt_expr_view(e)),
            },
            cond: opt_expr_view(cond),
            post: opt_expr_view(post),
            body: Box::new(stmt_view(*body)),
            lab: lab@,
        },
        StatementKind::Switch { scrutinee, body, lab, cases } => StmtKindV::Switch {
            scrutinee: scrutinee@,
            body: Box::new(stmt_view(*body)),
            lab: lab@,
            cases: cases_view(cases@),
        },
        StatementKind::Case { expr, lab } => StmtKindV::Case { expr: expr@, lab: lab@ },
        StatementKind::Default { lab } => StmtKindV::Default { lab: lab@ },
        StatementKind::Break(l) => StmtKindV::Break(l@),
        StatementKind::Continue(l) => StmtKindV::Continue(l@),
        StatementKind::Null => StmtKindV::Null,
    };
    StmtV { kind, span: st.span }
}

pub proof fn lemma_items_view(is: Seq<BlockItem>)
    ensures
        items_view(is).len() == is.len(),
        forall|i: int| 0 <= i < is.len() ==> #[trigger] items_view(is)[i] == item_view(is[i]),
    decreases is.len(),
{
    if is.len() > 0 {
        let rest = is.subrange(1, is.len() as int);
        lemma_items_view(rest);
        assert(items_view(is) == seq![item_view(is[0])] + items_view(rest));
        assert(items_view(is).len() == 1 + items_view(rest).len());
        assert forall|i: int| 0 <= i < is.len() implies #[trigger] items_view(is)[i] == item_view(is[i]) by {
            if i > 0 {
                assert(rest[i - 1] == is[i]);
            }
        }
    }
}

impl View for Statement {
    type V = StmtV;

    open spec fn view(&self) -> StmtV {
        stmt_view(*self)
    }
}

impl View for VarDeclaration {
    type V = VarDeclV;

    open spec fn view(&self) -> VarDeclV {
        var_decl_view(*self)
    }
}

impl View for FuncDeclaration {
    type V = FuncDeclV;

    open spec fn view(&self) -> FuncDeclV {
        func_decl_view(*self)
    }
}

impl View for Decl {
    type V = DeclV;

    open spec fn view(&self) -> DeclV {
        decl_view(*self)
    }
}

impl View for BlockItem {
    type V = BlockItemV;

    open spec fn view(&self) -> BlockItemV {
        item_view(*self)
    }
}

} // verus!

verus! {

/// What a C binary operator computes from the values of its integer
/// operands, before the result is fitted to its type: exact sums,
/// differences and products; division and remainder rounding toward zero,
/// with no value for a zero divisor; shifts that multiply or divide (rounding
/// down) by a power of two, with no value for a negative count; bitwise
/// operators on the two's complement bits; comparisons and `&&`/`||` giving 1
/// or 0. Assignment and the conditional have no value of this kind.
pub open spec fn c_binary_value(op: BinaryOp, a: i128, b: i128) -> Option<int> {
    match op {
        BinaryOp::Add => Some(a + b),
        BinaryOp::Subtract => Some(a - b),
        BinaryOp::Multiply => Some(a * b),
        BinaryOp::Divide => if b == 0 { None } else { Some(tdiv(a as int, b as int)) },
        BinaryOp::Remainder => if b == 0 { None } else { Some(trem(a as int, b as int)) },
        BinaryOp::BitwiseAnd => Some((a & b) as int),
        BinaryOp::BitwiseOr => Some((a | b) as int),
        BinaryOp::BitwiseXor => Some((a ^ b) as int),
        BinaryOp::LeftShift => if b < 0 { None } else { Some(a * vstd::arithmetic::power2::pow2(b as nat)) },
        BinaryOp::RightShift => if b < 0 { None } else { Some((a as int) / (vstd::arithmetic::power2::pow2(b as nat) as int)) },
        BinaryOp::LogicalAnd => Some(if a != 0 && b != 0 { 1int } else { 0int }),
        BinaryOp::LogicalOr => Some(if a != 0 || b != 0 { 1int } else { 0int }),
        BinaryOp::Equal => Some(if a == b { 1int } else { 0int }),
        BinaryOp::NotEqual => Some(if a != b { 1int } else { 0int }),
        BinaryOp::LessThan => Some(if a < b { 1int } else { 0int }),
        BinaryOp::LessOrEqual => Some(if a <= b { 1int } else { 0int }),
        BinaryOp::GreaterThan => Some(if a > b { 1int } else { 0int }),
        BinaryOp::GreaterOrEqual => Some(if a >= b { 1int } else { 0int }),
        BinaryOp::Assign | BinaryOp::OpSet(_) | BinaryOp::Ternary => None,
    }
}

/// What a C unary operator computes from the value of its integer operand:
/// the negation, the bitwise complement (`-a - 1`), and 1 or 0 for `!`.
pub open spec fn c_unary_value(op: UnaryOp, a: int) -> int {
    match op {
        UnaryOp::Negate => -a,
        UnaryOp::Complement => -a - 1,
        UnaryOp::Not => if a == 0 { 1 } else { 0 },
    }
}

} // verus!
