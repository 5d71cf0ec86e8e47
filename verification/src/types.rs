use vstd::prelude::*;

verus! {

broadcast use vstd::std_specs::vec::group_vec_axioms, vstd::seq::group_seq_axioms;

/// The C types the compiler understands.
#[derive(Debug, PartialEq)]
pub enum Type {
    Int,
    Long,
    UInt,
    ULong,
    Double,
    Pointer(Box<Type>),
    FuncType { params: Vec<Box<Type>>, ret: Box<Type> },
    Array(Box<Type>, i64),
}

/// Mathematical model of a [`Type`]: parameter lists become sequences.
pub enum TypeV {
    Int,
    Long,
    UInt,
    ULong,
    Double,
    Pointer(Box<TypeV>),
    FuncType(Seq<TypeV>, Box<TypeV>),
    Array(Box<TypeV>, i64),
}

impl View for Type {
    type V = TypeV;

    open spec fn view(&self) -> TypeV
        decreases self,
    {
        match self {
            Type::Int => TypeV::Int,
            Type::Long => TypeV::Long,
            Type::UInt => TypeV::UInt,
            Type::ULong => TypeV::ULong,
            Type::Double => TypeV::Double,
            Type::Pointer(t) => TypeV::Pointer(Box::new((**t).view())),
            Type::FuncType { params, ret } => TypeV::FuncType(
                params_view(params@),
                Box::new((**ret).view()),
            ),
            Type::Array(t, n) => TypeV::Array(Box::new((**t).view()), *n),
        }
    }
}

/// Models of a list of parameter types.
pub open spec fn params_view(ps: Seq<Box<Type>>) -> Seq<TypeV>
    decreases ps,
{
    if ps.len() == 0 {
        Seq::empty()
    } else {
        seq![(*ps[0]).view()] + params_view(ps.subrange(1, ps.len() as int))
    }
}

pub proof fn lemma_params_view(ps: Seq<Box<Type>>)
    ensures
        params_view(ps).len() == ps.len(),
        forall|i: int| 0 <= i < ps.len() ==> #[trigger] params_view(ps)[i] == (*ps[i])@,
    decreases ps.len(),
{
    if ps.len() > 0 {
        let rest = ps.subrange(1, ps.len() as int);
        lemma_params_view(rest);
        assert(params_view(ps) == seq![(*ps[0]).view()] + params_view(rest));
        assert(params_view(ps).len() == 1 + params_view(rest).len());
        assert forall|i: int| 0 <= i < ps.len() implies #[trigger] params_view(ps)[i] == (*ps[i])@ by {
            if i > 0 {
                assert(rest[i - 1] == ps[i]);
            }
        }
    }
}

impl TypeV {
    /// `int`, `long`, `unsigned int` or `unsigned long`.
    pub open spec fn spec_is_integer(self) -> bool {
        self is Int || self is Long || self is UInt || self is ULong
    }

    /// An integer type or `double`.
    pub open spec fn spec_is_arithmetic(self) -> bool {
        self.spec_is_integer() || self is Double
    }

    /// Whether a value of this type has a size in bits (function types have none,
    /// and an array's size must fit in a `usize`).
    pub open spec fn has_size(self) -> bool
        decreases self,
    {
        match self {
            TypeV::FuncType(..) => false,
            TypeV::Array(t, n) => t.has_size() && 0 <= n <= usize::MAX && t.spec_size() * n <= usize::MAX,
            _ => true,
        }
    }

    /// Size in bits.
    pub open spec fn spec_size(self) -> int
        decreases self,
    {
        match self {
            TypeV::Int | TypeV::UInt => 32,
            TypeV::Long | TypeV::ULong | TypeV::Pointer(_) | TypeV::Double => 64,
            TypeV::FuncType(..) => 0,
            TypeV::Array(t, n) => t.spec_size() * n,
        }
    }

    /// Types for which signedness is defined: integers and pointers.
    pub open spec fn has_signedness(self) -> bool {
        self.spec_is_integer() || self is Pointer
    }

    pub open spec fn spec_is_signed(self) -> bool {
        self is Int || self is Long
    }
}

/// Element-wise copy of a type, with the same model.
pub fn clone_type(t: &Type) -> (r: Type)
    ensures
        r@ == t@,
    decreases t,
{
    match t {
        Type::Int => Type::Int,
        Type::Long => Type::Long,
        Type::UInt => Type::UInt,
        Type::ULong => Type::ULong,
        Type::Double => Type::Double,
        Type::Pointer(inner) => Type::Pointer(Box::new(clone_type(inner))),
        Type::FuncType { params, ret } => {
            let mut ps: Vec<Box<Type>> = Vec::new();
            let mut i: usize = 0;
            while i < params.len()
                invariant
                    i <= params@.len(),
                    ps@.len() == i,
                    *t is FuncType && t->params == *params,
                    forall|j: int| 0 <= j < i ==> (*ps@[j])@ == (*params@[j])@,
                decreases params@.len() - i,
            {
                proof {
                    vstd::std_specs::vec::axiom_vec_index_decreases(*params, i as int);
                    assert(decreases_to!(*t => params@[i as int]));
                }
                let p = clone_type(&params[i]);
                ps.push(Box::new(p));
                i = i + 1;
            }
            let r = Type::FuncType { params: ps, ret: Box::new(clone_type(ret)) };
            proof {
                lemma_params_view(ps@);
                lemma_params_view(params@);
            }
            assert(r@->FuncType_0 =~= t@->FuncType_0);
            r
        },
        Type::Array(inner, n) => Type::Array(Box::new(clone_type(inner)), *n),
    }
}

/// Structural equality of two types.
pub fn type_eq(a: &Type, b: &Type) -> (r: bool)
    ensures
        r == (a@ == b@),
    decreases a,
{
    match (a, b) {
        (Type::Int, Type::Int) => true,
        (Type::Long, Type::Long) => true,
        (Type::UInt, Type::UInt) => true,
        (Type::ULong, Type::ULong) => true,
        (Type::Double, Type::Double) => true,
        (Type::Pointer(x), Type::Pointer(y)) => type_eq(x, y),
        (Type::FuncType { params: p1, ret: r1 }, Type::FuncType { params: p2, ret: r2 }) => {
            let ghost pa = a@->FuncType_0;
            let ghost pb = b@->FuncType_0;
            proof {
                lemma_params_view(p1@);
                lemma_params_view(p2@);
            }
            assert(pa.len() == p1@.len());
            if p1.len() != p2.len() {
                assert(pa.len() != pb.len());
                return false;
            }
            let mut i: usize = 0;
            while i < p1.len()
                invariant
                    i <= p1@.len(),
                    p1@.len() == p2@.len(),
                    pa == a@->FuncType_0,
                    pb == b@->FuncType_0,
                    *a is FuncType && *b is FuncType,
                    a->params == *p1 && b->params == *p2,
                    forall|j: int| 0 <= j < i ==> (*p1@[j])@ == (*p2@[j])@,
                decreases p1@.len() - i,
            {
                proof {
                    vstd::std_specs::vec::axiom_vec_index_decreases(*p1, i as int);
                    assert(decreases_to!(*a => p1@[i as int]));
                    lemma_params_view(p1@);
                    lemma_params_view(p2@);
                }
                if !type_eq(&p1[i], &p2[i]) {
                    assert(pa[i as int] != pb[i as int]);
                    return false;
                }
                i = i + 1;
            }
            assert(a@->FuncType_0 =~= b@->FuncType_0);
            type_eq(r1, r2)
        },
        (Type::Array(x, n), Type::Array(y, m)) => *n == *m && type_eq(x, y),
        _ => false,
    }
}

impl Clone for Type {
    fn clone(&self) -> (r: Self)
        ensures
            r@ == self@,
    {
        clone_type(self)
    }
}

impl Type {
    /// Size in bits; arrays multiply their element size by their length.
    pub fn size(&self) -> (r: usize)
        requires
            self@.has_size(),
        ensures
            r == self@.spec_size(),
        decreases self,
    {
        match self {
            Type::Int => 32,
            Type::UInt => 32,
            Type::Long => 64,
            Type::ULong => 64,
            Type::Pointer(_) => 64,
            Type::Double => 64,
            Type::Array(t, s) => {
                let n = t.size();
                n * (*s as usize)
            },
            Type::FuncType { .. } => vstd::pervasive::unreached(),
        }
    }

    pub fn is_signed(&self) -> (r: bool)
        requires
            self@.has_signedness(),
        ensures
            r == self@.spec_is_signed(),
    {
        match self {
            Type::Int => true,
            Type::UInt => false,
            Type::Long => true,
            Type::ULong => false,
            _ => false,
        }
    }

    pub fn is_pointer(&self) -> (r: bool)
        ensures
            r == (self@ is Pointer),
    {
        matches!(self, Type::Pointer(_))
    }

    pub fn is_double(&self) -> (r: bool)
        ensures
            r == (self@ is Double),
    {
        matches!(self, Type::Double)
    }

    pub fn is_array(&self) -> (r: bool)
        ensures
            r == (self@ is Array),
    {
        matches!(self, Type::Array(_, _))
    }

    pub fn is_arithmetic(&self) -> (r: bool)
        ensures
            r == self@.spec_is_arithmetic(),
    {
        matches!(self, Type::Int | Type::Long | Type::UInt | Type::ULong | Type::Double)
    }

    pub fn is_integer(&self) -> (r: bool)
        ensures
            r == self@.spec_is_integer(),
    {
        matches!(self, Type::Int | Type::Long | Type::UInt | Type::ULong)
    }

    pub fn is_scalar(&self) -> (r: bool)
        ensures
            r == (self@.spec_is_arithmetic() || self@ is Pointer),
    {
        self.is_arithmetic() || self.is_pointer()
    }
}


/// The value a static object starts with.
#[derive(Debug, PartialEq)]
pub enum StaticInit {
    IntInit(i32),
    LongInit(i64),
    UIntInit(u32),
    ULongInit(u64),
    /// A `double`, by the decimal text of its literal.
    DoubleInit(String),
}

pub enum StaticInitV {
    IntInit(i32),
    LongInit(i64),
    UIntInit(u32),
    ULongInit(u64),
    DoubleInit(Seq<char>),
}

impl View for StaticInit {
    type V = StaticInitV;

    open spec fn view(&self) -> StaticInitV {
        match self {
            StaticInit::IntInit(i) => StaticInitV::IntInit(*i),
            StaticInit::LongInit(i) => StaticInitV::LongInit(*i),
            StaticInit::UIntInit(i) => StaticInitV::UIntInit(*i),
            StaticInit::ULongInit(i) => StaticInitV::ULongInit(*i),
            StaticInit::DoubleInit(d) => StaticInitV::DoubleInit(d@),
        }
    }
}

impl StaticInit {
    /// A copy with the same model.
    pub fn duplicate(&self) -> (r: StaticInit)
        ensures
            r@ == self@,
    {
        match self {
            StaticInit::IntInit(i) => StaticInit::IntInit(*i),
            StaticInit::LongInit(i) => StaticInit::LongInit(*i),
            StaticInit::UIntInit(i) => StaticInit::UIntInit(*i),
            StaticInit::ULongInit(i) => StaticInit::ULongInit(*i),
            StaticInit::DoubleInit(d) => StaticInit::DoubleInit(d.clone()),
        }
    }
}

/// How a static object is initialised.
#[derive(Debug, PartialEq)]
pub enum InitialValue {
    Tentative,
    Initial(StaticInit),
    NoInitializer,
}

pub enum InitialValueV {
    Tentative,
    Initial(StaticInitV),
    NoInitializer,
}

impl View for InitialValue {
    type V = InitialValueV;

    open spec fn view(&self) -> InitialValueV {
        match self {
            InitialValue::Tentative => InitialValueV::Tentative,
            InitialValue::Initial(i) => InitialValueV::Initial(i@),
            InitialValue::NoInitializer => InitialValueV::NoInitializer,
        }
    }
}

/// What the symbol table records of an identifier besides its type.
#[derive(Debug, PartialEq)]
pub enum IdentAttrs {
    FuncAttr { defined: bool, global: bool },
    StaticAttr { init: InitialValue, global: bool },
    LocalAttr,
}

pub enum IdentAttrsV {
    FuncAttr { defined: bool, global: bool },
    StaticAttr { init: InitialValueV, global: bool },
    LocalAttr,
}

impl View for IdentAttrs {
    type V = IdentAttrsV;

    open spec fn view(&self) -> IdentAttrsV {
        match self {
            IdentAttrs::FuncAttr { defined, global } => IdentAttrsV::FuncAttr { defined: *defined, global: *global },
            IdentAttrs::StaticAttr { init, global } => IdentAttrsV::StaticAttr { init: init@, global: *global },
            IdentAttrs::LocalAttr => IdentAttrsV::LocalAttr,
        }
    }
}

impl IdentAttrsV {
    /// Whether the identifier has external linkage.
    pub open spec fn spec_is_global(self) -> bool {
        match self {
            IdentAttrsV::FuncAttr { global, .. } => global,
            IdentAttrsV::StaticAttr { global, .. } => global,
            IdentAttrsV::LocalAttr => false,
        }
    }
}

impl IdentAttrs {
    pub fn is_global(&self) -> (r: bool)
        ensures
            r == self@.spec_is_global(),
    {
        match self {
            IdentAttrs::StaticAttr { global, .. } => *global,
            IdentAttrs::FuncAttr { global, .. } => *global,
            IdentAttrs::LocalAttr => false,
        }
    }
}

impl InitialValue {
    /// A copy with the same model.
    pub fn duplicate(&self) -> (r: InitialValue)
        ensures
            r@ == self@,
    {
        match self {
            InitialValue::Tentative => InitialValue::Tentative,
            InitialValue::Initial(i) => InitialValue::Initial(i.duplicate()),
            InitialValue::NoInitializer => InitialValue::NoInitializer,
        }
    }
}

impl IdentAttrs {
    /// A copy with the same model.
    pub fn duplicate(&self) -> (r: IdentAttrs)
        ensures
            r@ == self@,
    {
        match self {
            IdentAttrs::FuncAttr { defined, global } => IdentAttrs::FuncAttr { defined: *defined, global: *global },
            IdentAttrs::StaticAttr { init, global } => IdentAttrs::StaticAttr { init: init.duplicate(), global: *global },
            IdentAttrs::LocalAttr => IdentAttrs::LocalAttr,
        }
    }
}

/// An entry of the symbol table.
#[derive(Debug, PartialEq)]
pub struct Symbol {
    pub ident: String,
    pub datatype: Type,
    pub attrs: IdentAttrs,
}

pub struct SymbolV {
    pub ident: Seq<char>,
    pub datatype: TypeV,
    pub attrs: IdentAttrsV,
}

impl Symbol {
    /// A copy with the same model.
    pub fn duplicate(&self) -> (r: Symbol)
        ensures
            r@ == self@,
    {
        Symbol { ident: self.ident.clone(), datatype: clone_type(&self.datatype), attrs: self.attrs.duplicate() }
    }
}

impl View for Symbol {
    type V = SymbolV;

    open spec fn view(&self) -> SymbolV {
        SymbolV { ident: self.ident@, datatype: self.datatype@, attrs: self.attrs@ }
    }
}

/// Identifiers and what is known of them; each name has at most one entry.
/// What a symbol table records, as a function of the name.
pub type Env = spec_fn(Seq<char>) -> Option<SymbolV>;

#[derive(Debug)]
pub struct SymbolTable {
    entries: Vec<(String, Symbol)>,
}

/// The entry for `name` among `es`, the first one that has it.
pub open spec fn lookup(es: Seq<(Seq<char>, SymbolV)>, name: Seq<char>) -> Option<SymbolV>
    decreases es.len(),
{
    if es.len() == 0 {
        None
    } else if es[0].0 == name {
        Some(es[0].1)
    } else {
        lookup(es.drop_first(), name)
    }
}

proof fn lemma_lookup_index(es: Seq<(Seq<char>, SymbolV)>, name: Seq<char>, i: int)
    requires
        0 <= i < es.len(),
        es[i].0 == name,
        forall|j: int| 0 <= j < i ==> es[j].0 != name,
    ensures
        lookup(es, name) == Some(es[i].1),
    decreases es.len(),
{
    if i > 0 {
        lemma_lookup_index(es.drop_first(), name, i - 1);
    }
}

/// A name found in `es` is the name of an entry that holds what was found.
pub proof fn lemma_lookup_some(es: Seq<(Seq<char>, SymbolV)>, name: Seq<char>)
    requires
        lookup(es, name) is Some,
    ensures
        exists|i: int| 0 <= i < es.len() && es[i].0 == name && es[i].1 == lookup(es, name)->0,
    decreases es.len(),
{
    if es[0].0 != name {
        lemma_lookup_some(es.drop_first(), name);
        let i = choose|i: int| 0 <= i < es.drop_first().len() && es.drop_first()[i].0 == name && es.drop_first()[i].1 == lookup(es.drop_first(), name)->0;
        assert(es[i + 1] == es.drop_first()[i]);
    } else {
        assert(es[0].0 == name);
    }
}

proof fn lemma_lookup_none(es: Seq<(Seq<char>, SymbolV)>, name: Seq<char>)
    requires
        forall|j: int| 0 <= j < es.len() ==> es[j].0 != name,
    ensures
        lookup(es, name) is None,
    decreases es.len(),
{
    if es.len() > 0 {
        lemma_lookup_none(es.drop_first(), name);
    }
}

proof fn lemma_lookup_push(es: Seq<(Seq<char>, SymbolV)>, e: (Seq<char>, SymbolV), name: Seq<char>)
    ensures
        lookup(es.push(e), name) == (if lookup(es, name) is Some { lookup(es, name) } else if e.0
            == name { Some(e.1) } else { None::<SymbolV> }),
    decreases es.len(),
{
    if es.len() > 0 {
        assert(es.push(e).drop_first() =~= es.drop_first().push(e));
        lemma_lookup_push(es.drop_first(), e, name);
    } else {
        assert(es.push(e).drop_first() =~= Seq::<(Seq<char>, SymbolV)>::empty());
        reveal_with_fuel(lookup, 2);
    }
}

proof fn lemma_lookup_update(es: Seq<(Seq<char>, SymbolV)>, i: int, e: (Seq<char>, SymbolV), name: Seq<char>)
    requires
        0 <= i < es.len(),
        es[i].0 == e.0,
        forall|j: int| 0 <= j < i ==> es[j].0 != e.0,
    ensures
        lookup(es.update(i, e), name) == (if name == e.0 { Some(e.1) } else { lookup(es, name) }),
    decreases es.len(),
{
    if i > 0 {
        assert(es.update(i, e).drop_first() =~= es.drop_first().update(i - 1, e));
        lemma_lookup_update(es.drop_first(), i - 1, e, name);
    } else {
        assert(es.update(i, e).drop_first() =~= es.drop_first());
    }
}

impl SymbolTable {
    /// The entries as pairs of a name and a symbol.
    pub closed spec fn pairs(self) -> Seq<(Seq<char>, SymbolV)> {
        self.entries@.map_values(|p: (String, Symbol)| (p.0.view(), p.1.view()))
    }

    /// The symbol recorded for `name`.
    pub open spec fn spec_get(self, name: Seq<char>) -> Option<SymbolV> {
        lookup(self.pairs(), name)
    }

    /// The table as a function from a name to what it records.
    pub open spec fn env(self) -> Env {
        |n: Seq<char>| self.spec_get(n)
    }

    pub open spec fn spec_len(self) -> nat {
        self.pairs().len()
    }

    /// How many identifiers the table holds.
    pub fn len(&self) -> (r: usize)
        ensures
            r == self.spec_len(),
    {
        self.entries.len()
    }

    /// The name of the `i`-th entry.
    pub fn name_at(&self, i: usize) -> (r: &String)
        requires
            i < self.spec_len(),
        ensures
            r@ == self.pairs()[i as int].0,
    {
        &self.entries[i].0
    }

    /// The symbol of the `i`-th entry.
    pub fn symbol_at(&self, i: usize) -> (r: &Symbol)
        requires
            i < self.spec_len(),
        ensures
            r@ == self.pairs()[i as int].1,
    {
        &self.entries[i].1
    }

    /// An empty table.
    pub fn new() -> (r: SymbolTable)
        ensures
            forall|n: Seq<char>| r.spec_get(n) is None,
    {
        let r = SymbolTable { entries: Vec::new() };
        assert forall|n: Seq<char>| r.spec_get(n) is None by {
            assert(r.pairs().len() == 0);
        }
        r
    }

    /// The symbol recorded for `name`, if any.
    pub fn get(&self, name: &String) -> (r: Option<&Symbol>)
        ensures
            match r {
                Some(s) => self.spec_get(name@) == Some(s@),
                None => self.spec_get(name@) is None,
            },
    {
        let mut i: usize = 0;
        while i < self.entries.len()
            invariant
                i <= self.entries@.len(),
                self.pairs().len() == self.entries@.len(),
                forall|j: int| 0 <= j < i ==> self.pairs()[j].0 != name@,
            decreases self.entries@.len() - i,
        {
            if self.entries[i].0 == *name {
                proof {
                    lemma_lookup_index(self.pairs(), name@, i as int);
                }
                return Some(&self.entries[i].1);
            }
            i = i + 1;
        }
        proof {
            lemma_lookup_none(self.pairs(), name@);
        }
        None
    }

    /// Records `sym` under `name`, replacing what was recorded before.
    pub fn insert(&mut self, name: String, sym: Symbol)
        ensures
            forall|n: Seq<char>| #[trigger] final(self).spec_get(n) == if n == name@ {
                Some(sym@)
            } else {
                old(self).spec_get(n)
            },
    {
        let ghost es = self.pairs();
        let ghost e = (name.view(), sym.view());
        let mut i: usize = 0;
        while i < self.entries.len()
            invariant
                i <= self.entries@.len(),
                es == old(self).pairs(),
                e == (name.view(), sym.view()),
                self.entries@ == old(self).entries@,
                es.len() == self.entries@.len(),
                forall|j: int| 0 <= j < i ==> es[j].0 != name@,
            decreases self.entries@.len() - i,
        {
            if self.entries[i].0 == name {
                assert(es[i as int].0 == name@);
                self.entries.set(i, (name, sym));
                proof {
                    assert(self.pairs() =~= es.update(i as int, e));
                    assert forall|n: Seq<char>| #[trigger] self.spec_get(n) == if n == e.0 {
                        Some(e.1)
                    } else {
                        lookup(es, n)
                    } by {
                        lemma_lookup_update(es, i as int, e, n);
                    }
                }
                return;
            }
            i = i + 1;
        }
        self.entries.push((name, sym));
        proof {
            assert(self.pairs() =~= es.push(e));
            assert forall|n: Seq<char>| #[trigger] self.spec_get(n) == if n == e.0 {
                Some(e.1)
            } else {
                lookup(es, n)
            } by {
                lemma_lookup_push(es, e, n);
                if n == e.0 {
                    lemma_lookup_none(es, n);
                }
            }
        }
    }
}

} // verus!
