use vstd::prelude::*;

use crate::lexer::Span;

pub mod for_desugarer;
pub mod switch_collector;
pub mod type_checker;

verus! {

/// Why a program was rejected after parsing.
#[derive(Debug)]
pub enum SemanticError {
    UseBeforeDeclaration(String, Span),
    InvalidLValue(Span),
    DoubleDeclaration(String, Span),
    NestedFunctionDefinition(String, Span),
    UndeclaredLabel(String, Span),
    DuplicateLabel(String, Span),
    BreakOutsideLoopOrSwitch(Span),
    CaseOutsideSwitch(Span),
    ContOutsideLoop(Span),
    NonConstantCase(Span),
    DuplicateCase(Span),
    DuplicateDefault(Span),
    DecInCase(Span),
    IncompatibleFuncDeclaration(String, Span),
    FuncCalledWithWrongNumArgs(String, Span),
    VarCalledAsFunc(String, Span),
    FuncUsedAsVar(String, Span),
    StaticAfterNonStatic(String, Span),
    NonConstantInitializer(String, Span),
    ConflictingStorageTypes(String, Span),
    ConflictingDefinitions(String, Span),
    LocalStaticVarNonConstantInit(String, Span),
    InitializerOnLocalExtern(String, Span),
    NonGlobalStaticFunc(String, Span),
    ComplementFloat(Span),
    RemainderFloat(Span),
}

/// Model of a [`SemanticError`]: names become character sequences.
pub enum SemanticErrorV {
    UseBeforeDeclaration(Seq<char>, Span),
    InvalidLValue(Span),
    DoubleDeclaration(Seq<char>, Span),
    NestedFunctionDefinition(Seq<char>, Span),
    UndeclaredLabel(Seq<char>, Span),
    DuplicateLabel(Seq<char>, Span),
    BreakOutsideLoopOrSwitch(Span),
    CaseOutsideSwitch(Span),
    ContOutsideLoop(Span),
    NonConstantCase(Span),
    DuplicateCase(Span),
    DuplicateDefault(Span),
    DecInCase(Span),
    IncompatibleFuncDeclaration(Seq<char>, Span),
    FuncCalledWithWrongNumArgs(Seq<char>, Span),
    VarCalledAsFunc(Seq<char>, Span),
    FuncUsedAsVar(Seq<char>, Span),
    StaticAfterNonStatic(Seq<char>, Span),
    NonConstantInitializer(Seq<char>, Span),
    ConflictingStorageTypes(Seq<char>, Span),
    ConflictingDefinitions(Seq<char>, Span),
    LocalStaticVarNonConstantInit(Seq<char>, Span),
    InitializerOnLocalExtern(Seq<char>, Span),
    NonGlobalStaticFunc(Seq<char>, Span),
    ComplementFloat(Span),
    RemainderFloat(Span),
}

impl View for SemanticError {
    type V = SemanticErrorV;

    open spec fn view(&self) -> SemanticErrorV {
        match self {
            SemanticError::UseBeforeDeclaration(s, p) => SemanticErrorV::UseBeforeDeclaration(s@, *p),
            SemanticError::InvalidLValue(p) => SemanticErrorV::InvalidLValue(*p),
            SemanticError::DoubleDeclaration(s, p) => SemanticErrorV::DoubleDeclaration(s@, *p),
            SemanticError::NestedFunctionDefinition(s, p) => SemanticErrorV::NestedFunctionDefinition(s@, *p),
            SemanticError::UndeclaredLabel(s, p) => SemanticErrorV::UndeclaredLabel(s@, *p),
            SemanticError::DuplicateLabel(s, p) => SemanticErrorV::DuplicateLabel(s@, *p),
            SemanticError::BreakOutsideLoopOrSwitch(p) => SemanticErrorV::BreakOutsideLoopOrSwitch(*p),
            SemanticError::CaseOutsideSwitch(p) => SemanticErrorV::CaseOutsideSwitch(*p),
            SemanticError::ContOutsideLoop(p) => SemanticErrorV::ContOutsideLoop(*p),
            SemanticError::NonConstantCase(p) => SemanticErrorV::NonConstantCase(*p),
            SemanticError::DuplicateCase(p) => SemanticErrorV::DuplicateCase(*p),
            SemanticError::DuplicateDefault(p) => SemanticErrorV::DuplicateDefault(*p),
            SemanticError::DecInCase(p) => SemanticErrorV::DecInCase(*p),
            SemanticError::IncompatibleFuncDeclaration(s, p) => SemanticErrorV::IncompatibleFuncDeclaration(s@, *p),
            SemanticError::FuncCalledWithWrongNumArgs(s, p) => SemanticErrorV::FuncCalledWithWrongNumArgs(s@, *p),
            SemanticError::VarCalledAsFunc(s, p) => SemanticErrorV::VarCalledAsFunc(s@, *p),
            SemanticError::FuncUsedAsVar(s, p) => SemanticErrorV::FuncUsedAsVar(s@, *p),
            SemanticError::StaticAfterNonStatic(s, p) => SemanticErrorV::StaticAfterNonStatic(s@, *p),
            SemanticError::NonConstantInitializer(s, p) => SemanticErrorV::NonConstantInitializer(s@, *p),
            SemanticError::ConflictingStorageTypes(s, p) => SemanticErrorV::ConflictingStorageTypes(s@, *p),
            SemanticError::ConflictingDefinitions(s, p) => SemanticErrorV::ConflictingDefinitions(s@, *p),
            SemanticError::LocalStaticVarNonConstantInit(s, p) => SemanticErrorV::LocalStaticVarNonConstantInit(s@, *p),
            SemanticError::InitializerOnLocalExtern(s, p) => SemanticErrorV::InitializerOnLocalExtern(s@, *p),
            SemanticError::NonGlobalStaticFunc(s, p) => SemanticErrorV::NonGlobalStaticFunc(s@, *p),
            SemanticError::ComplementFloat(p) => SemanticErrorV::ComplementFloat(*p),
            SemanticError::RemainderFloat(p) => SemanticErrorV::RemainderFloat(*p),
        }
    }
}

} // verus!
