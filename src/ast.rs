//! Expression and type trees that the resolver reads and annotates.
use vstd::prelude::*;

verus! {

/// A position in the source text.
#[derive(Clone, Copy, Debug, PartialEq, Eq, Structural)]
pub struct Span {
    pub start: usize,
    pub end: usize,
}

/// A quantity with a unit, such as `3days`.
#[derive(Clone, Debug)]
pub struct ValueAndUnit {
    pub n: i64,
    pub unit: String,
}

/// A literal value. Non-integral numbers and calendar values keep their source text.
#[derive(Clone, Debug)]
pub enum Literal {
    Null,
    Integer(i64),
    Float(String),
    Boolean(bool),
    String(String),
    Date(String),
    Time(String),
    Timestamp(String),
    ValueAndUnit(ValueAndUnit),
}

/// The primitive sets of values.
#[derive(Clone, Copy, Debug, PartialEq, Eq, Structural)]
pub enum PrimitiveSet {
    Int,
    Float,
    Bool,
    Text,
    Date,
    Time,
    Timestamp,
}

/// A type, with an optional display name.
#[derive(Debug)]
pub struct Ty {
    pub name: Option<String>,
    pub kind: TyKind,
}

/// The shape of a type.
#[derive(Debug)]
pub enum TyKind {
    Primitive(PrimitiveSet),
    Singleton(Literal),
    /// Named alternatives; never directly holds another union.
    Union(Vec<(Option<String>, Ty)>),
    /// Ordered fields; at most one wildcard, and only in last position.
    Tuple(Vec<TupleField>),
    Array(Box<TyKind>),
    /// Every value.
    Any,
    Function(TyFunc),
}

/// The type of a function: its parameters and its result.
#[derive(Debug)]
pub struct TyFunc {
    pub args: Vec<Option<Ty>>,
    pub return_ty: Option<Box<Ty>>,
}

/// A field of a tuple type. An absent type leaves the field unconstrained.
#[derive(Debug)]
pub enum TupleField {
    /// One positional field, optionally named.
    Single(Option<String>, Option<Ty>),
    /// Any number of trailing fields, each of the given type.
    Wildcard(Option<Ty>),
}

/// Binary operators.
#[derive(Clone, Copy, Debug, PartialEq, Eq, Structural)]
pub enum BinOp {
    Mul,
    Div,
    Mod,
    Add,
    Sub,
    Eq,
    Ne,
    Gt,
    Lt,
    Gte,
    Lte,
    RegexSearch,
    And,
    Or,
    Coalesce,
}

/// A range `start..end`; either bound may be absent.
#[derive(Debug)]
pub struct Range {
    pub start: Option<Box<Expr>>,
    pub end: Option<Box<Expr>>,
}

/// A call of a function by name.
#[derive(Debug)]
pub struct FuncCall {
    pub name: Box<Expr>,
    pub args: Vec<Expr>,
}

/// A function value.
#[derive(Debug)]
pub struct Func {
    pub name_hint: Option<String>,
    pub params: Vec<String>,
    pub body: Box<Expr>,
}

/// A piece of an interpolated string.
#[derive(Debug)]
pub enum InterpolateItem {
    String(String),
    Expr(Box<Expr>),
}

/// Where the columns of a relational expression come from.
#[derive(Clone, Debug)]
pub struct Lineage {
    /// Identity of the expression that the input table was declared for.
    pub input_id: usize,
    /// The name under which the input can be referenced.
    pub input_name: Option<String>,
}

/// The syntactic kind of an expression.
#[derive(Debug)]
pub enum ExprKind {
    Ident(String),
    Literal(Literal),
    Pipeline(Vec<Expr>),
    Tuple(Vec<Expr>),
    Array(Vec<Expr>),
    Range(Range),
    Binary { left: Box<Expr>, op: BinOp, right: Box<Expr> },
    FuncCall(FuncCall),
    Func(Func),
    SString(Vec<InterpolateItem>),
    FString(Vec<InterpolateItem>),
    TransformCall(String),
    /// An already resolved type.
    Type(Ty),
    Param(String),
}

/// An expression node, annotated in place by the resolver.
#[derive(Debug)]
pub struct Expr {
    pub id: usize,
    pub kind: ExprKind,
    pub span: Option<Span>,
    pub alias: Option<String>,
    pub ty: Option<Ty>,
    pub lineage: Option<Lineage>,
}

impl Ty {
    pub open spec fn spec_is_relation(&self) -> bool {
        match self.kind {
            TyKind::Array(elem) => *elem is Tuple,
            _ => false,
        }
    }

    /// A relation: an array of tuples.
    pub fn is_relation(&self) -> (r: bool)
        ensures
            r == self.spec_is_relation(),
    {
        match &self.kind {
            TyKind::Array(elem) => match &**elem {
                TyKind::Tuple(_) => true,
                _ => false,
            },
            _ => false,
        }
    }

    pub fn is_tuple(&self) -> (r: bool)
        ensures
            r == self.kind is Tuple,
    {
        match &self.kind {
            TyKind::Tuple(_) => true,
            _ => false,
        }
    }

    pub fn is_function(&self) -> (r: bool)
        ensures
            r == self.kind is Function,
    {
        match &self.kind {
            TyKind::Function(_) => true,
            _ => false,
        }
    }
}

} // verus!
