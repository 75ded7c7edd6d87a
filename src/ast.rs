//! The structures that the printer consumes: paths, their segments and the
//! generic arguments that a segment may carry. Type expressions, lifetimes,
//! bounds and constant expressions are leaves here, each held as its text.

use vstd::prelude::*;

verus! {

/// A type expression, held as the text that the type printer renders.
#[derive(Clone, Debug)]
pub struct Type {
    pub text: String,
}

/// A lifetime such as `'a`.
#[derive(Clone, Debug)]
pub struct Lifetime {
    pub text: String,
}

/// One bound of an associated-type constraint, such as `Clone` or `'static`.
#[derive(Clone, Debug)]
pub struct TypeParamBound {
    pub text: String,
}

/// A constant expression given as a generic argument, classified by whether
/// it delimits itself.
#[derive(Clone, Debug)]
pub enum Expr {
    /// A literal such as `5`.
    Lit(String),
    /// A block such as `{ N + 1 }`, braces included in the text.
    Block(String),
    /// Any other expression, such as `N + 1`.
    Other(String),
}

/// The output of a parenthesized argument list: nothing, or `-> T`.
#[derive(Clone, Debug)]
pub enum ReturnType {
    Default,
    Type(Type),
}

/// `Name = Type`: fixes an associated type.
#[derive(Clone, Debug)]
pub struct Binding {
    pub ident: String,
    pub ty: Type,
}

/// `Name: Bound + Bound`: bounds an associated type.
#[derive(Clone, Debug)]
pub struct Constraint {
    pub ident: String,
    pub bounds: Vec<TypeParamBound>,
}

#[derive(Clone, Debug)]
pub enum GenericArgument {
    Lifetime(Lifetime),
    Type(Type),
    Binding(Binding),
    Constraint(Constraint),
    Const(Expr),
}

/// `<'a, T, Item = U>`, optionally written with a leading `::`.
#[derive(Clone, Debug)]
pub struct AngleBracketedGenericArguments {
    pub colon2_token: bool,
    pub args: Vec<GenericArgument>,
}

/// The callable shorthand `(A, B) -> C`.
#[derive(Clone, Debug)]
pub struct ParenthesizedGenericArguments {
    pub inputs: Vec<Type>,
    pub output: ReturnType,
}

#[derive(Clone, Debug)]
pub enum PathArguments {
    /// The segment carries no arguments.
    Empty,
    AngleBracketed(AngleBracketedGenericArguments),
    Parenthesized(ParenthesizedGenericArguments),
}

/// One name component of a path and its arguments.
#[derive(Clone, Debug)]
pub struct PathSegment {
    pub ident: String,
    pub arguments: PathArguments,
}

/// A sequence of segments, rooted (`::a::b`) when `leading_colon` is set.
#[derive(Clone, Debug)]
pub struct Path {
    pub leading_colon: bool,
    pub segments: Vec<PathSegment>,
}

/// The qualifying type of `<T as Trait>::Item`. `position` counts the leading
/// segments of the path that name the trait.
#[derive(Clone, Debug)]
pub struct QSelf {
    pub ty: Type,
    pub position: usize,
}

} // verus!
