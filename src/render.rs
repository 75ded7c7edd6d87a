//! The token sequence that each construct renders to.

use crate::ast::{
    AngleBracketedGenericArguments, Expr, GenericArgument, Lifetime, ParenthesizedGenericArguments,
    Path, PathArguments, PathSegment, QSelf, ReturnType, Type, TypeParamBound,
};
use vstd::prelude::*;

verus! {

pub open spec fn type_tokens(t: Type) -> Seq<Seq<char>> {
    seq![t.text@]
}

pub open spec fn lifetime_tokens(l: Lifetime) -> Seq<Seq<char>> {
    seq![l.text@]
}

pub open spec fn bound_tokens(b: TypeParamBound) -> Seq<Seq<char>> {
    seq![b.text@]
}

/// A literal or a block stands as given; any other expression is braced so
/// that it reads back as one argument.
pub open spec fn const_tokens(e: Expr) -> Seq<Seq<char>> {
    match e {
        Expr::Lit(s) => seq![s@],
        Expr::Block(s) => seq![s@],
        Expr::Other(s) => seq!["{"@, s@, "}"@],
    }
}

pub open spec fn return_type_tokens(r: ReturnType) -> Seq<Seq<char>> {
    match r {
        ReturnType::Default => Seq::empty(),
        ReturnType::Type(t) => seq!["->"@] + type_tokens(t),
    }
}

/// Each bound followed by `+`, the last one included.
pub open spec fn bounds_tokens(bs: Seq<TypeParamBound>) -> Seq<Seq<char>>
    decreases bs.len(),
{
    if bs.len() == 0 {
        Seq::empty()
    } else {
        bounds_tokens(bs.drop_last()) + bound_tokens(bs.last()) + seq!["+"@]
    }
}

pub open spec fn generic_argument_tokens(a: GenericArgument) -> Seq<Seq<char>> {
    match a {
        GenericArgument::Lifetime(l) => lifetime_tokens(l),
        GenericArgument::Type(t) => type_tokens(t),
        GenericArgument::Binding(b) => seq![b.ident@, "="@] + type_tokens(b.ty),
        GenericArgument::Constraint(c) => seq![c.ident@, ":"@] + bounds_tokens(c.bounds@),
        GenericArgument::Const(e) => const_tokens(e),
    }
}

/// The group an argument is emitted in: lifetimes, then types and
/// constants, then bindings and constraints.
pub open spec fn arg_phase(a: GenericArgument) -> nat {
    match a {
        GenericArgument::Lifetime(_) => 0,
        GenericArgument::Type(_) | GenericArgument::Const(_) => 1,
        GenericArgument::Binding(_) | GenericArgument::Constraint(_) => 2,
    }
}

pub open spec fn in_phase(k: nat) -> spec_fn(GenericArgument) -> bool {
    |a: GenericArgument| arg_phase(a) == k
}

/// The arguments grouped by phase, each group in its input order.
pub open spec fn canonical_order(args: Seq<GenericArgument>) -> Seq<GenericArgument> {
    args.filter(in_phase(0)) + args.filter(in_phase(1)) + args.filter(in_phase(2))
}

/// Each argument followed by `,`, the last one included.
pub open spec fn arg_list_tokens(args: Seq<GenericArgument>) -> Seq<Seq<char>>
    decreases args.len(),
{
    if args.len() == 0 {
        Seq::empty()
    } else {
        arg_list_tokens(args.drop_last()) + generic_argument_tokens(args.last()) + seq![","@]
    }
}

pub open spec fn angle_bracketed_tokens(g: AngleBracketedGenericArguments) -> Seq<Seq<char>> {
    (if g.colon2_token {
        seq!["::"@]
    } else {
        Seq::empty()
    }) + seq!["<"@] + arg_list_tokens(canonical_order(g.args@)) + seq![">"@]
}

/// Each type followed by `,`, the last one included.
pub open spec fn type_list_tokens(ts: Seq<Type>) -> Seq<Seq<char>>
    decreases ts.len(),
{
    if ts.len() == 0 {
        Seq::empty()
    } else {
        type_list_tokens(ts.drop_last()) + type_tokens(ts.last()) + seq![","@]
    }
}

pub open spec fn parenthesized_tokens(p: ParenthesizedGenericArguments) -> Seq<Seq<char>> {
    seq!["("@] + type_list_tokens(p.inputs@) + seq![")"@] + return_type_tokens(p.output)
}

pub open spec fn path_arguments_tokens(a: PathArguments) -> Seq<Seq<char>> {
    match a {
        PathArguments::Empty => Seq::empty(),
        PathArguments::AngleBracketed(g) => angle_bracketed_tokens(g),
        PathArguments::Parenthesized(p) => parenthesized_tokens(p),
    }
}

pub open spec fn segment_tokens(s: PathSegment) -> Seq<Seq<char>> {
    seq![s.ident@] + path_arguments_tokens(s.arguments)
}

/// The segments in order, each preceded by `::` except the first when the
/// list is not rooted.
pub open spec fn segments_tokens(segs: Seq<PathSegment>, rooted: bool) -> Seq<Seq<char>>
    decreases segs.len(),
{
    if segs.len() == 0 {
        Seq::empty()
    } else {
        segments_tokens(segs.drop_last(), rooted) + (if segs.len() == 1 && !rooted {
            Seq::empty()
        } else {
            seq!["::"@]
        }) + segment_tokens(segs.last())
    }
}

pub open spec fn path_tokens(p: Path) -> Seq<Seq<char>> {
    segments_tokens(p.segments@, p.leading_colon)
}

/// The position of a qualified self, clamped to the number of segments.
pub open spec fn clamped_position(q: QSelf, p: Path) -> int {
    if q.position < p.segments@.len() {
        q.position as int
    } else {
        p.segments@.len() as int
    }
}

/// `<T>::a::b` at position 0; `<T as a::b>::c` at position 2.
pub open spec fn qpath_tokens(qself: Option<QSelf>, p: Path) -> Seq<Seq<char>> {
    match qself {
        None => path_tokens(p),
        Some(q) => {
            let pos = clamped_position(q, p);
            seq!["<"@] + type_tokens(q.ty) + (if pos > 0 {
                seq!["as"@] + segments_tokens(p.segments@.take(pos), p.leading_colon)
            } else {
                Seq::empty()
            }) + seq![">"@] + segments_tokens(p.segments@.skip(pos), true)
        },
    }
}

} // verus!
