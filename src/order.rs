//! The canonical order of generic arguments, and what it keeps.

use crate::ast::GenericArgument;
use crate::render::{arg_list_tokens, arg_phase, canonical_order, generic_argument_tokens, in_phase};
use vstd::prelude::*;

verus! {

/// Appending one argument to a list appends its tokens and a `,`.
proof fn lemma_arg_list_push(s: Seq<GenericArgument>, x: GenericArgument)
    ensures
        arg_list_tokens(s.push(x)) == arg_list_tokens(s) + generic_argument_tokens(x) + seq![","@],
{
    assert(s.push(x).drop_last() =~= s);
}

/// One more input argument, seen by the pass that emits phase `k` after the
/// groups `done`.
pub(crate) proof fn lemma_phase_step(done: Seq<GenericArgument>, args: Seq<GenericArgument>, i: int, k: nat)
    requires
        0 <= i < args.len(),
    ensures
        arg_list_tokens(done + args.take(i + 1).filter(in_phase(k))) == arg_list_tokens(
            done + args.take(i).filter(in_phase(k)),
        ) + (if arg_phase(args[i]) == k {
            generic_argument_tokens(args[i]) + seq![","@]
        } else {
            Seq::empty()
        }),
{
    let f = args.take(i).filter(in_phase(k));
    assert(args.take(i + 1) =~= args.take(i).push(args[i]));
    args.take(i).lemma_filter_push(args[i], in_phase(k));
    if arg_phase(args[i]) == k {
        assert(done + f.push(args[i]) =~= (done + f).push(args[i]));
        lemma_arg_list_push(done + f, args[i]);
    } else {
        assert(arg_list_tokens(done + f) + Seq::<Seq<char>>::empty() =~= arg_list_tokens(done + f));
    }
}

/// Filtering by one phase after another keeps the first filter's result
/// when the phases agree, and nothing when they differ.
proof fn lemma_refilter(s: Seq<GenericArgument>, j: nat, k: nat)
    ensures
        s.filter(in_phase(j)).filter(in_phase(k)) == (if j == k {
            s.filter(in_phase(j))
        } else {
            Seq::empty()
        }),
    decreases s.len(),
{
    reveal(Seq::filter);
    if s.len() > 0 {
        let d = s.drop_last();
        let x = s.last();
        assert(s =~= d.push(x));
        lemma_refilter(d, j, k);
        d.lemma_filter_push(x, in_phase(j));
        if arg_phase(x) == j {
            d.filter(in_phase(j)).lemma_filter_push(x, in_phase(k));
        }
    }
}

/// The three phases together hold every argument.
proof fn lemma_phase_lengths(s: Seq<GenericArgument>)
    ensures
        s.filter(in_phase(0)).len() + s.filter(in_phase(1)).len() + s.filter(in_phase(2)).len()
            == s.len(),
    decreases s.len(),
{
    reveal(Seq::filter);
    if s.len() > 0 {
        let d = s.drop_last();
        let x = s.last();
        assert(s =~= d.push(x));
        lemma_phase_lengths(d);
        d.lemma_filter_push(x, in_phase(0));
        d.lemma_filter_push(x, in_phase(1));
        d.lemma_filter_push(x, in_phase(2));
    }
}

/// The order in which a list of generic arguments is emitted is a stable
/// grouping by kind: no argument precedes one of an earlier group
/// (lifetimes, then types and constants, then bindings and constraints),
/// each group keeps exactly its arguments in their input order, and no
/// argument is added or lost.
pub proof fn lemma_canonical_order(args: Seq<GenericArgument>)
    ensures
        forall|i: int, j: int|
            #![trigger canonical_order(args)[i], canonical_order(args)[j]]
            0 <= i < j < canonical_order(args).len() ==> arg_phase(canonical_order(args)[i])
                <= arg_phase(canonical_order(args)[j]),
        forall|k: nat| #[trigger]
            canonical_order(args).filter(in_phase(k)) == args.filter(in_phase(k)),
        canonical_order(args).len() == args.len(),
{
    let a = args.filter(in_phase(0));
    let b = args.filter(in_phase(1));
    let c = args.filter(in_phase(2));
    let o = canonical_order(args);
    lemma_phase_lengths(args);
    assert forall|i: int| 0 <= i < o.len() implies arg_phase(#[trigger] o[i]) == (if i < a.len() {
        0nat
    } else if i < a.len() + b.len() {
        1nat
    } else {
        2nat
    }) by {
        if i < a.len() {
            args.lemma_filter_pred(in_phase(0), i);
        } else if i < a.len() + b.len() {
            args.lemma_filter_pred(in_phase(1), i - a.len());
        } else {
            args.lemma_filter_pred(in_phase(2), i - a.len() - b.len());
        }
    }
    assert forall|k: nat| #[trigger] o.filter(in_phase(k)) == args.filter(in_phase(k)) by {
        Seq::filter_distributes_over_add(a + b, c, in_phase(k));
        Seq::filter_distributes_over_add(a, b, in_phase(k));
        lemma_refilter(args, 0, k);
        lemma_refilter(args, 1, k);
        lemma_refilter(args, 2, k);
        if k > 2 {
            assert(args.filter(in_phase(k)).len() == 0) by {
                lemma_no_phase(args, k);
            }
        }
    }
}

/// No argument belongs to a phase past the last.
proof fn lemma_no_phase(s: Seq<GenericArgument>, k: nat)
    requires
        k > 2,
    ensures
        s.filter(in_phase(k)).len() == 0,
    decreases s.len(),
{
    reveal(Seq::filter);
    if s.len() > 0 {
        lemma_no_phase(s.drop_last(), k);
    }
}

} // verus!
