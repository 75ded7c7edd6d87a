//! Printing of paths, their segments and generic arguments.

use crate::ast::{
    AngleBracketedGenericArguments, Binding, Constraint, Expr, GenericArgument,
    ParenthesizedGenericArguments, Path, PathArguments, PathSegment, QSelf,
};
use crate::order::lemma_phase_step;
use crate::printer::Printer;
use crate::render::{
    angle_bracketed_tokens, arg_list_tokens, arg_phase, bounds_tokens, canonical_order,
    generic_argument_tokens, in_phase, parenthesized_tokens, path_arguments_tokens, path_tokens,
    qpath_tokens, segment_tokens, segments_tokens, type_list_tokens, type_tokens,
};
use vstd::prelude::*;

verus! {

impl Printer {
    /// Emits the segments, each preceded by `::` except the first of an
    /// unrooted path.
    pub fn path(&mut self, path: &Path)
        ensures
            final(self)@ == old(self)@ + path_tokens(*path),
    {
        self.segments(&path.segments, 0, path.segments.len(), path.leading_colon);
        assert(path.segments@.subrange(0, path.segments@.len() as int) =~= path.segments@);
    }

    /// Emits `segments[lo..hi]`, each preceded by `::` except the first when
    /// `rooted` is unset.
    fn segments(&mut self, segments: &Vec<PathSegment>, lo: usize, hi: usize, rooted: bool)
        requires
            lo <= hi <= segments@.len(),
        ensures
            final(self)@ == old(self)@ + segments_tokens(segments@.subrange(lo as int, hi as int), rooted),
    {
        let ghost start = self@;
        let mut i: usize = lo;
        while i < hi
            invariant
                lo <= i <= hi <= segments@.len(),
                self@ == start + segments_tokens(segments@.subrange(lo as int, i as int), rooted),
            decreases hi - i,
        {
            if i > lo || rooted {
                self.word("::");
            }
            self.path_segment(&segments[i]);
            proof {
                let done = segments@.subrange(lo as int, i + 1);
                assert(done.drop_last() =~= segments@.subrange(lo as int, i as int));
                assert(done.last() == segments@[i as int]);
                assert(self@ =~= start + segments_tokens(done, rooted));
            }
            i += 1;
        }
    }

    pub fn path_segment(&mut self, segment: &PathSegment)
        ensures
            final(self)@ == old(self)@ + segment_tokens(*segment),
    {
        self.ident(&segment.ident);
        self.path_arguments(&segment.arguments);
    }

    fn path_arguments(&mut self, arguments: &PathArguments)
        ensures
            final(self)@ == old(self)@ + path_arguments_tokens(*arguments),
    {
        match arguments {
            PathArguments::Empty => {},
            PathArguments::AngleBracketed(arguments) => {
                self.angle_bracketed_generic_arguments(arguments);
            },
            PathArguments::Parenthesized(arguments) => {
                self.parenthesized_generic_arguments(arguments);
            },
        }
    }

    fn generic_argument(&mut self, arg: &GenericArgument)
        ensures
            final(self)@ == old(self)@ + generic_argument_tokens(*arg),
    {
        match arg {
            GenericArgument::Lifetime(lifetime) => self.lifetime(lifetime),
            GenericArgument::Type(ty) => self.ty(ty),
            GenericArgument::Binding(binding) => self.binding(binding),
            GenericArgument::Constraint(constraint) => self.constraint(constraint),
            GenericArgument::Const(expr) => {
                match expr {
                    Expr::Lit(text) => self.verbatim(text),
                    Expr::Block(text) => self.verbatim(text),
                    // Braces make any other expression read back as a
                    // single argument.
                    Expr::Other(text) => {
                        self.word("{");
                        self.verbatim(text);
                        self.word("}");
                    },
                }
            },
        }
    }

    /// Emits `<...>` with lifetimes first, then types and constants, then
    /// bindings and constraints, each group in its input order.
    fn angle_bracketed_generic_arguments(&mut self, generic: &AngleBracketedGenericArguments)
        ensures
            final(self)@ == old(self)@ + angle_bracketed_tokens(*generic),
    {
        if generic.colon2_token {
            self.word("::");
        }
        self.word("<");
        let ghost opened = self@;
        let args = &generic.args;
        let n = args.len();

        let ghost done = Seq::<GenericArgument>::empty();
        let mut i: usize = 0;
        while i < n
            invariant
                i <= n == args@.len(),
                self@ == opened + arg_list_tokens(done + args@.take(i as int).filter(in_phase(0))),
            decreases n - i,
        {
            let arg = &args[i];
            proof {
                lemma_phase_step(done, args@, i as int, 0);
            }
            match arg {
                GenericArgument::Lifetime(_) => {
                    self.generic_argument(arg);
                    self.word(",");
                },
                GenericArgument::Type(_)
                | GenericArgument::Binding(_)
                | GenericArgument::Constraint(_)
                | GenericArgument::Const(_) => {},
            }
            i += 1;
        }
        proof {
            assert(args@.take(n as int) =~= args@);
            done = done + args@.filter(in_phase(0));
        }

        let mut i: usize = 0;
        while i < n
            invariant
                i <= n == args@.len(),
                self@ == opened + arg_list_tokens(done + args@.take(i as int).filter(in_phase(1))),
            decreases n - i,
        {
            let arg = &args[i];
            proof {
                lemma_phase_step(done, args@, i as int, 1);
            }
            match arg {
                GenericArgument::Type(_) | GenericArgument::Const(_) => {
                    self.generic_argument(arg);
                    self.word(",");
                },
                GenericArgument::Lifetime(_)
                | GenericArgument::Binding(_)
                | GenericArgument::Constraint(_) => {},
            }
            i += 1;
        }
        proof {
            assert(args@.take(n as int) =~= args@);
            done = done + args@.filter(in_phase(1));
        }

        let mut i: usize = 0;
        while i < n
            invariant
                i <= n == args@.len(),
                self@ == opened + arg_list_tokens(done + args@.take(i as int).filter(in_phase(2))),
            decreases n - i,
        {
            let arg = &args[i];
            proof {
                lemma_phase_step(done, args@, i as int, 2);
            }
            match arg {
                GenericArgument::Binding(_) | GenericArgument::Constraint(_) => {
                    self.generic_argument(arg);
                    self.word(",");
                },
                GenericArgument::Lifetime(_)
                | GenericArgument::Type(_)
                | GenericArgument::Const(_) => {},
            }
            i += 1;
        }
        proof {
            assert(args@.take(n as int) =~= args@);
            assert(done + args@.filter(in_phase(2)) == canonical_order(args@));
        }
        self.word(">");
        assert(self@ =~= old(self)@ + angle_bracketed_tokens(*generic));
    }

    fn binding(&mut self, binding: &Binding)
        ensures
            final(self)@ == old(self)@ + seq![binding.ident@, "="@] + type_tokens(binding.ty),
    {
        self.ident(&binding.ident);
        self.word("=");
        self.ty(&binding.ty);
    }

    fn constraint(&mut self, constraint: &Constraint)
        ensures
            final(self)@ == old(self)@ + seq![constraint.ident@, ":"@] + bounds_tokens(
                constraint.bounds@,
            ),
    {
        self.ident(&constraint.ident);
        self.word(":");
        let ghost start = self@;
        let bounds = &constraint.bounds;
        let mut i: usize = 0;
        while i < bounds.len()
            invariant
                i <= bounds@.len(),
                self@ == start + bounds_tokens(bounds@.take(i as int)),
            decreases bounds@.len() - i,
        {
            proof {
                assert(bounds@.take(i + 1).drop_last() =~= bounds@.take(i as int));
            }
            self.type_param_bound(&bounds[i]);
            self.word("+");
            i += 1;
        }
        proof {
            assert(bounds@.take(i as int) =~= bounds@);
        }
    }

    /// Emits `(A, B, ) -> C`: each input followed by `,`, then the output.
    fn parenthesized_generic_arguments(&mut self, arguments: &ParenthesizedGenericArguments)
        ensures
            final(self)@ == old(self)@ + parenthesized_tokens(*arguments),
    {
        self.word("(");
        let ghost start = self@;
        let inputs = &arguments.inputs;
        let mut i: usize = 0;
        while i < inputs.len()
            invariant
                i <= inputs@.len(),
                self@ == start + type_list_tokens(inputs@.take(i as int)),
            decreases inputs@.len() - i,
        {
            proof {
                assert(inputs@.take(i + 1).drop_last() =~= inputs@.take(i as int));
            }
            self.ty(&inputs[i]);
            self.word(",");
            i += 1;
        }
        proof {
            assert(inputs@.take(i as int) =~= inputs@);
        }
        self.word(")");
        self.return_type(&arguments.output);
        assert(self@ =~= old(self)@ + parenthesized_tokens(*arguments));
    }

    /// Emits a path, or with a qualified self `<T>::rest` (position 0) or
    /// `<T as Trait>::rest`, where the trait is named by the first
    /// `position` segments, clamped to their number.
    pub fn qpath(&mut self, qself: &Option<QSelf>, path: &Path)
        ensures
            final(self)@ == old(self)@ + qpath_tokens(*qself, *path),
    {
        let qself = match qself {
            Some(qself) => qself,
            None => {
                self.path(path);
                return;
            },
        };

        self.word("<");
        self.ty(&qself.ty);

        let len = path.segments.len();
        let pos = if qself.position < len {
            qself.position
        } else {
            len
        };
        if pos > 0 {
            self.word("as");
            self.segments(&path.segments, 0, pos, path.leading_colon);
        }
        self.word(">");
        self.segments(&path.segments, pos, len, true);
        proof {
            assert(path.segments@.take(pos as int) =~= path.segments@.subrange(0, pos as int));
            assert(path.segments@.skip(pos as int) =~= path.segments@.subrange(pos as int, len as int));
        }
        assert(self@ =~= old(self)@ + qpath_tokens(Some(*qself), *path));
    }
}

} // verus!
