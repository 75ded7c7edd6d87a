//! The output buffer and the printers of the leaves.

use crate::ast::{Lifetime, ReturnType, Type, TypeParamBound};
use crate::render::{bound_tokens, lifetime_tokens, return_type_tokens, type_tokens};
use vstd::prelude::*;

verus! {

/// Collects the tokens that the printing functions emit, in order.
pub struct Printer {
    pub tokens: Vec<String>,
}

impl View for Printer {
    type V = Seq<Seq<char>>;

    open spec fn view(&self) -> Seq<Seq<char>> {
        self.tokens@.map_values(|s: String| s@)
    }
}

impl Printer {
    pub fn new() -> (r: Printer)
        ensures
            r@ == Seq::<Seq<char>>::empty(),
    {
        Printer { tokens: Vec::new() }
    }

    /// Appends a keyword or punctuation token.
    pub fn word(&mut self, w: &str)
        ensures
            final(self)@ == old(self)@.push(w@),
    {
        self.tokens.push(String::from_str(w));
        assert(self@ =~= old(self)@.push(w@));
    }

    /// Appends an identifier.
    pub fn ident(&mut self, name: &String)
        ensures
            final(self)@ == old(self)@.push(name@),
    {
        self.tokens.push(name.clone());
        assert(self@ =~= old(self)@.push(name@));
    }

    /// Appends text that another printer has already rendered, as one token.
    pub fn verbatim(&mut self, text: &String)
        ensures
            final(self)@ == old(self)@.push(text@),
    {
        self.tokens.push(text.clone());
        assert(self@ =~= old(self)@.push(text@));
    }

    pub fn lifetime(&mut self, l: &Lifetime)
        ensures
            final(self)@ == old(self)@ + lifetime_tokens(*l),
    {
        self.verbatim(&l.text);
    }

    pub fn ty(&mut self, t: &Type)
        ensures
            final(self)@ == old(self)@ + type_tokens(*t),
    {
        self.verbatim(&t.text);
    }

    pub fn type_param_bound(&mut self, b: &TypeParamBound)
        ensures
            final(self)@ == old(self)@ + bound_tokens(*b),
    {
        self.verbatim(&b.text);
    }

    /// Emits `-> T`, or nothing for the default output.
    pub fn return_type(&mut self, r: &ReturnType)
        ensures
            final(self)@ == old(self)@ + return_type_tokens(*r),
    {
        match r {
            ReturnType::Default => {},
            ReturnType::Type(t) => {
                self.word("->");
                self.ty(t);
            },
        }
    }
}

} // verus!
