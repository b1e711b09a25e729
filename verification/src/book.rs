use vstd::prelude::*;

use crate::text::str_eq;

verus! {

/// A binary primitive operation over machine words.
#[derive(Clone, Copy, Debug, PartialEq, Eq, Structural)]
pub enum Operator {
    Add,
    Sub,
    Mul,
    Div,
    Mod,
    And,
    Or,
    Xor,
    Shl,
    Shr,
    Ltn,
    Lte,
    Eql,
    Gte,
    Gtn,
    Neq,
}

/// One term of the elaborated calculus.
#[derive(Debug)]
pub enum Term {
    /// The type of types.
    Typ,
    /// A variable reference, rendered verbatim.
    Var { name: String },
    /// A single-argument lambda; several parameters nest.
    Lam { name: String, body: Box<Term> },
    /// An application of one function term to one argument term.
    App { func: Box<Term>, argm: Box<Term> },
    /// A dependent function type; carries no runtime information.
    All { name: String, tipo: Box<Term>, body: Box<Term> },
    /// A let binding.
    Let { name: String, expr: Box<Term>, body: Box<Term> },
    /// A type ascription; erased at lowering.
    Ann { expr: Box<Term>, tipo: Box<Term> },
    /// The internal substitution wrapper; erased at lowering.
    Sub { name: String, expr: Box<Term> },
    /// A saturated constructor application.
    Ctr { name: String, args: Vec<Term> },
    /// A saturated function application.
    Fun { name: String, args: Vec<Term> },
    /// A compiler hint.
    Hlp,
    /// The machine-word type marker.
    U60,
    /// A numeral literal.
    Num { numb: u64 },
    /// A binary primitive operation.
    Op2 { oper: Operator, val0: Box<Term>, val1: Box<Term> },
    /// A typed hole, with an optional attached numeral.
    Hol { numb: u64 },
    /// The pattern-elimination form. A normalization phase removes every
    /// occurrence before lowering runs; none may reach this crate's
    /// lowering functions.
    Mat,
}

/// One declared argument of a top-level entry. `eras` marks an erased
/// argument: one used only for type-checking and dropped from call sites
/// and rule patterns when rewrite-rule text is produced. The declared type
/// is held as its display text, which is all this stage reads of it.
#[derive(Clone, Debug)]
pub struct Argument {
    pub name: String,
    pub tipo: String,
    pub eras: bool,
}

/// One rewrite equation: the owning entry's name, one pattern per declared
/// argument (before erasure filtering), and a body.
#[derive(Debug)]
pub struct Rule {
    pub name: String,
    pub pats: Vec<Term>,
    pub body: Term,
}

/// One elaborated top-level definition.
#[derive(Debug)]
pub struct Entry {
    pub name: String,
    /// An optional disambiguating origin tag, shown after the name in the
    /// header comment.
    pub kdln: Option<String>,
    pub args: Vec<Argument>,
    /// Display text of the declared return type.
    pub tipo: String,
    pub rules: Vec<Rule>,
}

/// The whole elaborated program: entries keyed by name, and the canonical
/// name order that fixes emission order. The bindings form an association
/// list; a lookup returns the first binding of a name.
#[derive(Debug)]
pub struct Book {
    pub names: Vec<String>,
    pub entrs: Vec<(String, Entry)>,
}

/// The entry bound to `name` in an association list, at its first binding.
pub open spec fn lookup_entry(entrs: Seq<(String, Entry)>, name: Seq<char>) -> Option<Entry>
    decreases entrs.len(),
{
    if entrs.len() == 0 {
        None
    } else if entrs[0].0@ == name {
        Some(entrs[0].1)
    } else {
        lookup_entry(entrs.drop_first(), name)
    }
}

impl Book {
    /// The entry bound to `name`, if any.
    pub open spec fn spec_get(self, name: Seq<char>) -> Option<Entry> {
        lookup_entry(self.entrs@, name)
    }

    /// Looks a name up among the book's bindings.
    pub fn get(&self, name: &str) -> (r: Option<&Entry>)
        ensures
            match r {
                Some(e) => self.spec_get(name@) == Some(*e),
                None => self.spec_get(name@) is None,
            },
    {
        let mut i: usize = 0;
        proof {
            assert(self.entrs@.skip(0) =~= self.entrs@);
        }
        while i < self.entrs.len()
            invariant
                i <= self.entrs@.len(),
                lookup_entry(self.entrs@.skip(i as int), name@) == self.spec_get(name@),
            decreases self.entrs@.len() - i,
        {
            proof {
                assert(self.entrs@.skip(i as int)[0] == self.entrs@[i as int]);
                assert(self.entrs@.skip(i as int).drop_first() =~= self.entrs@.skip(i as int + 1));
            }
            if str_eq(self.entrs[i].0.as_str(), name) {
                return Some(&self.entrs[i].1);
            }
            i += 1;
        }
        None
    }
}

} // verus!
