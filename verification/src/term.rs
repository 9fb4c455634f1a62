//! The untyped term tree that the expression builder consumes.
use vstd::prelude::*;

verus! {

/// An untyped term: an atom or an ordered list of terms.
#[derive(Debug, PartialEq, Eq)]
pub enum Term {
    /// An integer atom.
    Int(i64),
    /// A floating-point atom, kept as the bit pattern of its value.
    Real(u64),
    /// A symbolic atom.
    Symbol(String),
    /// An ordered list of terms.
    List(Vec<Term>),
}

/// The mathematical value of a [`Term`].
pub ghost enum TermModel {
    Int(int),
    Real(u64),
    Symbol(Seq<char>),
    List(Seq<TermModel>),
}

impl Term {
    /// The value that this tree stands for.
    pub open spec fn model(&self) -> TermModel
        decreases self,
    {
        match self {
            Term::Int(n) => TermModel::Int(*n as int),
            Term::Real(bits) => TermModel::Real(*bits),
            Term::Symbol(s) => TermModel::Symbol(s@),
            Term::List(items) => TermModel::List(
                Seq::new(
                    items.len() as nat,
                    |i: int|
                        if 0 <= i < items.len() {
                            items[i].model()
                        } else {
                            TermModel::Int(0)
                        },
                ),
            ),
        }
    }
}

/// The values of a sequence of terms, item by item.
pub open spec fn terms_model(items: Seq<Term>) -> Seq<TermModel> {
    Seq::new(items.len(), |i: int| items[i]@)
}

/// A list term stands for the list of what its items stand for.
pub proof fn lemma_list_model(items: Vec<Term>)
    ensures
        Term::List(items)@ == TermModel::List(terms_model(items@)),
{
    assert(Term::List(items)@->List_0 =~= terms_model(items@));
}

impl View for Term {
    type V = TermModel;

    open spec fn view(&self) -> TermModel {
        self.model()
    }
}

impl Clone for Term {
    fn clone(&self) -> (copy: Term)
        ensures
            copy@ == self@,
        decreases self,
    {
        match self {
            Term::Int(n) => Term::Int(*n),
            Term::Real(bits) => Term::Real(*bits),
            Term::Symbol(s) => Term::Symbol(s.clone()),
            Term::List(items) => {
                let mut copies: Vec<Term> = Vec::new();
                let mut i: usize = 0;
                while i < items.len()
                    invariant
                        i <= items.len(),
                        copies.len() == i,
                        forall|j: int| 0 <= j < i ==> copies[j]@ == items[j]@,
                        decreases_to!(self => items),
                    decreases items.len() - i,
                {
                    let item = items[i].clone();
                    copies.push(item);
                    i += 1;
                }
                let copy = Term::List(copies);
                assert(copy@ =~= self@) by {
                    assert(copy@->List_0 =~= self@->List_0);
                }
                copy
            },
        }
    }
}

} // verus!
