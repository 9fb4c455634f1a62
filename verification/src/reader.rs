//! Reading a term from text, by the `sexp` crate's reader.
use vstd::prelude::*;
use crate::term::{lemma_list_model, terms_model, Term, TermModel};

verus! {

/// A tree as the `sexp` crate's reader hands it out.
#[verifier::external_type_specification]
#[verifier::external_body]
pub struct ExSexp(sexp::Sexp);

/// Why a text is not a term, and where.
#[derive(Debug, PartialEq, Eq)]
pub struct SyntaxError {
    pub message: String,
    pub line: usize,
    pub column: usize,
    pub index: usize,
}

/// The mathematical value of a [`SyntaxError`].
pub ghost struct SyntaxErrorModel {
    pub message: Seq<char>,
    pub line: nat,
    pub column: nat,
    pub index: nat,
}

impl View for SyntaxError {
    type V = SyntaxErrorModel;

    open spec fn view(&self) -> SyntaxErrorModel {
        SyntaxErrorModel {
            message: self.message@,
            line: self.line as nat,
            column: self.column as nat,
            index: self.index as nat,
        }
    }
}

/// The term that a tree of the reader holds.
pub uninterp spec fn sexp_term(tree: sexp::Sexp) -> TermModel;

/// The height of a tree of the reader: more than that of each of its items.
pub uninterp spec fn sexp_height(tree: sexp::Sexp) -> nat;

/// What the reader makes of a text: the term it reads, or its complaint.
pub uninterp spec fn parsed_text(text: Seq<char>) -> Result<TermModel, SyntaxErrorModel>;

/// Calls `sexp::parse`, which reads one tree from the whole of `text`. The
/// contract claims only that the outcome is a function of the text: which
/// texts are accepted, and as what, is left to the reader. The reader's
/// error is copied field by field.
#[verifier::external_body]
fn parse_sexp(text: &str) -> (r: Result<sexp::Sexp, SyntaxError>)
    ensures
        match r {
            Ok(tree) => parsed_text(text@) == Ok::<TermModel, SyntaxErrorModel>(sexp_term(tree)),
            Err(e) => parsed_text(text@) == Err::<TermModel, SyntaxErrorModel>(e@),
        },
{
    match sexp::parse(text) {
        Ok(tree) => Ok(tree),
        Err(e) => Err(
            SyntaxError {
                message: e.message.to_string(),
                line: e.line,
                column: e.column,
                index: e.index,
            },
        ),
    }
}

/// One node of a tree of the reader: an atom, or the items of a list.
enum SexpNode<'a> {
    Atom(Term),
    List(&'a Vec<sexp::Sexp>),
}

/// Tells the variants of `sexp::Sexp` and `sexp::Atom` apart. Of an atom,
/// `I` is handed out as an integer atom, `S` as a symbol and `F` as the bit
/// pattern of its number; of a `List`, its items as they are. The contract
/// says that the tree's term is that atom, or the list of its items' terms,
/// and that each item is a smaller tree.
#[verifier::external_body]
fn sexp_node<'a>(tree: &'a sexp::Sexp) -> (node: SexpNode<'a>)
    ensures
        match node {
            SexpNode::Atom(atom) => !(atom is List) && sexp_term(*tree) == atom@,
            SexpNode::List(items) => {
                &&& sexp_term(*tree) is List
                &&& sexp_term(*tree)->List_0.len() == items.len()
                &&& forall|i: int|
                    0 <= i < items.len() ==> sexp_term(*tree)->List_0[i] == sexp_term(
                        #[trigger] items[i],
                    ) && sexp_height(items[i]) < sexp_height(*tree)
            },
        },
{
    match tree {
        sexp::Sexp::Atom(sexp::Atom::I(n)) => SexpNode::Atom(Term::Int(*n)),
        sexp::Sexp::Atom(sexp::Atom::F(x)) => SexpNode::Atom(Term::Real(x.to_bits())),
        sexp::Sexp::Atom(sexp::Atom::S(name)) => SexpNode::Atom(Term::Symbol(name.clone())),
        sexp::Sexp::List(items) => SexpNode::List(items),
    }
}

/// Copies a tree of the reader into a [`Term`].
fn term_of_sexp(tree: &sexp::Sexp) -> (term: Term)
    ensures
        term@ == sexp_term(*tree),
    decreases sexp_height(*tree),
{
    match sexp_node(tree) {
        SexpNode::Atom(atom) => atom,
        SexpNode::List(items) => {
            let mut terms: Vec<Term> = Vec::new();
            let mut i: usize = 0;
            while i < items.len()
                invariant
                    i <= items.len(),
                    terms.len() == i,
                    forall|j: int| 0 <= j < i ==> terms[j]@ == sexp_term(#[trigger] items[j]),
                    forall|j: int|
                        0 <= j < items.len() ==> sexp_height(#[trigger] items[j]) < sexp_height(
                            *tree,
                        ),
                decreases items.len() - i,
            {
                let term = term_of_sexp(&items[i]);
                terms.push(term);
                i += 1;
            }
            proof {
                lemma_list_model(terms);
                assert forall|j: int| 0 <= j < items.len() implies terms_model(terms@)[j]
                    == sexp_term(*tree)->List_0[j] by {
                    assert(terms[j]@ == sexp_term(items[j]));
                }
                assert(terms_model(terms@) =~= sexp_term(*tree)->List_0);
            }
            Term::List(terms)
        },
    }
}

/// Reads one term from the whole of `text`.
pub fn read_term(text: &str) -> (r: Result<Term, SyntaxError>)
    ensures
        match r {
            Ok(term) => parsed_text(text@) == Ok::<TermModel, SyntaxErrorModel>(term@),
            Err(e) => parsed_text(text@) == Err::<TermModel, SyntaxErrorModel>(e@),
        },
{
    match parse_sexp(text) {
        Ok(tree) => Ok(term_of_sexp(&tree)),
        Err(e) => Err(e),
    }
}

} // verus!
