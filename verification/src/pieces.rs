use vstd::prelude::*;
use vstd::string::StringExecFns;

verus! {

/// The mathematical shape of a [`FormatPiece`]: either one literal
/// character, or a formatter holding the key (as a character sequence)
/// and the callback registered for it at compile time.
pub enum PieceModel<F> {
    Lit(char),
    Fmt(Seq<char>, F),
}

/// A container around a callback that also carries the key it was
/// registered under.
#[derive(Debug)]
pub struct Formatter<F> {
    pub key: String,
    pub cb: F,
}

impl<F> PartialEq for Formatter<F> {
    /// Two formatters are equal when their keys are; the callbacks they
    /// hold are deliberately ignored. This keeps compiled templates
    /// comparable even though callables admit no useful equality.
    fn eq(&self, other: &Formatter<F>) -> (r: bool) {
        self.key == other.key
    }
}

impl<F> Eq for Formatter<F> {

}

impl<F> vstd::std_specs::cmp::PartialEqSpecImpl for Formatter<F> {
    open spec fn obeys_eq_spec() -> bool {
        true
    }

    open spec fn eq_spec(&self, other: &Formatter<F>) -> bool {
        self.key@ == other.key@
    }
}

impl<F> Formatter<F> {
    /// The description that [`Formatter::debug_string`] promises.
    pub open spec fn debug_model(&self) -> Seq<char> {
        "Formatter(key: "@ + self.key@ + ")"@
    }

    /// A short description of this formatter, naming its key.
    pub fn debug_string(&self) -> (r: String)
        ensures
            r@ == self.debug_model(),
    {
        let mut m = String::from_str("Formatter(key: ");
        m.append(self.key.as_str());
        m.append(")");
        m
    }
}

/// One element of a compiled template: either a plain character, or a
/// formatter to be invoked later by rendering.
#[derive(Debug)]
pub enum FormatPiece<F> {
    Char(char),
    Formatter(Formatter<F>),
}

impl<F> View for FormatPiece<F> {
    type V = PieceModel<F>;

    open spec fn view(&self) -> PieceModel<F> {
        match self {
            FormatPiece::Char(c) => PieceModel::Lit(*c),
            FormatPiece::Formatter(f) => PieceModel::Fmt(f.key@, f.cb),
        }
    }
}

impl<F> PartialEq for FormatPiece<F> {
    /// Pieces compare by their models: characters by value, formatters by
    /// key alone.
    fn eq(&self, other: &FormatPiece<F>) -> (r: bool) {
        match (self, other) {
            (FormatPiece::Char(a), FormatPiece::Char(b)) => a == b,
            (FormatPiece::Formatter(a), FormatPiece::Formatter(b)) => a.key == b.key,
            _ => false,
        }
    }
}

impl<F> Eq for FormatPiece<F> {

}

impl<F> vstd::std_specs::cmp::PartialEqSpecImpl for FormatPiece<F> {
    open spec fn obeys_eq_spec() -> bool {
        true
    }

    open spec fn eq_spec(&self, other: &FormatPiece<F>) -> bool {
        match (self, other) {
            (FormatPiece::Char(a), FormatPiece::Char(b)) => a == b,
            (FormatPiece::Formatter(a), FormatPiece::Formatter(b)) => a.key@ == b.key@,
            _ => false,
        }
    }
}

/// A compiled template: the ordered pieces produced from a template string,
/// rendered any number of times thereafter.
pub type FormatPieces<F> = Vec<FormatPiece<F>>;

/// The models of a sequence of pieces, in order.
pub open spec fn pieces_model<F>(pieces: Seq<FormatPiece<F>>) -> Seq<PieceModel<F>> {
    pieces.map_values(|p: FormatPiece<F>| p@)
}

/// [`pieces_model`] keeps the length and maps each piece to its model.
/// (Verus does not apply these by itself at a callback-type
/// instantiation; this states them once, for every `F`.)
pub proof fn lemma_pieces_model_index<F>(pieces: Seq<FormatPiece<F>>)
    ensures
        pieces_model(pieces).len() == pieces.len(),
        forall|i: int| 0 <= i < pieces.len() ==> #[trigger] pieces_model(pieces)[i] == pieces[i]@,
{
}

} // verus!
