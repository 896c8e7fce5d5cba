use vstd::prelude::*;
use vstd::string::StringExecFns;

use crate::error::Error;
use crate::error::ErrorModel;
use crate::pieces::FormatPiece;
use crate::pieces::FormatPieces;
use crate::pieces::PieceModel;
use crate::pieces::pieces_model;

verus! {

/// How one piece can contribute the characters `o` to a rendering of
/// `data`: a literal piece contributes exactly its character, a formatter
/// piece contributes the characters of a string its callback can return.
pub open spec fn piece_output<T, F: Fn(&T) -> Option<String>>(
    p: PieceModel<F>,
    data: &T,
    o: Seq<char>,
) -> bool {
    match p {
        PieceModel::Lit(ch) => o == seq![ch],
        PieceModel::Fmt(key, cb) => exists|s: String|
            s@ == o && call_ensures(cb, (data,), Some(s)),
    }
}

/// How a sequence of pieces can contribute one output per piece, in order.
pub open spec fn rendered_as<T, F: Fn(&T) -> Option<String>>(
    pieces: Seq<PieceModel<F>>,
    data: &T,
    outs: Seq<Seq<char>>,
) -> bool {
    &&& outs.len() == pieces.len()
    &&& forall|i: int|
        0 <= i < pieces.len() ==> piece_output(pieces[i], data, #[trigger] outs[i])
}

/// The per-piece outputs, concatenated in order.
pub open spec fn concat_outputs(outs: Seq<Seq<char>>) -> Seq<char>
    decreases outs.len(),
{
    if outs.len() == 0 {
        Seq::empty()
    } else {
        concat_outputs(outs.drop_last()) + outs.last()
    }
}

/// What a caller of [`Render::render`] must grant: every callback held by
/// a formatter piece may be invoked on `data`.
pub open spec fn render_requires<T, F: Fn(&T) -> Option<String>>(
    pieces: Seq<PieceModel<F>>,
    data: &T,
) -> bool {
    forall|i: int|
        0 <= i < pieces.len() && #[trigger] pieces[i] is Fmt ==> call_requires(
            pieces[i]->Fmt_1,
            (data,),
        )
}

/// What rendering `pieces` against `data` may return.
///
/// - `Ok(out)`: the capacity guess `pieces.len() * 4` fits in `usize`, and
///   `out` is the concatenation, in order, of one output per piece as
///   [`rendered_as`] admits;
/// - `Err(Overflow)`: exactly when that capacity guess does not fit;
/// - `Err(NoData(key))`: a formatter piece bearing `key` had its callback
///   return `None` on `data`, and every piece before it had already
///   produced an output — rendering stops at the first failure;
/// - no other error is returned.
pub open spec fn render_ensures<T, F: Fn(&T) -> Option<String>>(
    pieces: Seq<PieceModel<F>>,
    data: &T,
    r: Result<String, Error>,
) -> bool {
    match r {
        Ok(out) => {
            &&& pieces.len() * 4 <= usize::MAX
            &&& exists|outs: Seq<Seq<char>>|
                rendered_as(pieces, data, outs) && out@ == concat_outputs(outs)
        },
        Err(e) => match e@ {
            ErrorModel::Overflow => pieces.len() * 4 > usize::MAX,
            ErrorModel::NoData(key) => {
                &&& pieces.len() * 4 <= usize::MAX
                &&& exists|i: int|
                    {
                        &&& 0 <= i < pieces.len()
                        &&& (#[trigger] pieces[i]) matches PieceModel::Fmt(k, cb) && k == key
                            && call_ensures(cb, (data,), None::<String>)
                        &&& exists|outs: Seq<Seq<char>>| rendered_as(pieces.take(i), data, outs)
                    }
            },
            _ => false,
        },
    }
}

/// Rendering a compiled template against a borrowed data value.
pub trait Render<T, F: Fn(&T) -> Option<String>> {
    /// The models of the pieces that rendering walks, in order.
    spec fn pieces(&self) -> Seq<PieceModel<F>>;

    /// Renders the pieces into a string: literal pieces contribute their
    /// character, formatter pieces the string their callback returns for
    /// `data`. Fails with [`Error::NoData`] at the first callback that
    /// returns `None`, and with [`Error::Overflow`] exactly when the
    /// capacity guess `pieces().len() * 4` does not fit in `usize`, as
    /// [`render_ensures`] lays down.
    fn render(&self, data: &T) -> (r: Result<String, Error>)
        requires
            render_requires(self.pieces(), data),
        ensures
            render_ensures(self.pieces(), data, r),
    ;
}

proof fn lemma_concat_outputs_push(outs: Seq<Seq<char>>, o: Seq<char>)
    ensures
        concat_outputs(outs.push(o)) == concat_outputs(outs) + o,
{
    assert(outs.push(o).drop_last() =~= outs);
    assert(outs.push(o).last() == o);
}

proof fn lemma_rendered_as_extend<T, F: Fn(&T) -> Option<String>>(
    pieces: Seq<PieceModel<F>>,
    data: &T,
    outs: Seq<Seq<char>>,
    i: int,
    o: Seq<char>,
)
    requires
        0 <= i < pieces.len(),
        outs.len() == i,
        rendered_as(pieces.take(i), data, outs),
        piece_output(pieces[i], data, o),
    ensures
        rendered_as(pieces.take(i + 1), data, outs.push(o)),
{
    let taken = pieces.take(i + 1);
    assert forall|j: int| 0 <= j < taken.len() implies piece_output(
        taken[j],
        data,
        #[trigger] outs.push(o)[j],
    ) by {
        if j < i {
            assert(outs.push(o)[j] == outs[j]);
            assert(pieces.take(i)[j] == taken[j]);
        } else {
            assert(outs.push(o)[j] == o);
            assert(taken[j] == pieces[i]);
        }
    }
}

/// For a [`FormatPieces`], the pieces that rendering walks are the models
/// of its elements. (Verus does not unfold a trait's spec function at a
/// callback-type instantiation by itself; this states the unfolding once,
/// for every `F`.)
pub proof fn lemma_pieces_are_models<T, F: Fn(&T) -> Option<String>>(ps: &FormatPieces<F>)
    ensures
        ps.pieces() == pieces_model(ps@),
{
}

impl<T, F: Fn(&T) -> Option<String>> Render<T, F> for FormatPieces<F> {
    open spec fn pieces(&self) -> Seq<PieceModel<F>> {
        pieces_model(self@)
    }

    fn render(&self, data: &T) -> (r: Result<String, Error>) {
        let cap: usize = match self.len().checked_mul(4) {
            Some(c) => c,
            None => {
                return Err(Error::Overflow);
            },
        };
        let mut out = String::with_capacity(cap);
        let ghost mut outs: Seq<Seq<char>> = Seq::empty();
        let mut idx: usize = 0;
        while idx < self.len()
            invariant
                idx <= self@.len(),
                self@.len() * 4 <= usize::MAX,
                outs.len() == idx,
                rendered_as(pieces_model(self@).take(idx as int), data, outs),
                out@ == concat_outputs(outs),
                render_requires(pieces_model(self@), data),
            decreases self@.len() - idx,
        {
            let piece = &self[idx];
            proof {
                assert(pieces_model(self@)[idx as int] == self@[idx as int]@);
            }
            match piece {
                FormatPiece::Char(c) => {
                    out.push(*c);
                    proof {
                        lemma_concat_outputs_push(outs, seq![*c]);
                        lemma_rendered_as_extend(
                            pieces_model(self@),
                            data,
                            outs,
                            idx as int,
                            seq![*c],
                        );
                        outs = outs.push(seq![*c]);
                    }
                },
                FormatPiece::Formatter(f) => {
                    proof {
                        assert(pieces_model(self@)[idx as int] is Fmt);
                    }
                    match (f.cb)(data) {
                        Some(s) => {
                            out.append(s.as_str());
                            proof {
                                assert(piece_output(
                                    pieces_model(self@)[idx as int],
                                    data,
                                    s@,
                                )) by {
                                    assert(s@ == s@ && call_ensures(f.cb, (data,), Some(s)));
                                }
                                lemma_concat_outputs_push(outs, s@);
                                lemma_rendered_as_extend(
                                    pieces_model(self@),
                                    data,
                                    outs,
                                    idx as int,
                                    s@,
                                );
                                outs = outs.push(s@);
                            }
                        },
                        None => {
                            return Err(Error::NoData(f.key.clone()));
                        },
                    }
                },
            }
            idx = idx + 1;
        }
        proof {
            assert(pieces_model(self@).take(self@.len() as int) =~= pieces_model(self@));
        }
        Ok(out)
    }
}

} // verus!
