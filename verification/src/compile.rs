use vstd::prelude::*;
use vstd::string::StrSliceExecFns;

use crate::error::Error;
use crate::error::ErrorModel;
use crate::map::FormatMap;
use crate::pieces::FormatPiece;
use crate::pieces::FormatPieces;
use crate::pieces::Formatter;
use crate::pieces::PieceModel;
use crate::pieces::pieces_model;

verus! {

/// Puts one piece in front of the pieces of `r`, or passes its error on.
pub open spec fn cons_piece<F>(
    p: PieceModel<F>,
    r: Result<Seq<PieceModel<F>>, ErrorModel>,
) -> Result<Seq<PieceModel<F>>, ErrorModel> {
    match r {
        Ok(ps) => Ok(seq![p] + ps),
        Err(e) => Err(e),
    }
}

/// What compiling `tmpl` against the mapping `m` yields, scanning left to
/// right with no placeholder open:
///
/// - `{{` and `}}` each collapse to one literal brace;
/// - `{` not followed by a second `{` opens a placeholder
///   ([`compile_key_spec`] takes over);
/// - `}` not followed by a second `}` is an unmatched close;
/// - any other character is a literal piece.
pub open spec fn compile_spec<F>(m: Map<Seq<char>, F>, tmpl: Seq<char>) -> Result<
    Seq<PieceModel<F>>,
    ErrorModel,
>
    decreases tmpl.len(),
{
    if tmpl.len() == 0 {
        Ok(Seq::empty())
    } else if tmpl[0] == '{' {
        if tmpl.len() >= 2 && tmpl[1] == '{' {
            cons_piece(PieceModel::Lit('{'), compile_spec(m, tmpl.skip(2)))
        } else {
            compile_key_spec(m, tmpl.skip(1), Seq::empty())
        }
    } else if tmpl[0] == '}' {
        if tmpl.len() >= 2 && tmpl[1] == '}' {
            cons_piece(PieceModel::Lit('}'), compile_spec(m, tmpl.skip(2)))
        } else {
            Err(ErrorModel::ImbalancedBrackets)
        }
    } else {
        cons_piece(PieceModel::Lit(tmpl[0]), compile_spec(m, tmpl.skip(1)))
    }
}

/// What compiling yields while a placeholder is open and `key` holds the
/// characters of its name read so far:
///
/// - a further `{` is malformed (placeholders do not nest);
/// - `}` closes the placeholder: a formatter piece if `key` is in the
///   mapping, an unknown-key error otherwise;
/// - any other character extends the key;
/// - end of input leaves the unterminated placeholder silently dropped.
pub open spec fn compile_key_spec<F>(
    m: Map<Seq<char>, F>,
    rest: Seq<char>,
    key: Seq<char>,
) -> Result<Seq<PieceModel<F>>, ErrorModel>
    decreases rest.len(),
{
    if rest.len() == 0 {
        Ok(Seq::empty())
    } else if rest[0] == '{' {
        Err(ErrorModel::ImbalancedBrackets)
    } else if rest[0] == '}' {
        if m.contains_key(key) {
            cons_piece(PieceModel::Fmt(key, m[key]), compile_spec(m, rest.skip(1)))
        } else {
            Err(ErrorModel::UnknownKey(key))
        }
    } else {
        compile_key_spec(m, rest.skip(1), key.push(rest[0]))
    }
}

/// How a compilation result `r` agrees with the model: the pieces of the
/// `Ok` case model [`compile_spec`]'s pieces exactly, and the error of the
/// `Err` case is exactly [`compile_spec`]'s error.
pub open spec fn compile_matches<F>(
    m: Map<Seq<char>, F>,
    tmpl: Seq<char>,
    r: Result<FormatPieces<F>, Error>,
) -> bool {
    match compile_spec(m, tmpl) {
        Ok(model) => r matches Ok(ps) && pieces_model(ps@) == model,
        Err(em) => r matches Err(e) && e@ == em,
    }
}

/// Compiling a template against a mapping of keys to callbacks.
pub trait ToFormatPieces<F>: Sized {
    /// The mapping that compilation consults, one lookup per placeholder.
    spec fn callbacks(&self) -> Map<Seq<char>, F>;

    /// Compiles the template `tmpl` into format pieces.
    ///
    /// A placeholder `{key}` becomes one formatter piece holding `key` and
    /// the callback registered for it; `{{` and `}}` become the literal
    /// braces; every other character becomes one literal piece. Fails with
    /// [`Error::ImbalancedBrackets`] on an unmatched brace and with
    /// [`Error::UnknownKey`] on a placeholder naming no registered key, as
    /// [`compile_spec`] lays down.
    fn to_format_pieces(&self, tmpl: &str) -> (r: Result<FormatPieces<F>, Error>)
        ensures
            compile_matches(self.callbacks(), tmpl@, r),
    ;
}

/// The characters of `tmpl`, in order.
fn str_chars(tmpl: &str) -> (r: Vec<char>)
    ensures
        r@ == tmpl@,
{
    let n: usize = tmpl.unicode_len();
    let mut v: Vec<char> = Vec::with_capacity(n);
    let mut i: usize = 0;
    while i < n
        invariant
            i <= n,
            n == tmpl@.len(),
            v@ == tmpl@.take(i as int),
        decreases n - i,
    {
        v.push(tmpl.get_char(i));
        proof {
            assert(tmpl@.take(i + 1 as int) =~= tmpl@.take(i as int).push(tmpl@[i as int]));
        }
        i = i + 1;
    }
    proof {
        assert(tmpl@.take(n as int) =~= tmpl@);
    }
    v
}

/// The characters `chars[from..to]`, collected into a string.
fn chars_to_string(chars: &Vec<char>, from: usize, to: usize) -> (r: String)
    requires
        from <= to <= chars@.len(),
    ensures
        r@ == chars@.subrange(from as int, to as int),
{
    let mut s = String::new();
    let mut i: usize = from;
    while i < to
        invariant
            from <= i <= to <= chars@.len(),
            s@ == chars@.subrange(from as int, i as int),
        decreases to - i,
    {
        s.push(chars[i]);
        proof {
            assert(chars@.subrange(from as int, i + 1 as int) =~= chars@.subrange(
                from as int,
                i as int,
            ).push(chars@[i as int]));
        }
        i = i + 1;
    }
    s
}

/// Puts a sequence of already-produced pieces in front of the result of
/// compiling what is left, or passes the error on.
spec fn prepend_pieces<F>(
    prefix: Seq<PieceModel<F>>,
    r: Result<Seq<PieceModel<F>>, ErrorModel>,
) -> Result<Seq<PieceModel<F>>, ErrorModel> {
    match r {
        Ok(ps) => Ok(prefix + ps),
        Err(e) => Err(e),
    }
}

proof fn lemma_prepend_cons<F>(
    prefix: Seq<PieceModel<F>>,
    p: PieceModel<F>,
    r: Result<Seq<PieceModel<F>>, ErrorModel>,
)
    ensures
        prepend_pieces(prefix, cons_piece(p, r)) == prepend_pieces(prefix.push(p), r),
{
    match r {
        Ok(ps) => {
            assert(prefix + (seq![p] + ps) =~= prefix.push(p) + ps);
        },
        Err(_) => {},
    }
}

proof fn lemma_pieces_model_push<F>(ps: Seq<FormatPiece<F>>, p: FormatPiece<F>)
    ensures
        pieces_model(ps.push(p)) == pieces_model(ps).push(p@),
{
    assert(pieces_model(ps.push(p)) =~= pieces_model(ps).push(p@));
}

/// For a [`FormatMap`], the mapping that compilation consults is the
/// map's own view. (Verus does not unfold a trait's spec function at a
/// callback-type instantiation by itself; this states the unfolding once,
/// for every `F`.)
pub proof fn lemma_callbacks_are_view<F: Copy>(m: &FormatMap<F>)
    ensures
        m.callbacks() == m@,
{
}

impl<F: Copy> ToFormatPieces<F> for FormatMap<F> {
    open spec fn callbacks(&self) -> Map<Seq<char>, F> {
        self@
    }

    fn to_format_pieces(&self, tmpl: &str) -> (r: Result<FormatPieces<F>, Error>) {
        let chars = str_chars(tmpl);
        let n: usize = chars.len();
        let mut out: FormatPieces<F> = Vec::with_capacity(n);
        let mut word_start: Option<usize> = None;
        let mut i: usize = 0;
        proof {
            assert(tmpl@.skip(0) =~= tmpl@);
            assert(pieces_model(out@) =~= Seq::<PieceModel<F>>::empty());
            assert(prepend_pieces(pieces_model(out@), compile_spec(self@, tmpl@)) == compile_spec(
                self@,
                tmpl@,
            )) by {
                match compile_spec(self@, tmpl@) {
                    Ok(ps) => {
                        assert(pieces_model(out@) + ps =~= ps);
                    },
                    Err(_) => {},
                }
            }
        }
        while i < n
            invariant
                i <= n,
                n == chars@.len(),
                chars@ == tmpl@,
                match word_start {
                    None => compile_spec(self@, tmpl@) == prepend_pieces(
                        pieces_model(out@),
                        compile_spec(self@, tmpl@.skip(i as int)),
                    ),
                    Some(ws) => 1 <= ws <= i && compile_spec(self@, tmpl@) == prepend_pieces(
                        pieces_model(out@),
                        compile_key_spec(
                            self@,
                            tmpl@.skip(i as int),
                            tmpl@.subrange(ws as int, i as int),
                        ),
                    ),
                },
            decreases n - i,
        {
            let c = chars[i];
            match word_start {
                None => {
                    let ghost rest = tmpl@.skip(i as int);
                    if c == '{' {
                        if i + 1 < n && chars[i + 1] == '{' {
                            proof {
                                assert(rest.skip(2) =~= tmpl@.skip(i + 2 as int));
                                lemma_prepend_cons(
                                    pieces_model(out@),
                                    PieceModel::Lit('{'),
                                    compile_spec(self@, tmpl@.skip(i + 2 as int)),
                                );
                                lemma_pieces_model_push(out@, FormatPiece::Char('{'));
                            }
                            out.push(FormatPiece::Char('{'));
                            i = i + 2;
                        } else {
                            proof {
                                assert(rest.skip(1) =~= tmpl@.skip(i + 1 as int));
                                assert(tmpl@.subrange(i + 1 as int, i + 1 as int)
                                    =~= Seq::<char>::empty());
                            }
                            word_start = Some(i + 1);
                            i = i + 1;
                        }
                    } else if c == '}' {
                        if i + 1 < n && chars[i + 1] == '}' {
                            proof {
                                assert(rest.skip(2) =~= tmpl@.skip(i + 2 as int));
                                lemma_prepend_cons(
                                    pieces_model(out@),
                                    PieceModel::Lit('}'),
                                    compile_spec(self@, tmpl@.skip(i + 2 as int)),
                                );
                                lemma_pieces_model_push(out@, FormatPiece::Char('}'));
                            }
                            out.push(FormatPiece::Char('}'));
                            i = i + 2;
                        } else {
                            return Err(Error::ImbalancedBrackets);
                        }
                    } else {
                        proof {
                            assert(rest.skip(1) =~= tmpl@.skip(i + 1 as int));
                            lemma_prepend_cons(
                                pieces_model(out@),
                                PieceModel::Lit(tmpl@[i as int]),
                                compile_spec(self@, tmpl@.skip(i + 1 as int)),
                            );
                            lemma_pieces_model_push(out@, FormatPiece::Char(c));
                        }
                        out.push(FormatPiece::Char(c));
                        i = i + 1;
                    }
                },
                Some(ws) => {
                    let ghost rest = tmpl@.skip(i as int);
                    let ghost key = tmpl@.subrange(ws as int, i as int);
                    if c == '{' {
                        return Err(Error::ImbalancedBrackets);
                    } else if c == '}' {
                        let word = chars_to_string(&chars, ws, i);
                        match self.get(&word) {
                            Some(f) => {
                                let piece = FormatPiece::Formatter(
                                    Formatter { key: word, cb: *f },
                                );
                                proof {
                                    assert(rest.skip(1) =~= tmpl@.skip(i + 1 as int));
                                    lemma_prepend_cons(
                                        pieces_model(out@),
                                        PieceModel::Fmt(key, self@[key]),
                                        compile_spec(self@, tmpl@.skip(i + 1 as int)),
                                    );
                                    lemma_pieces_model_push(out@, piece);
                                }
                                out.push(piece);
                            },
                            None => {
                                return Err(Error::UnknownKey(word));
                            },
                        }
                        word_start = None;
                        i = i + 1;
                    } else {
                        proof {
                            assert(rest.skip(1) =~= tmpl@.skip(i + 1 as int));
                            assert(key.push(tmpl@[i as int]) =~= tmpl@.subrange(
                                ws as int,
                                i + 1 as int,
                            ));
                        }
                        i = i + 1;
                    }
                },
            }
        }
        proof {
            assert(tmpl@.skip(n as int) =~= Seq::<char>::empty());
            match word_start {
                None => {
                    assert(compile_spec(self@, tmpl@) == prepend_pieces(
                        pieces_model(out@),
                        Ok(Seq::<PieceModel<F>>::empty()),
                    ));
                },
                Some(_) => {},
            }
            assert(pieces_model(out@) + Seq::<PieceModel<F>>::empty() =~= pieces_model(out@));
        }
        Ok(out)
    }
}

} // verus!
