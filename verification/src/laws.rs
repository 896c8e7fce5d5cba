use vstd::prelude::*;

use crate::compile::compile_key_spec;
use crate::compile::compile_spec;
use crate::compile::cons_piece;
use crate::error::Error;
use crate::error::ErrorModel;
use crate::pieces::PieceModel;
use crate::render::concat_outputs;
use crate::render::piece_output;
use crate::render::render_ensures;
use crate::render::rendered_as;

verus! {

/// The literal piece for one character.
pub open spec fn lit_piece<F>(c: char) -> PieceModel<F> {
    PieceModel::Lit(c)
}

/// One literal piece per character of `chars`, in order.
pub open spec fn all_literals<F>(chars: Seq<char>) -> Seq<PieceModel<F>> {
    chars.map_values(|c: char| lit_piece::<F>(c))
}

/// A template made solely of escaped pairs: even length, and each pair is
/// `{{` or `}}`.
pub open spec fn escaped_pairs_only(tmpl: Seq<char>) -> bool {
    &&& tmpl.len() % 2 == 0
    &&& forall|i: int|
        0 <= i < tmpl.len() && i % 2 == 0 ==> (((#[trigger] tmpl[i]) == '{' || tmpl[i] == '}')
            && tmpl[i + 1] == tmpl[i])
}

/// Each escaped pair collapsed to its single brace: the characters at the
/// even positions of `tmpl`.
pub open spec fn unescaped(tmpl: Seq<char>) -> Seq<char> {
    Seq::new((tmpl.len() / 2) as nat, |i: int| tmpl[2 * i])
}

/// A sequence of literal pieces can only render to its own characters:
/// whatever per-piece outputs [`rendered_as`] admits for them concatenate
/// to `chars` itself.
pub proof fn lemma_literals_render_to_themselves<T, F: Fn(&T) -> Option<String>>(
    chars: Seq<char>,
    data: &T,
)
    ensures
        forall|outs: Seq<Seq<char>>|
            rendered_as(all_literals::<F>(chars), data, outs) ==> concat_outputs(outs) == chars,
{
    assert forall|outs: Seq<Seq<char>>|
        rendered_as(all_literals::<F>(chars), data, outs) implies concat_outputs(outs)
        == chars by {
        assert(all_literals::<F>(chars).len() == chars.len());
        assert forall|i: int| 0 <= i < outs.len() implies #[trigger] outs[i]
            == seq![chars[i]] by {
            assert(piece_output(all_literals::<F>(chars)[i], data, outs[i]));
            assert(all_literals::<F>(chars)[i] == lit_piece::<F>(chars[i]));
        }
        lemma_concat_of_singletons(chars, outs);
    }
}

proof fn lemma_concat_of_singletons(chars: Seq<char>, outs: Seq<Seq<char>>)
    requires
        outs.len() == chars.len(),
        forall|i: int| 0 <= i < outs.len() ==> #[trigger] outs[i] == seq![chars[i]],
    ensures
        concat_outputs(outs) == chars,
    decreases outs.len(),
{
    if outs.len() == 0 {
        assert(concat_outputs(outs) =~= chars);
    } else {
        lemma_concat_of_singletons(chars.drop_last(), outs.drop_last());
        assert(outs.last() == seq![chars.last()]);
        assert(chars.drop_last() + seq![chars.last()] =~= chars);
    }
}

/// Identity: a template with no brace characters compiles, whatever the
/// mapping, to one literal piece per character, and every rendering of
/// those pieces yields the template unchanged, whatever the data.
pub proof fn lemma_brace_free_identity<T, F: Fn(&T) -> Option<String>>(
    m: Map<Seq<char>, F>,
    tmpl: Seq<char>,
    data: &T,
)
    requires
        forall|i: int| 0 <= i < tmpl.len() ==> (#[trigger] tmpl[i]) != '{' && tmpl[i] != '}',
    ensures
        compile_spec(m, tmpl) == Ok::<Seq<PieceModel<F>>, ErrorModel>(all_literals::<F>(tmpl)),
        forall|outs: Seq<Seq<char>>|
            rendered_as(all_literals::<F>(tmpl), data, outs) ==> concat_outputs(outs) == tmpl,
    decreases tmpl.len(),
{
    if tmpl.len() == 0 {
        assert(all_literals::<F>(tmpl) =~= Seq::<PieceModel<F>>::empty());
    } else {
        assert forall|i: int|
            0 <= i < tmpl.skip(1).len() implies (#[trigger] tmpl.skip(1)[i]) != '{'
            && tmpl.skip(1)[i] != '}' by {
            assert(tmpl.skip(1)[i] == tmpl[i + 1]);
        }
        lemma_brace_free_identity::<T, F>(m, tmpl.skip(1), data);
        assert(compile_spec(m, tmpl) == cons_piece(
            lit_piece::<F>(tmpl[0]),
            compile_spec(m, tmpl.skip(1)),
        ));
        assert(seq![lit_piece::<F>(tmpl[0])] + all_literals::<F>(tmpl.skip(1))
            =~= all_literals::<F>(tmpl)) by {
            assert forall|i: int| 0 <= i < tmpl.len() implies (seq![lit_piece::<F>(tmpl[0])]
                + all_literals::<F>(tmpl.skip(1)))[i] == all_literals::<F>(tmpl)[i] by {
                assert(all_literals::<F>(tmpl)[i] == lit_piece::<F>(tmpl[i]));
                if i > 0 {
                    assert(all_literals::<F>(tmpl.skip(1))[i - 1] == lit_piece::<F>(
                        tmpl.skip(1)[i - 1],
                    ));
                    assert(tmpl.skip(1)[i - 1] == tmpl[i]);
                }
            }
        }
    }
    lemma_literals_render_to_themselves::<T, F>(tmpl, data);
}

/// Escapes: a template made solely of escaped pairs compiles, whatever the
/// mapping, to one literal brace per pair, and every rendering of those
/// pieces yields the template with each pair collapsed, whatever the data.
pub proof fn lemma_escaped_pairs_collapse<T, F: Fn(&T) -> Option<String>>(
    m: Map<Seq<char>, F>,
    tmpl: Seq<char>,
    data: &T,
)
    requires
        escaped_pairs_only(tmpl),
    ensures
        compile_spec(m, tmpl) == Ok::<Seq<PieceModel<F>>, ErrorModel>(
            all_literals::<F>(unescaped(tmpl)),
        ),
        forall|outs: Seq<Seq<char>>|
            rendered_as(all_literals::<F>(unescaped(tmpl)), data, outs) ==> concat_outputs(outs)
                == unescaped(tmpl),
    decreases tmpl.len(),
{
    if tmpl.len() == 0 {
        assert(all_literals::<F>(unescaped(tmpl)) =~= Seq::<PieceModel<F>>::empty());
    } else {
        assert(tmpl[0] == '{' || tmpl[0] == '}');
        assert(tmpl[1] == tmpl[0]);
        assert(escaped_pairs_only(tmpl.skip(2))) by {
            assert forall|i: int|
                0 <= i < tmpl.skip(2).len() && i % 2 == 0 implies (((#[trigger] tmpl.skip(2)[i])
                == '{' || tmpl.skip(2)[i] == '}') && tmpl.skip(2)[i + 1] == tmpl.skip(2)[i]) by {
                assert(tmpl.skip(2)[i] == tmpl[i + 2]);
                assert(tmpl.skip(2)[i + 1] == tmpl[i + 3]);
                assert((i + 2) % 2 == 0);
            }
        }
        lemma_escaped_pairs_collapse::<T, F>(m, tmpl.skip(2), data);
        assert(compile_spec(m, tmpl) == cons_piece(
            lit_piece::<F>(tmpl[0]),
            compile_spec(m, tmpl.skip(2)),
        ));
        assert(seq![lit_piece::<F>(tmpl[0])] + all_literals::<F>(unescaped(tmpl.skip(2)))
            =~= all_literals::<F>(unescaped(tmpl))) by {
            assert(unescaped(tmpl).len() == tmpl.len() / 2);
            assert(unescaped(tmpl.skip(2)).len() == (tmpl.len() - 2) / 2);
            assert forall|i: int| 0 <= i < unescaped(tmpl).len() implies (
            seq![lit_piece::<F>(tmpl[0])] + all_literals::<F>(unescaped(tmpl.skip(2))))[i]
                == all_literals::<F>(unescaped(tmpl))[i] by {
                assert(all_literals::<F>(unescaped(tmpl))[i] == lit_piece::<F>(
                    unescaped(tmpl)[i],
                ));
                assert(unescaped(tmpl)[i] == tmpl[2 * i]);
                if i > 0 {
                    assert(all_literals::<F>(unescaped(tmpl.skip(2)))[i - 1] == lit_piece::<F>(
                        unescaped(tmpl.skip(2))[i - 1],
                    ));
                    assert(unescaped(tmpl.skip(2))[i - 1] == tmpl.skip(2)[2 * (i - 1)]);
                    assert(tmpl.skip(2)[2 * (i - 1)] == tmpl[2 * i]);
                }
            }
        }
    }
    lemma_literals_render_to_themselves::<T, F>(unescaped(tmpl), data);
}

/// Every formatter piece of `ps` bears a key present in `m`, holding the
/// very callback registered under that key.
pub open spec fn formatters_registered<F>(ps: Seq<PieceModel<F>>, m: Map<Seq<char>, F>) -> bool {
    forall|i: int|
        0 <= i < ps.len() && (#[trigger] ps[i]) is Fmt ==> m.contains_key(ps[i]->Fmt_0)
            && ps[i]->Fmt_1 == m[ps[i]->Fmt_0]
}

/// Compiled pieces are an artifact of the template and the mapping alone:
/// there are at most as many pieces as template characters, and each
/// formatter piece holds a key of the mapping with the callback that was
/// registered under it.
pub proof fn lemma_compile_bounds_and_keys<F>(m: Map<Seq<char>, F>, tmpl: Seq<char>)
    ensures
        compile_spec(m, tmpl) matches Ok(ps) ==> ps.len() <= tmpl.len() && formatters_registered(
            ps,
            m,
        ),
    decreases tmpl.len(),
{
    if tmpl.len() == 0 {
    } else if tmpl[0] == '{' {
        if tmpl.len() >= 2 && tmpl[1] == '{' {
            lemma_compile_bounds_and_keys(m, tmpl.skip(2));
            lemma_cons_keeps_bounds_and_keys(m, lit_piece::<F>('{'), compile_spec(m, tmpl.skip(2)));
        } else {
            lemma_compile_key_bounds_and_keys(m, tmpl.skip(1), Seq::empty());
        }
    } else if tmpl[0] == '}' {
        if tmpl.len() >= 2 && tmpl[1] == '}' {
            lemma_compile_bounds_and_keys(m, tmpl.skip(2));
            lemma_cons_keeps_bounds_and_keys(m, lit_piece::<F>('}'), compile_spec(m, tmpl.skip(2)));
        }
    } else {
        lemma_compile_bounds_and_keys(m, tmpl.skip(1));
        lemma_cons_keeps_bounds_and_keys(
            m,
            lit_piece::<F>(tmpl[0]),
            compile_spec(m, tmpl.skip(1)),
        );
    }
}

proof fn lemma_compile_key_bounds_and_keys<F>(m: Map<Seq<char>, F>, rest: Seq<char>, key: Seq<char>)
    ensures
        compile_key_spec(m, rest, key) matches Ok(ps) ==> ps.len() <= rest.len()
            && formatters_registered(ps, m),
    decreases rest.len(),
{
    if rest.len() == 0 {
    } else if rest[0] == '{' {
    } else if rest[0] == '}' {
        if m.contains_key(key) {
            lemma_compile_bounds_and_keys(m, rest.skip(1));
            lemma_cons_keeps_bounds_and_keys(m, PieceModel::Fmt(key, m[key]), compile_spec(
                m,
                rest.skip(1),
            ));
        }
    } else {
        lemma_compile_key_bounds_and_keys(m, rest.skip(1), key.push(rest[0]));
    }
}

proof fn lemma_cons_keeps_bounds_and_keys<F>(
    m: Map<Seq<char>, F>,
    p: PieceModel<F>,
    r: Result<Seq<PieceModel<F>>, ErrorModel>,
)
    requires
        p is Fmt ==> m.contains_key(p->Fmt_0) && p->Fmt_1 == m[p->Fmt_0],
        r matches Ok(ps) ==> formatters_registered(ps, m),
    ensures
        cons_piece(p, r) matches Ok(ps2) ==> ps2.len() == 1 + r->Ok_0.len()
            && formatters_registered(ps2, m),
{
    match r {
        Ok(ps) => {
            let ps2 = seq![p] + ps;
            assert forall|i: int|
                0 <= i < ps2.len() && (#[trigger] ps2[i]) is Fmt implies m.contains_key(
                ps2[i]->Fmt_0,
            ) && ps2[i]->Fmt_1 == m[ps2[i]->Fmt_0] by {
                if i > 0 {
                    assert(ps2[i] == ps[i - 1]);
                }
            }
        },
        Err(_) => {},
    }
}

/// Totality: when the capacity guess fits and every formatter piece's
/// callback can only return `Some` on `data`, rendering cannot fail, and
/// its output is the concatenation of per-piece outputs in order.
pub proof fn lemma_total_callbacks_render_ok<T, F: Fn(&T) -> Option<String>>(
    pieces: Seq<PieceModel<F>>,
    data: &T,
    r: Result<String, Error>,
)
    requires
        render_ensures(pieces, data, r),
        pieces.len() * 4 <= usize::MAX,
        forall|i: int, o: Option<String>|
            0 <= i < pieces.len() && pieces[i] is Fmt && #[trigger] call_ensures(
                pieces[i]->Fmt_1,
                (data,),
                o,
            ) ==> o is Some,
    ensures
        r is Ok,
        exists|outs: Seq<Seq<char>>|
            rendered_as(pieces, data, outs) && r->Ok_0@ == concat_outputs(outs),
{
}

/// Repeatability: when every formatter piece's callback is deterministic
/// on `data` — its postcondition admits a single result — any two
/// successful renderings of the same pieces against the same data produce
/// the same output, however often or in whatever order they are made.
pub proof fn lemma_render_deterministic<T, F: Fn(&T) -> Option<String>>(
    pieces: Seq<PieceModel<F>>,
    data: &T,
    r1: Result<String, Error>,
    r2: Result<String, Error>,
)
    requires
        render_ensures(pieces, data, r1),
        render_ensures(pieces, data, r2),
        r1 is Ok,
        r2 is Ok,
        forall|i: int, o1: Option<String>, o2: Option<String>|
            #![trigger call_ensures(pieces[i]->Fmt_1, (data,), o1), call_ensures(pieces[i]->Fmt_1, (data,), o2)]
            0 <= i < pieces.len() && pieces[i] is Fmt && call_ensures(pieces[i]->Fmt_1, (data,), o1)
                && call_ensures(pieces[i]->Fmt_1, (data,), o2) ==> o1 == o2,
    ensures
        r1->Ok_0@ == r2->Ok_0@,
{
    let outs1 = choose|outs: Seq<Seq<char>>|
        rendered_as(pieces, data, outs) && r1->Ok_0@ == concat_outputs(outs);
    let outs2 = choose|outs: Seq<Seq<char>>|
        rendered_as(pieces, data, outs) && r2->Ok_0@ == concat_outputs(outs);
    assert forall|i: int| 0 <= i < pieces.len() implies outs1[i] == outs2[i] by {
        assert(piece_output(pieces[i], data, outs1[i]));
        assert(piece_output(pieces[i], data, outs2[i]));
        match pieces[i] {
            PieceModel::Lit(_) => {},
            PieceModel::Fmt(_, cb) => {
                let s1 = choose|s: String| s@ == outs1[i] && call_ensures(cb, (data,), Some(s));
                let s2 = choose|s: String| s@ == outs2[i] && call_ensures(cb, (data,), Some(s));
                assert(Some(s1) == Some(s2));
            },
        }
    }
    assert(outs1 =~= outs2);
}

} // verus!
