//! The preprocessor: textual variable substitution over a token sequence.
//!
//! A single forward pass replaces every identifier that begins with the
//! `$` sigil and has a matching definition by splicing the definition's
//! token run in at that position. Identifiers without a match pass
//! through unchanged; nothing is re-expanded.

use vstd::prelude::*;

use crate::lex::{toks_model, Token, TokenModel};

verus! {

/// Variable definitions: names (with their `$` sigil) paired with the
/// token runs that replace them. The first entry with a given name wins.
pub type Variables = Vec<(String, Vec<Token>)>;

/// The definition of `name` among `vars`: the first entry with that name.
pub open spec fn lookup_spec(vars: Seq<(String, Vec<Token>)>, name: Seq<char>) -> Option<
    Seq<TokenModel>,
>
    decreases vars.len(),
{
    if vars.len() == 0 {
        None
    } else if vars[0].0@ == name {
        Some(toks_model(vars[0].1@))
    } else {
        lookup_spec(vars.drop_first(), name)
    }
}

/// What one token contributes to the substituted sequence: its definition
/// when it is a defined `$`-identifier, otherwise the token itself.
pub open spec fn subst_one(vars: Seq<(String, Vec<Token>)>, t: TokenModel) -> Seq<TokenModel> {
    match t {
        TokenModel::Identifier(n) => {
            if n.len() > 0 && n[0] == '$' && lookup_spec(vars, n) is Some {
                lookup_spec(vars, n)->Some_0
            } else {
                seq![t]
            }
        },
        _ => seq![t],
    }
}

/// The substituted form of a whole token sequence, in order.
pub open spec fn subst(vars: Seq<(String, Vec<Token>)>, toks: Seq<TokenModel>) -> Seq<TokenModel>
    decreases toks.len(),
{
    if toks.len() == 0 {
        Seq::empty()
    } else {
        subst(vars, toks.drop_last()) + subst_one(vars, toks.last())
    }
}

/// Law: a defined `$`-identifier alone is replaced by its definition.
pub proof fn lemma_subst_defined(vars: Seq<(String, Vec<Token>)>, n: Seq<char>)
    requires
        n.len() > 0,
        n[0] == '$',
        lookup_spec(vars, n) is Some,
    ensures
        subst(vars, seq![TokenModel::Identifier(n)]) == lookup_spec(vars, n)->Some_0,
{
    let t = TokenModel::Identifier(n);
    assert(seq![t].drop_last() =~= Seq::<TokenModel>::empty());
    assert(seq![t].last() == t);
    assert(subst(vars, Seq::<TokenModel>::empty()) == Seq::<TokenModel>::empty());
    assert(Seq::<TokenModel>::empty() + subst_one(vars, t) =~= subst_one(vars, t));
}

/// Law: a token without a matching definition passes through unchanged.
pub proof fn lemma_subst_unmatched(vars: Seq<(String, Vec<Token>)>, t: TokenModel)
    requires
        match t {
            TokenModel::Identifier(n) => !(n.len() > 0 && n[0] == '$' && lookup_spec(vars, n)
                is Some),
            _ => true,
        },
    ensures
        subst(vars, seq![t]) == seq![t],
{
    assert(seq![t].drop_last() =~= Seq::<TokenModel>::empty());
    assert(seq![t].last() == t);
    assert(subst(vars, Seq::<TokenModel>::empty()) == Seq::<TokenModel>::empty());
    assert(Seq::<TokenModel>::empty() + seq![t] =~= seq![t]);
}

/// The first definition of `name`, when there is one.
fn lookup<'a>(vars: &'a Variables, name: &String) -> (r: Option<&'a Vec<Token>>)
    ensures
        match lookup_spec(vars@, name@) {
            Some(ts) => r is Some && toks_model(r->0@) == ts,
            None => r is None,
        },
{
    let mut i: usize = 0;
    proof {
        assert(vars@.skip(0) =~= vars@);
    }
    while i < vars.len()
        invariant
            0 <= i <= vars@.len(),
            lookup_spec(vars@, name@) == lookup_spec(vars@.skip(i as int), name@),
        decreases vars@.len() - i,
    {
        proof {
            assert(vars@.skip(i as int)[0] == vars@[i as int]);
            assert(vars@.skip(i as int).drop_first() =~= vars@.skip(i + 1));
        }
        if vars[i].0 == *name {
            return Some(&vars[i].1);
        }
        i += 1;
    }
    proof {
        assert(vars@.skip(vars@.len() as int) =~= Seq::<(String, Vec<Token>)>::empty());
    }
    None
}

/// Substitutes every defined `$`-identifier of `toks`, exactly as
/// [`subst`] describes: definitions are spliced in place, order kept,
/// everything else untouched, with no re-expansion.
pub fn process(var: &Variables, toks: Vec<Token>) -> (r: Vec<Token>)
    ensures
        toks_model(r@) == subst(var@, toks_model(toks@)),
{
    let mut out: Vec<Token> = Vec::new();
    let mut i: usize = 0;
    proof {
        assert(toks_model(toks@.take(0)) =~= Seq::<TokenModel>::empty());
        assert(toks_model(out@) =~= Seq::<TokenModel>::empty());
    }
    while i < toks.len()
        invariant
            0 <= i <= toks@.len(),
            toks_model(out@) == subst(var@, toks_model(toks@.take(i as int))),
        decreases toks@.len() - i,
    {
        let ghost pre_model = toks_model(toks@.take(i as int));
        let ghost t_model = toks@[i as int]@;
        proof {
            assert(toks_model(toks@.take(i + 1)).drop_last() =~= pre_model);
            assert(toks_model(toks@.take(i + 1)).last() == t_model);
            assert(toks_model(toks@.take(i + 1)).len() > 0);
        }
        let tok = &toks[i];
        let mut spliced = false;
        match tok {
            Token::Identifier(n) => {
                if n.unicode_len() > 0 && n.as_str().get_char(0) == '$' {
                    match lookup(var, n) {
                        Some(def) => {
                            let ghost out_before = toks_model(out@);
                            let mut j: usize = 0;
                            proof {
                                assert(toks_model(def@.take(0)) =~= Seq::<TokenModel>::empty());
                                assert(out_before + toks_model(def@.take(0)) =~= out_before);
                            }
                            while j < def.len()
                                invariant
                                    0 <= j <= def@.len(),
                                    toks_model(out@) == out_before + toks_model(
                                        def@.take(j as int),
                                    ),
                                decreases def@.len() - j,
                            {
                                out.push(def[j].duplicate());
                                proof {
                                    assert(toks_model(def@.take(j + 1)).drop_last() =~= toks_model(
                                        def@.take(j as int),
                                    ));
                                    assert(toks_model(def@.take(j + 1)).last() == def@[j as int]@);
                                    assert(out_before + toks_model(def@.take(j + 1)) =~= (out_before
                                        + toks_model(def@.take(j as int))).push(def@[j as int]@));
                                }
                                j += 1;
                            }
                            proof {
                                assert(def@.take(def@.len() as int) =~= def@);
                            }
                            spliced = true;
                        }
                        None => {}
                    }
                }
            }
            _ => {}
        }
        if !spliced {
            out.push(toks[i].duplicate());
            proof {
                assert(subst_one(var@, t_model) =~= seq![t_model]);
            }
        }
        proof {
            assert(toks_model(out@) =~= subst(var@, pre_model) + subst_one(var@, t_model));
        }
        i += 1;
    }
    proof {
        assert(toks@.take(toks@.len() as int) =~= toks@);
    }
    out
}

} // verus!
