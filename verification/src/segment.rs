//! The cutting of a run of tokens into its top-level forms.

use vstd::prelude::*;
use crate::token::{Atom, Expression, Token};

verus! {

/// The nesting depth behind an atom, given the depth in front of it.
pub open spec fn depth_behind(depth: int, atom: Atom) -> int {
    match atom {
        Atom::Open => depth + 1,
        Atom::Close => depth - 1,
        Atom::Word(_) => depth,
    }
}

/// The forms that are completed in `atoms[at..]`, where `atoms[start..at]`
/// has been gathered for the next form and the depth in front of `at` is
/// `depth`. A closing marker met at depth one completes a form, which then
/// holds everything gathered up to and including that marker.
pub open spec fn forms_from(atoms: Seq<Atom>, start: int, at: int, depth: int) -> Seq<Seq<Atom>>
    decreases atoms.len() - at,
{
    if at < 0 || at >= atoms.len() {
        Seq::empty()
    } else if atoms[at] is Close && depth == 1 {
        seq![atoms.subrange(start, at + 1)] + forms_from(atoms, at + 1, at + 1, 0)
    } else {
        forms_from(atoms, start, at + 1, depth_behind(depth, atoms[at]))
    }
}

/// The top-level forms of a run of atoms, in order. Atoms behind the last
/// completed form belong to none.
pub open spec fn forms_of(atoms: Seq<Atom>) -> Seq<Seq<Atom>> {
    forms_from(atoms, 0, 0, 0)
}

/// Splits a run of tokens into its top-level forms, each with its own
/// enclosing markers.
pub fn subdivide_expression(expression: Expression) -> (forms: Vec<Expression>)
    ensures
        forms.deep_view() == forms_of(expression.deep_view()),
{
    let ghost atoms = expression.deep_view();
    let ghost tokens = expression@;
    assert(tokens.len() == expression.len());
    let mut forms: Vec<Expression> = Vec::new();
    let mut current: Expression = Vec::new();
    let mut depth: i128 = 0;
    let ghost mut start: int = 0;
    assert(current.deep_view() =~= atoms.subrange(0, 0));
    assert(forms.deep_view() + forms_of(atoms) =~= forms_of(atoms));
    for token in it: expression
        invariant
            it.seq() == tokens,
            atoms.len() == tokens.len(),
            tokens.len() <= usize::MAX,
            forall|k: int| 0 <= k < tokens.len() ==> atoms[k] == (#[trigger] tokens[k]).deep_view(),
            -it.index() <= depth <= it.index(),
            0 <= start <= it.index(),
            current.deep_view() == atoms.subrange(start, it.index() as int),
            forms.deep_view() + forms_from(atoms, start, it.index() as int, depth as int)
                == forms_of(atoms),
    {
        let ghost at = it.index() as int;
        let ghost gathered = current.deep_view();
        let ghost done = forms.deep_view();
        let ghost rest = forms_from(atoms, start, at, depth as int);
        assert(atoms[at] == token.deep_view());
        let closes = match token {
            Token::CloseParen => true,
            _ => false,
        };
        let opens = match token {
            Token::OpenParen => true,
            _ => false,
        };
        current.push(token);
        assert(current.deep_view() =~= atoms.subrange(start, at + 1)) by {
            assert(current.deep_view() =~= gathered.push(atoms[at]));
        }
        if closes {
            if depth == 1 {
                forms.push(current);
                current = Vec::new();
                proof {
                    let form = atoms.subrange(start, at + 1);
                    assert(forms.deep_view() =~= done.push(form));
                    assert(rest == seq![form] + forms_from(atoms, at + 1, at + 1, 0));
                    assert(done.push(form) + forms_from(atoms, at + 1, at + 1, 0) =~= done + rest);
                    start = at + 1;
                    assert(current.deep_view() =~= atoms.subrange(start, at + 1));
                }
            }
            depth = depth - 1;
        } else if opens {
            depth = depth + 1;
        }
    }
    assert(forms.deep_view() + Seq::<Seq<Atom>>::empty() =~= forms.deep_view());
    forms
}

/// How many opening markers a run of atoms holds.
pub open spec fn count_open(atoms: Seq<Atom>) -> nat
    decreases atoms.len(),
{
    if atoms.len() == 0 {
        0
    } else {
        count_open(atoms.drop_last()) + if atoms.last() is Open {
            1nat
        } else {
            0nat
        }
    }
}

/// How many closing markers a run of atoms holds.
pub open spec fn count_close(atoms: Seq<Atom>) -> nat
    decreases atoms.len(),
{
    if atoms.len() == 0 {
        0
    } else {
        count_close(atoms.drop_last()) + if atoms.last() is Close {
            1nat
        } else {
            0nat
        }
    }
}

/// The depth behind a run of atoms that starts at depth zero.
pub open spec fn net_depth(atoms: Seq<Atom>) -> int {
    count_open(atoms) - count_close(atoms)
}

/// A run of atoms is balanced when it opens as often as it closes.
pub open spec fn is_balanced(atoms: Seq<Atom>) -> bool {
    count_open(atoms) == count_close(atoms)
}

/// Whether the tokens hold as many opening as closing markers. The tokens
/// are given up by the call; `markers_balance` asks the same of tokens that
/// the caller goes on to use.
pub fn check_token_vec_healthy(tokens: Vec<Token>) -> (healthy: bool)
    ensures
        healthy == is_balanced(tokens.deep_view()),
{
    markers_balance(&tokens)
}

/// Whether the tokens hold as many opening as closing markers.
pub fn markers_balance(tokens: &Expression) -> (healthy: bool)
    ensures
        healthy == is_balanced(tokens.deep_view()),
{
    let ghost atoms = tokens.deep_view();
    let mut opened: usize = 0;
    let mut closed: usize = 0;
    let mut at: usize = 0;
    assert(atoms.take(0) =~= Seq::<Atom>::empty());
    while at < tokens.len()
        invariant
            at <= tokens.len(),
            atoms == tokens.deep_view(),
            opened == count_open(atoms.take(at as int)),
            closed == count_close(atoms.take(at as int)),
            opened <= at,
            closed <= at,
        decreases tokens.len() - at,
    {
        proof {
            assert(atoms.take(at + 1).drop_last() =~= atoms.take(at as int));
            assert(atoms.take(at + 1).last() == tokens@[at as int].deep_view());
        }
        match &tokens[at] {
            Token::OpenParen => {
                opened = opened + 1;
            },
            Token::CloseParen => {
                closed = closed + 1;
            },
            Token::Word(_) => {},
        }
        at = at + 1;
    }
    assert(atoms.take(at as int) =~= atoms);
    opened == closed
}

/// One top-level form: it opens with a marker, and its depth returns to
/// zero at its last atom and nowhere before.
pub open spec fn is_single_form(form: Seq<Atom>) -> bool {
    &&& form.len() >= 2
    &&& form[0] is Open
    &&& is_balanced(form)
    &&& forall|k: int| 0 < k < form.len() ==> net_depth(#[trigger] form.take(k)) > 0
}

/// The forms written one behind the other.
pub open spec fn joined(forms: Seq<Seq<Atom>>) -> Seq<Atom>
    decreases forms.len(),
{
    if forms.len() == 0 {
        Seq::empty()
    } else {
        forms[0] + joined(forms.drop_first())
    }
}

proof fn lemma_net_depth_step(atoms: Seq<Atom>, count: int)
    requires
        0 <= count < atoms.len(),
    ensures
        net_depth(atoms.take(count + 1)) == depth_behind(
            net_depth(atoms.take(count)),
            atoms[count],
        ),
{
    assert(atoms.take(count + 1).drop_last() =~= atoms.take(count));
    assert(atoms.take(count + 1).last() == atoms[count]);
}

proof fn lemma_scan_single_form(atoms: Seq<Atom>, start: int, form: Seq<Atom>, seen: int)
    requires
        is_single_form(form),
        0 <= start,
        start + form.len() <= atoms.len(),
        atoms.subrange(start, start + form.len()) == form,
        0 <= seen < form.len(),
    ensures
        forms_from(atoms, start, start + seen, net_depth(form.take(seen))) == seq![form]
            + forms_from(atoms, start + form.len(), start + form.len(), 0),
    decreases form.len() - seen,
{
    let last = form.len() - 1;
    assert(atoms[start + seen] == form[seen]) by {
        assert(atoms.subrange(start, start + form.len())[seen] == atoms[start + seen]);
    }
    lemma_net_depth_step(form, seen);
    if seen == last {
        assert(form.take(seen + 1) =~= form);
        if seen == 0 {
            assert(form.take(0) =~= Seq::<Atom>::empty());
        }
    } else {
        assert(net_depth(form.take(seen + 1)) > 0);
        if seen == 0 {
            assert(form.take(0) =~= Seq::<Atom>::empty());
        }
        lemma_scan_single_form(atoms, start, form, seen + 1);
    }
}

proof fn lemma_forms_from_joined(atoms: Seq<Atom>, start: int, forms: Seq<Seq<Atom>>)
    requires
        forall|i: int| 0 <= i < forms.len() ==> is_single_form(#[trigger] forms[i]),
        0 <= start <= atoms.len(),
        atoms.subrange(start, atoms.len() as int) == joined(forms),
    ensures
        forms_from(atoms, start, start, 0) == forms,
    decreases forms.len(),
{
    if forms.len() == 0 {
        assert(atoms.subrange(start, atoms.len() as int).len() == 0);
        assert(forms_from(atoms, start, start, 0) =~= forms);
    } else {
        let form = forms[0];
        let rest = forms.drop_first();
        let behind = start + form.len();
        assert(joined(forms) == form + joined(rest));
        assert(atoms.subrange(start, atoms.len() as int).len() == form.len() + joined(rest).len());
        assert(atoms.subrange(start, behind) =~= form) by {
            assert forall|k: int| 0 <= k < form.len() implies atoms.subrange(start, behind)[k]
                == form[k] by {
                assert(atoms.subrange(start, atoms.len() as int)[k] == (form + joined(rest))[k]);
            }
        }
        assert(atoms.subrange(behind, atoms.len() as int) =~= joined(rest)) by {
            assert forall|k: int| 0 <= k < joined(rest).len() implies atoms.subrange(
                behind,
                atoms.len() as int,
            )[k] == joined(rest)[k] by {
                assert(atoms.subrange(start, atoms.len() as int)[form.len() + k] == (form + joined(
                    rest,
                ))[form.len() + k]);
            }
        }
        assert(form.take(0) =~= Seq::<Atom>::empty());
        lemma_scan_single_form(atoms, start, form, 0);
        assert forall|i: int| 0 <= i < rest.len() implies is_single_form(#[trigger] rest[i]) by {
            assert(rest[i] == forms[i + 1]);
        }
        lemma_forms_from_joined(atoms, behind, rest);
        assert(seq![form] + rest =~= forms);
    }
}

/// Cutting gives back what was joined: a run of atoms made of single forms
/// written one behind the other is cut into exactly those forms, as many as
/// were joined, each balanced and opening with a marker.
pub proof fn lemma_joined_forms_are_cut_apart(forms: Seq<Seq<Atom>>)
    requires
        forall|i: int| 0 <= i < forms.len() ==> is_single_form(#[trigger] forms[i]),
    ensures
        forms_of(joined(forms)) == forms,
        forms_of(joined(forms)).len() == forms.len(),
        forall|i: int|
            0 <= i < forms.len() ==> {
                let form = #[trigger] forms_of(joined(forms))[i];
                is_balanced(form) && form.len() > 0 && form[0] is Open
            },
{
    let atoms = joined(forms);
    assert(atoms.subrange(0, atoms.len() as int) =~= atoms);
    lemma_forms_from_joined(atoms, 0, forms);
}

proof fn lemma_markers_fit(atoms: Seq<Atom>)
    ensures
        count_open(atoms) + count_close(atoms) <= atoms.len(),
    decreases atoms.len(),
{
    if atoms.len() > 0 {
        lemma_markers_fit(atoms.drop_last());
    }
}

proof fn lemma_forms_from_are_balanced(atoms: Seq<Atom>, start: int, at: int, depth: int)
    requires
        0 <= start <= at <= atoms.len(),
        depth == net_depth(atoms.subrange(start, at)),
    ensures
        forall|i: int|
            0 <= i < forms_from(atoms, start, at, depth).len() ==> {
                let form = #[trigger] forms_from(atoms, start, at, depth)[i];
                is_balanced(form) && form.len() >= 2 && form.last() is Close
            },
        joined(forms_from(atoms, start, at, depth)).is_prefix_of(atoms.skip(start)),
    decreases atoms.len() - at,
{
    let forms = forms_from(atoms, start, at, depth);
    if at < atoms.len() {
        let seen = atoms.subrange(start, at + 1);
        assert(seen.take(at - start) =~= atoms.subrange(start, at));
        assert(seen.take(at - start + 1) =~= seen);
        lemma_net_depth_step(seen, at - start);
        if atoms[at] is Close && depth == 1 {
            let rest = forms_from(atoms, at + 1, at + 1, 0);
            assert(atoms.subrange(at + 1, at + 1) =~= Seq::<Atom>::empty());
            lemma_forms_from_are_balanced(atoms, at + 1, at + 1, 0);
            lemma_markers_fit(seen);
            assert(forms == seq![seen] + rest);
            assert(forms.drop_first() =~= rest);
            assert(joined(forms) == seen + joined(rest));
            assert(joined(rest) =~= atoms.skip(at + 1).subrange(0, joined(rest).len() as int));
            assert(joined(forms) =~= atoms.skip(start).subrange(0, joined(forms).len() as int));
            assert forall|i: int| 0 <= i < forms.len() implies {
                let form = #[trigger] forms[i];
                is_balanced(form) && form.len() >= 2 && form.last() is Close
            } by {
                if i > 0 {
                    assert(forms[i] == rest[i - 1]);
                }
            }
        } else {
            lemma_forms_from_are_balanced(atoms, start, at + 1, depth_behind(depth, atoms[at]));
        }
    } else {
        assert(joined(forms) =~= atoms.skip(start).subrange(0, 0));
    }
}

/// Whatever run of atoms is cut, every form cut out of it is balanced, has
/// at least two atoms and ends with a closing marker, and the forms stand in
/// the run one behind the other from its start.
pub proof fn lemma_cut_forms_are_balanced(atoms: Seq<Atom>)
    ensures
        forall|i: int|
            0 <= i < forms_of(atoms).len() ==> {
                let form = #[trigger] forms_of(atoms)[i];
                is_balanced(form) && form.len() >= 2 && form.last() is Close
            },
        joined(forms_of(atoms)).is_prefix_of(atoms),
{
    assert(atoms.subrange(0, 0) =~= Seq::<Atom>::empty());
    assert(atoms.skip(0) =~= atoms);
    lemma_forms_from_are_balanced(atoms, 0, 0, 0);
}

} // verus!
