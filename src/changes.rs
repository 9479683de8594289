use crate::error::Error;
use vstd::prelude::*;

verus! {

/// The renames that turn `names` into `edited`: each position at which the
/// two lists differ gives the pair (old name, new name), in list order.
pub open spec fn changes_of(names: Seq<Seq<char>>, edited: Seq<Seq<char>>) -> Seq<(Seq<char>, Seq<char>)>
    decreases names.len(),
{
    if names.len() == 0 {
        Seq::empty()
    } else {
        let prev = changes_of(names.drop_last(), edited.drop_last());
        if names.last() != edited.last() {
            prev.push((names.last(), edited.last()))
        } else {
            prev
        }
    }
}

/// The positions at which `names` and `edited` differ, in increasing order.
pub open spec fn differing_positions(names: Seq<Seq<char>>, edited: Seq<Seq<char>>) -> Seq<int>
    decreases names.len(),
{
    if names.len() == 0 {
        Seq::empty()
    } else {
        let prev = differing_positions(names.drop_last(), edited.drop_last());
        if names.last() != edited.last() {
            prev.push(names.len() - 1)
        } else {
            prev
        }
    }
}

/// For lists of equal length, the change set holds exactly one pair for each
/// position at which the lists differ, namely the two names at that position,
/// and the pairs come in the order of their positions; positions where the
/// names agree give no pair.
pub proof fn lemma_changes_are_differing_pairs(names: Seq<Seq<char>>, edited: Seq<Seq<char>>)
    requires
        names.len() == edited.len(),
    ensures
        ({
            let c = changes_of(names, edited);
            let d = differing_positions(names, edited);
            &&& c.len() == d.len()
            &&& forall|j: int| 0 <= j < d.len() ==> 0 <= #[trigger] d[j] < names.len()
                && names[d[j]] != edited[d[j]] && c[j] == (names[d[j]], edited[d[j]])
            &&& forall|j: int, k: int| 0 <= j < k < d.len() ==> d[j] < d[k]
            &&& forall|i: int| 0 <= i < names.len() && names[i] != edited[i] ==> d.contains(i)
        }),
    decreases names.len(),
{
    if names.len() > 0 {
        let n0 = names.drop_last();
        let e0 = edited.drop_last();
        lemma_changes_are_differing_pairs(n0, e0);
        let d0 = differing_positions(n0, e0);
        let d = differing_positions(names, edited);
        assert forall|i: int| 0 <= i < names.len() && names[i] != edited[i] implies d.contains(i) by {
            if i < names.len() - 1 {
                assert(n0[i] == names[i] && e0[i] == edited[i]);
                let j = choose|j: int| 0 <= j < d0.len() && d0[j] == i;
                assert(d[j] == i);
            } else {
                assert(d[d.len() - 1] == i);
            }
        }
    }
}

/// The identity edit asks for no rename: a list compared with itself gives an
/// empty change set, however often that is done.
pub proof fn lemma_identity_edit_is_noop(names: Seq<Seq<char>>)
    ensures
        changes_of(names, names) == Seq::<(Seq<char>, Seq<char>)>::empty(),
    decreases names.len(),
{
    if names.len() > 0 {
        lemma_identity_edit_is_noop(names.drop_last());
    }
}

/// Pairs the original names with the edited ones by position and keeps the
/// pairs whose two names differ, in their original order. Fails with
/// `WrongLength`, holding every edited line, when the two lists differ in
/// length.
pub fn calc_changes(names: &Vec<String>, new_names: &Vec<String>) -> (r: Result<Vec<(String, String)>, Error>)
    ensures
        names.len() != new_names.len() <==> r is Err,
        r matches Err(e) ==> e matches Error::WrongLength(lines) && lines.deep_view() == new_names.deep_view(),
        r matches Ok(c) ==> c.deep_view() == changes_of(names.deep_view(), new_names.deep_view()),
{
    if names.len() != new_names.len() {
        return Err(Error::WrongLength(new_names.clone()));
    }
    let ghost n = names.deep_view();
    let ghost e = new_names.deep_view();
    let mut changes: Vec<(String, String)> = Vec::new();
    let mut i: usize = 0;
    while i < names.len()
        invariant
            names.len() == new_names.len(),
            n == names.deep_view(),
            e == new_names.deep_view(),
            i <= names.len(),
            changes.deep_view() == changes_of(n.take(i as int), e.take(i as int)),
        decreases names.len() - i,
    {
        assert(n.take(i + 1).drop_last() =~= n.take(i as int));
        assert(e.take(i + 1).drop_last() =~= e.take(i as int));
        if names[i] != new_names[i] {
            let pair = (names[i].clone(), new_names[i].clone());
            let ghost before = changes.deep_view();
            changes.push(pair);
            assert(changes.deep_view() =~= before.push((n[i as int], e[i as int])));
        }
        i = i + 1;
    }
    assert(n.take(i as int) =~= n);
    assert(e.take(i as int) =~= e);
    Ok(changes)
}

} // verus!
