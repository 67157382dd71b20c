//! Keeping the first of each name: what is declared once even where it is
//! named many times.

use vstd::prelude::*;
use crate::template::slot_texts;

verus! {

/// Whether no earlier place of `names` holds the name at `i`.
pub open spec fn is_first(names: Seq<Seq<char>>, i: int) -> bool {
    forall|j: int| 0 <= j < i ==> names[j] != names[i]
}

/// The places before `end` that hold a name for the first time, in order.
pub open spec fn firsts(names: Seq<Seq<char>>, end: int) -> Seq<int>
    decreases end,
{
    if end <= 0 {
        Seq::empty()
    } else if is_first(names, end - 1) {
        firsts(names, end - 1).push(end - 1)
    } else {
        firsts(names, end - 1)
    }
}

/// The places of `names` that hold a name for the first time, in order.
pub open spec fn declared(names: Seq<Seq<char>>) -> Seq<int> {
    firsts(names, names.len() as int)
}

/// What holds of the first places: they are places before `end` in rising
/// order, each holds its name for the first time, and every first place
/// before `end` is among them.
pub proof fn lemma_firsts(names: Seq<Seq<char>>, end: int)
    requires
        0 <= end <= names.len(),
    ensures
        forall|k: int|
            0 <= k < firsts(names, end).len() ==> 0 <= (#[trigger] firsts(names, end)[k]) < end
                && is_first(names, firsts(names, end)[k]),
        forall|a: int, b: int|
            0 <= a < b < firsts(names, end).len() ==> firsts(names, end)[a] < firsts(
                names,
                end,
            )[b],
        forall|i: int|
            0 <= i < end && is_first(names, i) ==> firsts(names, end).contains(i),
    decreases end,
{
    if end > 0 {
        lemma_firsts(names, end - 1);
        let shorter = firsts(names, end - 1);
        let all = firsts(names, end);
        if is_first(names, end - 1) {
            assert(all[shorter.len() as int] == end - 1);
            assert forall|i: int| 0 <= i < end && is_first(names, i) implies all.contains(
                i,
            ) by {
                if i < end - 1 {
                    let k = choose|k: int| 0 <= k < shorter.len() && shorter[k] == i;
                    assert(all[k] == i);
                }
            }
        }
    }
}

/// No two declarations are for the same symbol.
pub proof fn lemma_declared_once(names: Seq<Seq<char>>)
    ensures
        forall|a: int, b: int|
            0 <= a < b < declared(names).len() ==> names[declared(names)[a]]
                != names[declared(names)[b]],
{
    lemma_firsts(names, names.len() as int);
    let d = declared(names);
    assert forall|a: int, b: int| 0 <= a < b < d.len() implies names[d[a]] != names[d[b]] by {
        assert(d[a] < d[b]);
        assert(is_first(names, d[b]));
    }
}

/// Every symbol gets a declaration: that of the first place that holds it.
pub proof fn lemma_declared_all(names: Seq<Seq<char>>, i: int)
    requires
        0 <= i < names.len(),
    ensures
        exists|k: int|
            0 <= k < declared(names).len() && names[#[trigger] declared(names)[k]] == names[i]
                && declared(names)[k] <= i,
    decreases i,
{
    lemma_firsts(names, names.len() as int);
    if is_first(names, i) {
        let k = choose|k: int| 0 <= k < declared(names).len() && declared(names)[k] == i;
        assert(names[declared(names)[k]] == names[i]);
    } else {
        let j = choose|j: int| 0 <= j < i && names[j] == names[i];
        lemma_declared_all(names, j);
        let k = choose|k: int|
            0 <= k < declared(names).len() && names[#[trigger] declared(names)[k]] == names[j]
                && declared(names)[k] <= j;
        assert(names[declared(names)[k]] == names[i]);
    }
}

/// The places of `list` that hold a name for the first time, in order.
pub fn first_places(list: &Vec<String>) -> (places: Vec<usize>)
    ensures
        places@.len() == declared(slot_texts(list@)).len(),
        forall|k: int|
            0 <= k < places@.len() ==> (#[trigger] places@[k]) as int == declared(
                slot_texts(list@),
            )[k],
        forall|k: int| 0 <= k < places@.len() ==> (#[trigger] places@[k]) < list@.len(),
{
    let ghost names = slot_texts(list@);
    let mut places: Vec<usize> = Vec::new();
    let mut i: usize = 0;
    while i < list.len()
        invariant
            i <= list.len(),
            names == slot_texts(list@),
            places@.len() == firsts(names, i as int).len(),
            forall|k: int|
                0 <= k < places@.len() ==> (#[trigger] places@[k]) as int == firsts(
                    names,
                    i as int,
                )[k],
            forall|k: int| 0 <= k < places@.len() ==> (#[trigger] places@[k]) < i,
        decreases list.len() - i,
    {
        proof {
            lemma_firsts(names, i as int);
        }
        let mut seen = false;
        let mut k: usize = 0;
        while k < places.len()
            invariant
                k <= places@.len(),
                i < list.len(),
                names == slot_texts(list@),
                forall|m: int| 0 <= m < places@.len() ==> (#[trigger] places@[m]) < i,
                seen <==> exists|m: int|
                    0 <= m < k && names[(#[trigger] places@[m]) as int] == names[i as int],
            decreases places.len() - k,
        {
            if list[places[k]] == list[i] {
                seen = true;
            }
            k = k + 1;
        }
        proof {
            let shorter = firsts(names, i as int);
            if seen {
                let m = choose|m: int|
                    0 <= m < places@.len() && names[(#[trigger] places@[m]) as int]
                        == names[i as int];
                assert(!is_first(names, i as int));
            } else {
                assert forall|j: int| 0 <= j < i implies names[j] != names[i as int] by {
                    if names[j] == names[i as int] {
                        lemma_earliest(names, j);
                        let f = choose|f: int|
                            0 <= f <= j && is_first(names, f) && names[f] == names[j];
                        assert(shorter.contains(f));
                        let m = choose|m: int| 0 <= m < shorter.len() && shorter[m] == f;
                        assert(places@[m] as int == f);
                    }
                }
                assert(is_first(names, i as int));
            }
        }
        if !seen {
            places.push(i);
        }
        i = i + 1;
    }
    places
}

/// Every name is held for the first time at some place up to its own.
proof fn lemma_earliest(names: Seq<Seq<char>>, j: int)
    requires
        0 <= j < names.len(),
    ensures
        exists|f: int| 0 <= f <= j && is_first(names, f) && names[f] == names[j],
    decreases j,
{
    if is_first(names, j) {
        assert(0 <= j <= j && is_first(names, j) && names[j] == names[j]);
    } else {
        let e = choose|e: int| 0 <= e < j && names[e] == names[j];
        lemma_earliest(names, e);
        let f = choose|f: int| 0 <= f <= e && is_first(names, f) && names[f] == names[e];
        assert(0 <= f <= j && is_first(names, f) && names[f] == names[j]);
    }
}

} // verus!
