//! Choices made at a list: what was answered, and the entries that an answer
//! stands for.

use crate::text::texts;
use vstd::prelude::*;

verus! {

/// A choice of one entry of a list: the position chosen, or why there is none.
pub open spec fn answer_of(answer: Result<usize, String>) -> Result<int, Seq<char>> {
    match answer {
        Ok(at) => Ok(at as int),
        Err(e) => Err(e@),
    }
}

/// Positions as the plans speak of them.
pub open spec fn positions(picked: Seq<usize>) -> Seq<int> {
    Seq::new(picked.len(), |k: int| picked[k] as int)
}

/// A choice of any number of entries of a list: the positions chosen, in the
/// order in which they came, or why there is none.
pub open spec fn answers_of(answer: Result<Vec<usize>, String>) -> Result<Seq<int>, Seq<char>> {
    match answer {
        Ok(picked) => Ok(positions(picked@)),
        Err(e) => Err(e@),
    }
}

/// The first position named by the selection, from `from` on, that a list of
/// `len` entries does not have.
pub open spec fn stray(selection: Seq<int>, len: nat, from: int) -> Option<int>
    decreases selection.len() - from,
{
    if from >= selection.len() {
        None
    } else if 0 <= selection[from] < len {
        stray(selection, len, from + 1)
    } else {
        Some(selection[from])
    }
}

/// A selection has no stray position exactly where each of its positions is
/// one that the list has.
pub proof fn lemma_stray(selection: Seq<int>, len: nat, from: int)
    requires
        0 <= from,
    ensures
        stray(selection, len, from) is None <==> forall|k: int|
            from <= k < selection.len() ==> 0 <= #[trigger] selection[k] < len,
        stray(selection, len, from) matches Some(at) ==> !(0 <= at < len),
    decreases selection.len() - from,
{
    if from < selection.len() {
        lemma_stray(selection, len, from + 1);
    }
}

/// The entries at the chosen positions, in the order of the selection.
pub open spec fn chosen(items: Seq<Seq<char>>, selection: Seq<int>) -> Seq<Seq<char>> {
    Seq::new(selection.len(), |k: int| items[selection[k]])
}

/// The entries at the chosen positions, or the first position that the list
/// does not have.
pub fn pick(items: &Vec<String>, selection: &Vec<usize>) -> (r: Result<Vec<String>, usize>)
    ensures
        match r {
            Ok(list) => stray(positions(selection@), items@.len(), 0) is None && texts(list@)
                == chosen(texts(items@), positions(selection@)),
            Err(at) => stray(positions(selection@), items@.len(), 0) == Some(at as int),
        },
{
    let mut list: Vec<String> = Vec::new();
    let mut i: usize = 0;
    while i < selection.len()
        invariant
            i <= selection@.len(),
            list@.len() == i,
            stray(positions(selection@), items@.len(), i as int) == stray(
                positions(selection@),
                items@.len(),
                0,
            ),
            forall|k: int|
                0 <= k < i ==> selection@[k] < items@.len() && list@[k]@
                    == items@[selection@[k] as int]@,
        decreases selection@.len() - i,
    {
        let at = selection[i];
        if at >= items.len() {
            return Err(at);
        }
        list.push(items[at].clone());
        i += 1;
    }
    Ok(list)
}

} // verus!
