//! The order in which names are listed: character by character, by code
//! point, a proper prefix before what it is a prefix of.

use crate::text::{chars_of, same, texts};
use vstd::prelude::*;

verus! {

/// Whether `a` stands before `b`, given that the two agree before position `at`.
pub open spec fn precedes_from(a: Seq<char>, b: Seq<char>, at: int) -> bool
    decreases a.len() - at,
{
    if at >= b.len() {
        false
    } else if at >= a.len() {
        true
    } else if a[at] != b[at] {
        (a[at] as int) < (b[at] as int)
    } else {
        precedes_from(a, b, at + 1)
    }
}

/// Whether `a` stands strictly before `b`.
pub open spec fn precedes(a: Seq<char>, b: Seq<char>) -> bool {
    precedes_from(a, b, 0)
}

/// Each entry stands strictly before every later one, so none occurs twice.
pub open spec fn ascending(items: Seq<Seq<char>>) -> bool {
    forall|i: int, j: int|
        0 <= i < j < items.len() ==> precedes(#[trigger] items[i], #[trigger] items[j])
}

proof fn lemma_from_irreflexive(a: Seq<char>, at: int)
    requires
        0 <= at,
    ensures
        !precedes_from(a, a, at),
    decreases a.len() - at,
{
    if at < a.len() {
        lemma_from_irreflexive(a, at + 1);
    }
}

proof fn lemma_from_total(a: Seq<char>, b: Seq<char>, at: int)
    requires
        0 <= at <= a.len(),
        at <= b.len(),
        a.take(at) == b.take(at),
    ensures
        a == b || precedes_from(a, b, at) || precedes_from(b, a, at),
        !(precedes_from(a, b, at) && precedes_from(b, a, at)),
    decreases a.len() - at,
{
    if at >= a.len() || at >= b.len() {
        if at >= a.len() && at >= b.len() {
            assert(a.take(at) =~= a);
            assert(b.take(at) =~= b);
        }
    } else if a[at] == b[at] {
        assert(a.take(at + 1) =~= a.take(at).push(a[at]));
        assert(b.take(at + 1) =~= b.take(at).push(b[at]));
        lemma_from_total(a, b, at + 1);
    }
}

proof fn lemma_from_transitive(a: Seq<char>, b: Seq<char>, c: Seq<char>, at: int)
    requires
        0 <= at,
        precedes_from(a, b, at),
        precedes_from(b, c, at),
    ensures
        precedes_from(a, c, at),
    decreases a.len() - at,
{
    if at < a.len() && at < b.len() && at < c.len() && a[at] == b[at] && b[at] == c[at] {
        lemma_from_transitive(a, b, c, at + 1);
    }
}

/// No text stands before itself.
pub proof fn lemma_precedes_irreflexive(a: Seq<char>)
    ensures
        !precedes(a, a),
{
    lemma_from_irreflexive(a, 0);
}

/// Of two different texts exactly one stands before the other.
pub proof fn lemma_precedes_total(a: Seq<char>, b: Seq<char>)
    ensures
        a == b || precedes(a, b) || precedes(b, a),
        !(precedes(a, b) && precedes(b, a)),
{
    assert(a.take(0) =~= b.take(0));
    lemma_from_total(a, b, 0);
}

/// What stands before a text stands before all that the text stands before.
pub proof fn lemma_precedes_transitive(a: Seq<char>, b: Seq<char>, c: Seq<char>)
    requires
        precedes(a, b),
        precedes(b, c),
    ensures
        precedes(a, c),
{
    lemma_from_transitive(a, b, c, 0);
}

/// An ascending list holds nothing twice.
pub proof fn lemma_ascending_no_duplicates(items: Seq<Seq<char>>)
    requires
        ascending(items),
    ensures
        items.no_duplicates(),
{
    assert forall|i: int, j: int|
        0 <= i < items.len() && 0 <= j < items.len() && i != j implies items[i] != items[j] by {
        lemma_precedes_irreflexive(items[i]);
        if i < j {
            assert(precedes(items[i], items[j]));
        } else {
            assert(precedes(items[j], items[i]));
        }
    }
}

fn code(c: char) -> (n: u32)
    ensures
        n as int == c as int,
{
    c as u32
}

/// Whether `a` stands strictly before `b`.
pub fn less(a: &str, b: &str) -> (r: bool)
    ensures
        r == precedes(a@, b@),
{
    let x = chars_of(a);
    let y = chars_of(b);
    let mut i: usize = 0;
    while i < x.len() && i < y.len()
        invariant
            i <= x@.len(),
            i <= y@.len(),
            x@ == a@,
            y@ == b@,
            precedes_from(x@, y@, i as int) == precedes_from(x@, y@, 0),
        decreases x@.len() - i,
    {
        if x[i] != y[i] {
            return code(x[i]) < code(y[i]);
        }
        i += 1;
    }
    i < y.len()
}

/// The first position from `at` on whose entry does not stand before `item`.
pub open spec fn place(list: Seq<Seq<char>>, item: Seq<char>, at: int) -> int
    decreases list.len() - at,
{
    if at >= list.len() || !precedes(list[at], item) {
        at
    } else {
        place(list, item, at + 1)
    }
}

/// `list` with `item` put before the first entry that does not stand before
/// it, unless that entry is `item` itself.
pub open spec fn inserted(list: Seq<Seq<char>>, item: Seq<char>) -> Seq<Seq<char>> {
    let at = place(list, item, 0);
    if at < list.len() && list[at] == item {
        list
    } else {
        list.insert(at, item)
    }
}

proof fn lemma_place(list: Seq<Seq<char>>, item: Seq<char>, at: int)
    requires
        0 <= at <= list.len(),
    ensures
        at <= place(list, item, at) <= list.len(),
        forall|k: int| at <= k < place(list, item, at) ==> precedes(#[trigger] list[k], item),
        place(list, item, at) < list.len() ==> !precedes(list[place(list, item, at)], item),
    decreases list.len() - at,
{
    if at < list.len() && precedes(list[at], item) {
        lemma_place(list, item, at + 1);
    }
}

/// Putting an entry into an ascending list leaves it ascending, and adds that
/// entry to what the list holds and nothing else.
pub proof fn lemma_inserted(list: Seq<Seq<char>>, item: Seq<char>)
    requires
        ascending(list),
    ensures
        ascending(inserted(list, item)),
        forall|x: Seq<char>| #[trigger]
            inserted(list, item).contains(x) <==> (x == item || list.contains(x)),
{
    let at = place(list, item, 0);
    lemma_place(list, item, 0);
    let after = inserted(list, item);
    if at < list.len() && list[at] == item {
        assert(list.contains(item));
    } else {
        if at < list.len() {
            lemma_precedes_total(list[at], item);
        }
        assert forall|k: int| at <= k < list.len() implies precedes(item, #[trigger] list[k]) by {
            if k > at {
                lemma_precedes_transitive(item, list[at], list[k]);
            }
        }
        assert forall|i: int, j: int| 0 <= i < j < after.len() implies precedes(
            #[trigger] after[i],
            #[trigger] after[j],
        ) by {
            if j < at {
                assert(after[i] == list[i] && after[j] == list[j]);
            } else if j == at {
                assert(after[i] == list[i]);
            } else if i < at {
                assert(after[i] == list[i] && after[j] == list[j - 1]);
                lemma_precedes_transitive(list[i], item, list[j - 1]);
            } else if i == at {
                assert(after[j] == list[j - 1]);
            } else {
                assert(after[i] == list[i - 1] && after[j] == list[j - 1]);
            }
        }
        assert forall|x: Seq<char>| after.contains(x) implies (x == item || list.contains(x)) by {
            let k = choose|k: int| 0 <= k < after.len() && after[k] == x;
            if k < at {
                assert(list[k] == x);
            } else if k > at {
                assert(list[k - 1] == x);
            }
        }
        assert forall|x: Seq<char>| (x == item || list.contains(x)) implies after.contains(x) by {
            if x == item {
                assert(after[at] == x);
            } else {
                let k = choose|k: int| 0 <= k < list.len() && list[k] == x;
                if k < at {
                    assert(after[k] == x);
                } else {
                    assert(after[k + 1] == x);
                }
            }
        }
    }
}

/// Puts `item` at its place in the list, unless the list holds it there already.
pub fn insert_ascending(list: &mut Vec<String>, item: String)
    ensures
        texts(final(list)@) == inserted(texts(old(list)@), item@),
{
    let ghost before = texts(list@);
    let mut at: usize = 0;
    while at < list.len() && less(list[at].as_str(), item.as_str())
        invariant
            at <= list@.len(),
            texts(list@) == before,
            place(before, item@, at as int) == place(before, item@, 0),
        decreases list@.len() - at,
    {
        at += 1;
    }
    let held = at < list.len() && same(list[at].as_str(), item.as_str());
    if !held {
        list.insert(at, item);
    }
}

} // verus!
