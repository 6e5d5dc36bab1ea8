//! String identity for component, resource and system names.
//!
//! Names cross the host boundary as null-terminated byte strings, so the
//! descriptor model stores each name as its byte content. This module gives
//! byte-string equality, a three-way lexicographic comparison, and ordered
//! insertion without duplicates, which the id-assignment list is built from.

use vstd::prelude::*;

verus! {

/// Strict lexicographic order on byte strings: a proper prefix comes first,
/// otherwise the first differing byte decides.
pub open spec fn lex_lt(a: Seq<u8>, b: Seq<u8>) -> bool
    decreases a.len(),
{
    if b.len() == 0 {
        false
    } else if a.len() == 0 {
        true
    } else if a[0] != b[0] {
        a[0] < b[0]
    } else {
        lex_lt(a.skip(1), b.skip(1))
    }
}

pub proof fn lemma_lex_lt_irreflexive(a: Seq<u8>)
    ensures
        !lex_lt(a, a),
    decreases a.len(),
{
    if a.len() > 0 {
        lemma_lex_lt_irreflexive(a.skip(1));
    }
}

pub proof fn lemma_lex_lt_transitive(a: Seq<u8>, b: Seq<u8>, c: Seq<u8>)
    requires
        lex_lt(a, b),
        lex_lt(b, c),
    ensures
        lex_lt(a, c),
    decreases a.len(),
{
    if a.len() > 0 && b.len() > 0 && c.len() > 0 && a[0] == b[0] && b[0] == c[0] {
        lemma_lex_lt_transitive(a.skip(1), b.skip(1), c.skip(1));
    }
}

/// Equal prefixes of length `i` do not influence the lexicographic order.
proof fn lemma_lex_lt_common_prefix(a: Seq<u8>, b: Seq<u8>, i: int)
    requires
        0 <= i <= a.len(),
        i <= b.len(),
        forall|j: int| 0 <= j < i ==> a[j] == b[j],
    ensures
        lex_lt(a, b) == lex_lt(a.skip(i), b.skip(i)),
    decreases i,
{
    if i == 0 {
        assert(a.skip(0) =~= a);
        assert(b.skip(0) =~= b);
    } else {
        assert(a.skip(1).skip(i - 1) =~= a.skip(i));
        assert(b.skip(1).skip(i - 1) =~= b.skip(i));
        assert(forall|j: int| 0 <= j < i - 1 ==> #[trigger] a.skip(1)[j] == b.skip(1)[j]);
        lemma_lex_lt_common_prefix(a.skip(1), b.skip(1), i - 1);
    }
}

pub fn name_eq(a: &Vec<u8>, b: &Vec<u8>) -> (r: bool)
    ensures
        r == (a@ == b@),
{
    if a.len() != b.len() {
        return false;
    }
    let mut i: usize = 0;
    while i < a.len()
        invariant
            a@.len() == b@.len(),
            i <= a@.len(),
            forall|j: int| 0 <= j < i ==> a@[j] == b@[j],
        decreases a@.len() - i,
    {
        if a[i] != b[i] {
            return false;
        }
        i += 1;
    }
    proof {
        assert(a@ =~= b@);
    }
    true
}

/// An owned copy of a name's bytes.
pub fn clone_name(v: &Vec<u8>) -> (r: Vec<u8>)
    ensures
        r@ == v@,
{
    let mut r: Vec<u8> = Vec::new();
    let mut i: usize = 0;
    while i < v.len()
        invariant
            i <= v@.len(),
            r@ == v@.take(i as int),
        decreases v@.len() - i,
    {
        r.push(v[i]);
        proof {
            assert(r@ =~= v@.take(i + 1));
        }
        i += 1;
    }
    proof {
        assert(v@.take(v@.len() as int) =~= v@);
    }
    r
}

/// Outcome of a three-way comparison of two names.
pub enum NameOrder {
    Before,
    Same,
    After,
}

pub fn name_cmp(a: &Vec<u8>, b: &Vec<u8>) -> (r: NameOrder)
    ensures
        r is Same <==> a@ == b@,
        r is Before <==> lex_lt(a@, b@),
        r is After <==> lex_lt(b@, a@),
{
    let mut i: usize = 0;
    loop
        invariant
            i <= a@.len(),
            i <= b@.len(),
            forall|j: int| 0 <= j < i ==> a@[j] == b@[j],
        decreases a@.len() - i,
    {
        proof {
            lemma_lex_lt_common_prefix(a@, b@, i as int);
            lemma_lex_lt_common_prefix(b@, a@, i as int);
        }
        if i == a.len() && i == b.len() {
            proof {
                assert(a@ =~= b@);
                lemma_lex_lt_irreflexive(a@);
            }
            return NameOrder::Same;
        }
        if i == a.len() {
            proof {
                assert(a@.len() != b@.len());
            }
            return NameOrder::Before;
        }
        if i == b.len() {
            proof {
                assert(a@.len() != b@.len());
            }
            return NameOrder::After;
        }
        if a[i] < b[i] {
            proof {
                assert(a@.skip(i as int)[0] == a@[i as int]);
                assert(b@.skip(i as int)[0] == b@[i as int]);
                assert(a@[i as int] != b@[i as int]);
            }
            return NameOrder::Before;
        }
        if a[i] > b[i] {
            proof {
                assert(a@.skip(i as int)[0] == a@[i as int]);
                assert(b@.skip(i as int)[0] == b@[i as int]);
                assert(a@[i as int] != b@[i as int]);
            }
            return NameOrder::After;
        }
        i += 1;
    }
}

/// The byte content of each name in a list.
pub open spec fn names_view(list: Seq<Vec<u8>>) -> Seq<Seq<u8>> {
    list.map_values(|v: Vec<u8>| v@)
}

/// The name list is strictly ascending, hence free of duplicates.
pub open spec fn lex_sorted(names: Seq<Seq<u8>>) -> bool {
    forall|i: int, j: int|
        0 <= i < j < names.len() ==> lex_lt(#[trigger] names[i], #[trigger] names[j])
}

/// Where a name stands, or would stand, in a strictly ascending list.
pub enum NamePosition {
    Present(usize),
    Absent(usize),
}

/// Finds a name in a strictly ascending list, or the position where it
/// belongs.
pub fn name_position(list: &Vec<Vec<u8>>, name: &Vec<u8>) -> (r: NamePosition)
    requires
        lex_sorted(names_view(list@)),
    ensures
        match r {
            NamePosition::Present(j) => j < list@.len() && list@[j as int]@ == name@,
            NamePosition::Absent(j) => {
                &&& j <= list@.len()
                &&& forall|k: int| 0 <= k < j ==> lex_lt(#[trigger] list@[k]@, name@)
                &&& (j < list@.len() ==> lex_lt(name@, list@[j as int]@))
            },
        },
{
    let mut j: usize = 0;
    loop
        invariant
            j <= list@.len(),
            forall|k: int| 0 <= k < j ==> lex_lt(#[trigger] list@[k]@, name@),
        decreases list@.len() - j,
    {
        if j == list.len() {
            return NamePosition::Absent(j);
        }
        match name_cmp(&list[j], name) {
            NameOrder::Before => {
                j += 1;
            }
            NameOrder::Same => {
                return NamePosition::Present(j);
            }
            NameOrder::After => {
                return NamePosition::Absent(j);
            }
        }
    }
}

/// Inserts `name` into a strictly ascending list, keeping it ascending;
/// a name already present is left alone.
pub fn insert_sorted_unique(list: &mut Vec<Vec<u8>>, name: Vec<u8>)
    requires
        lex_sorted(names_view(old(list)@)),
    ensures
        lex_sorted(names_view(final(list)@)),
        forall|n: Seq<u8>|
            #[trigger] names_view(final(list)@).contains(n)
                <==> (names_view(old(list)@).contains(n) || n == name@),
{
    let ghost old_view: Seq<Seq<u8>> = names_view(list@);
    let j: usize = match name_position(list, &name) {
        NamePosition::Present(j) => {
            proof {
                assert(names_view(list@)[j as int] == list@[j as int]@);
                assert(names_view(list@).contains(name@));
            }
            return;
        }
        NamePosition::Absent(j) => j,
    };
    // `name` is larger than everything before position `j` and, if `j` is in
    // range, smaller than the element there; ascending order extends across
    // the insertion point by transitivity.
    proof {
        assert(forall|k: int| 0 <= k < j ==> lex_lt(#[trigger] names_view(list@)[k], name@));
        if j < list@.len() {
            assert forall|k: int| j <= k < names_view(list@).len() implies lex_lt(
                name@,
                #[trigger] names_view(list@)[k],
            ) by {
                assert(names_view(list@)[k] == list@[k]@);
                assert(names_view(list@)[j as int] == list@[j as int]@);
                if k > j {
                    assert(lex_lt(names_view(list@)[j as int], names_view(list@)[k]));
                    lemma_lex_lt_transitive(name@, list@[j as int]@, list@[k]@);
                }
            }
        }
    }
    let ghost pre_view: Seq<Seq<u8>> = names_view(list@);
    list.insert(j, name);
    proof {
        old(list)@.insert_ensures(j as int, name);
        let new_view = names_view(list@);
        assert(new_view.len() == pre_view.len() + 1);
        assert forall|k: int| 0 <= k < new_view.len() implies #[trigger] new_view[k] == (if k < j {
            pre_view[k]
        } else if k == j {
            name@
        } else {
            pre_view[k - 1]
        }) by {
            if k < j {
                assert(new_view[k] == list@[k]@);
                assert(pre_view[k] == old(list)@[k]@);
            } else if k == j {
                assert(new_view[k] == list@[k]@);
            } else {
                assert(new_view[k] == list@[k]@);
                assert(pre_view[k - 1] == old(list)@[k - 1]@);
            }
        }
        assert forall|n: Seq<u8>| #[trigger] new_view.contains(n) implies (pre_view.contains(n)
            || n == name@) by {
            let k = choose|k: int| 0 <= k < new_view.len() && new_view[k] == n;
            if k < j {
                assert(pre_view[k] == n);
            } else if k > j {
                assert(pre_view[k - 1] == n);
            }
        }
        assert forall|n: Seq<u8>| pre_view.contains(n) implies #[trigger] new_view.contains(n) by {
            let k = choose|k: int| 0 <= k < pre_view.len() && pre_view[k] == n;
            if k < j {
                assert(new_view[k] == n);
            } else {
                assert(new_view[k + 1] == n);
            }
        }
        assert(new_view.contains(name@)) by {
            assert(new_view[j as int] == name@);
        }
    }
}

} // verus!
