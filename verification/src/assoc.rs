//! A small verified association list over owned string pairs, with
//! the two operations the library needs: set-or-replace under a name,
//! and lookup where the last occurrence of a name wins.

use vstd::prelude::*;

use crate::strutil::str_eq;

verus! {

/// The views of a list of string pairs.
pub open spec fn pair_views(hs: Seq<(String, String)>) -> Seq<(Seq<char>, Seq<char>)> {
    hs.map_values(|p: (String, String)| (p.0@, p.1@))
}

/// Setting a name: the first pair with the same name is replaced in
/// place; a fresh name is appended at the end.
pub open spec fn spec_assoc_set(
    hs: Seq<(Seq<char>, Seq<char>)>,
    name: Seq<char>,
    value: Seq<char>,
) -> Seq<(Seq<char>, Seq<char>)>
    decreases hs.len(),
{
    if hs.len() == 0 {
        seq![(name, value)]
    } else if hs[0].0 == name {
        seq![(name, value)] + hs.drop_first()
    } else {
        seq![hs[0]] + spec_assoc_set(hs.drop_first(), name, value)
    }
}

/// The value of the last pair with the given name, if any.
pub open spec fn spec_assoc_lookup(hs: Seq<(Seq<char>, Seq<char>)>, name: Seq<char>) -> Option<
    Seq<char>,
>
    decreases hs.len(),
{
    if hs.len() == 0 {
        None
    } else if hs.last().0 == name {
        Some(hs.last().1)
    } else {
        spec_assoc_lookup(hs.drop_last(), name)
    }
}

/// Where the replaced or appended pair lands: at the index of the
/// first pair carrying the name, or at the end for a fresh name.
pub proof fn lemma_assoc_set_at(
    hs: Seq<(Seq<char>, Seq<char>)>,
    name: Seq<char>,
    value: Seq<char>,
    i: int,
)
    requires
        0 <= i <= hs.len(),
        forall|j: int| 0 <= j < i ==> hs[j].0 != name,
        i < hs.len() ==> hs[i].0 == name,
    ensures
        i == hs.len() ==> spec_assoc_set(hs, name, value) =~= hs.push((name, value)),
        i < hs.len() ==> spec_assoc_set(hs, name, value) =~= hs.take(i) + seq![(name, value)]
            + hs.skip(i + 1),
    decreases hs.len(),
{
    if hs.len() == 0 {
    } else if i == 0 {
        assert(hs.drop_first() =~= hs.skip(1));
    } else {
        assert(hs[0].0 != name);
        assert(forall|j: int| 0 <= j < i - 1 ==> hs.drop_first()[j].0 != name);
        assert(i - 1 < hs.drop_first().len() ==> hs.drop_first()[i - 1].0 == name);
        lemma_assoc_set_at(hs.drop_first(), name, value, i - 1);
        if i == hs.len() {
            assert(seq![hs[0]] + hs.drop_first().push((name, value)) =~= hs.push((name, value)));
        } else {
            assert(seq![hs[0]] + (hs.drop_first().take(i - 1) + seq![(name, value)]
                + hs.drop_first().skip(i)) =~= hs.take(i) + seq![(name, value)] + hs.skip(i + 1));
        }
    }
}

/// A lookup returns the value of the last matching pair.
pub proof fn lemma_assoc_lookup_last(hs: Seq<(Seq<char>, Seq<char>)>, name: Seq<char>, j: int)
    requires
        0 <= j < hs.len(),
        hs[j].0 == name,
        forall|k: int| j < k < hs.len() ==> hs[k].0 != name,
    ensures
        spec_assoc_lookup(hs, name) == Some(hs[j].1),
    decreases hs.len(),
{
    if j == hs.len() - 1 {
    } else {
        assert(hs.last().0 != name);
        assert(hs.drop_last()[j] == hs[j]);
        lemma_assoc_lookup_last(hs.drop_last(), name, j);
    }
}

/// Sets a name to a value in the list, replacing in place or appending.
pub fn assoc_set(v: &mut Vec<(String, String)>, name: &str, value: &str)
    ensures
        pair_views(final(v)@) == spec_assoc_set(pair_views(old(v)@), name@, value@),
{
    let ghost hv = pair_views(v@);
    let n = v.len();
    let mut i: usize = 0;
    while i < n
        invariant
            i <= n,
            n == v@.len(),
            v@ == old(v)@,
            hv == pair_views(v@),
            forall|j: int| 0 <= j < i ==> hv[j].0 != name@,
        decreases n - i,
    {
        if str_eq(v[i].0.as_str(), name) {
            let _ = v.remove(i);
            v.insert(i, (name.to_owned(), value.to_owned()));
            proof {
                lemma_assoc_set_at(hv, name@, value@, i as int);
                assert(pair_views(v@) =~= hv.take(i as int) + seq![(name@, value@)] + hv.skip(
                    i + 1 as int,
                ));
            }
            return ;
        }
        i += 1;
    }
    v.push((name.to_owned(), value.to_owned()));
    proof {
        lemma_assoc_set_at(hv, name@, value@, n as int);
        assert(pair_views(v@) =~= hv.push((name@, value@)));
    }
}

/// Looks a name up in the list; the last occurrence wins.
pub fn assoc_lookup<'a>(v: &'a Vec<(String, String)>, name: &str) -> (r: Option<&'a String>)
    ensures
        match r {
            Some(val) => spec_assoc_lookup(pair_views(v@), name@) == Some(val@),
            None => spec_assoc_lookup(pair_views(v@), name@) is None,
        },
{
    let n = v.len();
    let mut i: usize = n;
    proof {
        assert(pair_views(v@).take(n as int) =~= pair_views(v@));
    }
    while i > 0
        invariant
            i <= n,
            n == v@.len(),
            spec_assoc_lookup(pair_views(v@), name@) == spec_assoc_lookup(
                pair_views(v@).take(i as int),
                name@,
            ),
        decreases i,
    {
        i -= 1;
        if str_eq(v[i].0.as_str(), name) {
            proof {
                assert(pair_views(v@).take(i + 1 as int).last() == (
                    v@[i as int].0@,
                    v@[i as int].1@,
                ));
            }
            return Some(&v[i].1);
        }
        proof {
            assert(pair_views(v@).take(i + 1 as int).drop_last() =~= pair_views(v@).take(i as int));
        }
    }
    proof {
        assert(pair_views(v@).take(0) =~= Seq::<(Seq<char>, Seq<char>)>::empty());
    }
    None
}

} // verus!
