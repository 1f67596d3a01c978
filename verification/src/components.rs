//! Splitting paths into their components.
use vstd::prelude::*;

verus! {

/// The path separator `/`.
pub const SLASH: u8 = 0x2f;

/// The position of the first `x` in `s`, or `s.len()` when there is none.
pub open spec fn first_index_of<A>(s: Seq<A>, x: A) -> int
    decreases s.len(),
{
    if s.len() == 0 {
        0
    } else if s[0] == x {
        0
    } else {
        1 + first_index_of(s.skip(1), x)
    }
}

/// The pieces of `s` between separators `sep`, as `Path::components` yields
/// them: a piece ends at the next separator; nothing follows a trailing
/// separator.
pub open spec fn split_components<A>(s: Seq<A>, sep: A) -> Seq<Seq<A>>
    decreases s.len(),
{
    if s.len() == 0 {
        Seq::empty()
    } else {
        let i = first_index_of(s, sep);
        if i >= s.len() {
            seq![s]
        } else {
            proof {
                lemma_first_index_of(s, sep);
            }
            seq![s.take(i)] + split_components(s.skip(i + 1), sep)
        }
    }
}

/// The components of a path: one leading separator is dropped, then the rest
/// is split at the separators.
pub open spec fn path_components<A>(s: Seq<A>, sep: A) -> Seq<Seq<A>> {
    if s.len() > 0 && s[0] == sep {
        split_components(s.skip(1), sep)
    } else {
        split_components(s, sep)
    }
}

/// Facts about `first_index_of`: it is a position of `x`, or the end, and
/// no earlier position holds `x`.
pub proof fn lemma_first_index_of<A>(s: Seq<A>, x: A)
    ensures
        0 <= first_index_of(s, x) <= s.len(),
        first_index_of(s, x) < s.len() ==> s[first_index_of(s, x)] == x,
        forall|k: int| 0 <= k < first_index_of(s, x) ==> s[k] != x,
    decreases s.len(),
{
    if s.len() == 0 {
    } else if s[0] == x {
    } else {
        lemma_first_index_of(s.skip(1), x);
        assert forall|k: int| 0 <= k < first_index_of(s, x) implies s[k] != x by {
            if k > 0 {
                assert(s.skip(1)[k - 1] == s[k]);
            }
        }
    }
}

/// `first_index_of` is fixed by the properties above.
pub proof fn lemma_first_index_of_unique<A>(s: Seq<A>, x: A, i: int)
    requires
        0 <= i <= s.len(),
        i < s.len() ==> s[i] == x,
        forall|k: int| 0 <= k < i ==> s[k] != x,
    ensures
        first_index_of(s, x) == i,
{
    lemma_first_index_of(s, x);
    let f = first_index_of(s, x);
    if f < i {
        assert(s[f] == x);
    } else if f > i {
        assert(s[i] == x);
    }
}

/// Splits the bytes `s` at `sep` as `split_components` says.
pub fn split_bytes(s: &[u8], sep: u8) -> (r: Vec<Vec<u8>>)
    ensures
        r@.map_values(|v: Vec<u8>| v@) == split_components(s@, sep),
{
    let mut r: Vec<Vec<u8>> = Vec::new();
    let mut start: usize = 0;
    let ghost all = s@;
    proof {
        assert(all.skip(0) =~= all);
        assert(r@.map_values(|v: Vec<u8>| v@) + split_components(all, sep) =~= split_components(all, sep));
    }
    while start < s.len()
        invariant
            all == s@,
            0 <= start <= s.len(),
            r@.map_values(|v: Vec<u8>| v@) + split_components(all.skip(start as int), sep)
                == split_components(all, sep),
        decreases s.len() - start,
    {
        let ghost rest = all.skip(start as int);
        let mut end = start;
        while end < s.len() && s[end] != sep
            invariant
                all == s@,
                start <= end <= s.len(),
                forall|k: int| start <= k < end ==> all[k] != sep,
            decreases s.len() - end,
        {
            end += 1;
        }
        let mut piece: Vec<u8> = Vec::new();
        let mut k = start;
        while k < end
            invariant
                all == s@,
                start <= k <= end <= s.len(),
                piece@ == all.subrange(start as int, k as int),
            decreases end - k,
        {
            piece.push(s[k]);
            k += 1;
        }
        proof {
            assert forall|k: int| 0 <= k < end - start implies rest[k] != sep by {
                assert(rest[k] == all[start + k]);
            }
            if end < s.len() {
                assert(rest[end - start] == all[end as int]);
            }
            lemma_first_index_of_unique(rest, sep, end - start);
            assert(piece@ == rest.take(end - start));
            let ghost prev = r@.map_values(|v: Vec<u8>| v@);
            if end >= s.len() {
                assert(split_components(rest, sep) == seq![rest]);
                assert(all.skip(s.len() as int) =~= Seq::<u8>::empty());
            } else {
                assert(rest.skip(end - start + 1) =~= all.skip(end + 1));
            }
        }
        let ghost before = r@;
        r.push(piece);
        proof {
            assert(r@.map_values(|v: Vec<u8>| v@) =~= before.map_values(|v: Vec<u8>| v@).push(
                piece@,
            ));
        }
        if end >= s.len() {
            start = end;
            proof {
                assert(all.skip(start as int) =~= Seq::<u8>::empty());
                assert(r@.map_values(|v: Vec<u8>| v@) + split_components(all.skip(start as int), sep)
                    =~= r@.map_values(|v: Vec<u8>| v@));
                assert(before.map_values(|v: Vec<u8>| v@) + seq![piece@] =~= r@.map_values(
                    |v: Vec<u8>| v@,
                ));
            }
        } else {
            start = end + 1;
            proof {
                assert(r@.map_values(|v: Vec<u8>| v@) + split_components(all.skip(start as int), sep)
                    =~= before.map_values(|v: Vec<u8>| v@) + (seq![piece@] + split_components(
                    all.skip(start as int),
                    sep,
                )));
            }
        }
    }
    proof {
        assert(all.skip(start as int) =~= Seq::<u8>::empty());
        assert(r@.map_values(|v: Vec<u8>| v@) + Seq::<Seq<u8>>::empty() =~= r@.map_values(
            |v: Vec<u8>| v@,
        ));
    }
    r
}

/// The components of the path bytes `s` (see `path_components`).
pub fn path_components_bytes(s: &[u8]) -> (r: Vec<Vec<u8>>)
    ensures
        r@.map_values(|v: Vec<u8>| v@) == path_components(s@, SLASH),
{
    if s.len() > 0 && s[0] == SLASH {
        let rest = slice_skip(s, 1);
        split_bytes(rest.as_slice(), SLASH)
    } else {
        split_bytes(s, SLASH)
    }
}

/// The bytes of `s` from `start` on.
pub fn slice_skip(s: &[u8], start: usize) -> (r: Vec<u8>)
    requires
        start <= s.len(),
    ensures
        r@ == s@.skip(start as int),
{
    let mut r: Vec<u8> = Vec::new();
    let mut k = start;
    while k < s.len()
        invariant
            start <= k <= s.len(),
            r@ == s@.subrange(start as int, k as int),
        decreases s.len() - k,
    {
        r.push(s[k]);
        k += 1;
    }
    r
}

/// The bytes of `s` in `[start, end)`.
pub fn slice_range(s: &[u8], start: usize, end: usize) -> (r: Vec<u8>)
    requires
        start <= end <= s.len(),
    ensures
        r@ == s@.subrange(start as int, end as int),
{
    let mut r: Vec<u8> = Vec::new();
    let mut k = start;
    while k < end
        invariant
            start <= k <= end <= s.len(),
            r@ == s@.subrange(start as int, k as int),
        decreases end - k,
    {
        r.push(s[k]);
        k += 1;
    }
    r
}

} // verus!
