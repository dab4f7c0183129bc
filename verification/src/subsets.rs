//! Choosing `k` of `n` things.

use vstd::prelude::*;

verus! {

/// The ways to choose `k` of the indices `start..n`, each in rising order,
/// the choices in lexicographic order. None for `k == 0`.
pub open spec fn combinations(start: int, n: int, k: nat) -> Seq<Seq<int>>
    decreases k, n - start,
{
    if k == 0 || n - start < k as int {
        Seq::empty()
    } else if k == 1 {
        Seq::new((n - start) as nat, |j: int| seq![start + j])
    } else {
        let with = combinations(start + 1, n, (k - 1) as nat);
        Seq::new(with.len(), |j: int| seq![start] + with[j]) + combinations(start + 1, n, k)
    }
}

/// The index lists of a vector of choices.
pub open spec fn index_lists(v: Seq<Vec<usize>>) -> Seq<Seq<int>> {
    Seq::new(v.len(), |i: int| Seq::new(v[i]@.len(), |j: int| v[i]@[j] as int))
}

fn combinations_from(start: usize, n: usize, k: usize) -> (r: Vec<Vec<usize>>)
    requires
        start <= n,
    ensures
        index_lists(r@) == combinations(start as int, n as int, k as nat),
        forall|i: int, j: int|
            0 <= i < r@.len() && 0 <= j < r@[i]@.len() ==> start <= #[trigger] r@[i]@[j] < n,
    decreases k, n - start,
{
    let mut out: Vec<Vec<usize>> = Vec::new();
    if k == 0 || n - start < k {
        assert(index_lists(out@) =~= Seq::<Seq<int>>::empty());
        return out;
    }
    if k == 1 {
        let mut j: usize = start;
        while j < n
            invariant
                start <= j <= n,
                out@.len() == j - start,
                forall|i: int|
                    0 <= i < out@.len() ==> (#[trigger] out@[i])@ == seq![(start + i) as usize],
            decreases n - j,
        {
            let mut one: Vec<usize> = Vec::new();
            one.push(j);
            out.push(one);
            j += 1;
        }
        assert(index_lists(out@) =~= combinations(start as int, n as int, 1)) by {
            assert forall|i: int| 0 <= i < out@.len() implies index_lists(out@)[i] =~= seq![
                start as int + i,
            ] by {
                assert(out@[i]@ == seq![(start + i) as usize]);
            }
        }
        return out;
    }
    let with = combinations_from(start + 1, n, k - 1);
    let ghost with_spec = combinations(start as int + 1, n as int, (k - 1) as nat);
    let mut i: usize = 0;
    while i < with.len()
        invariant
            i <= with.len(),
            start < n,
            out@.len() == i,
            index_lists(with@) == with_spec,
            forall|a: int, b: int|
                0 <= a < with@.len() && 0 <= b < with@[a]@.len() ==> start + 1
                    <= #[trigger] with@[a]@[b] < n,
            forall|a: int|
                0 <= a < i ==> Seq::new(
                    (#[trigger] out@[a])@.len(),
                    |b: int| out@[a]@[b] as int,
                ) == seq![start as int] + with_spec[a],
            forall|a: int, b: int|
                0 <= a < out@.len() && 0 <= b < out@[a]@.len() ==> start <= #[trigger] out@[a]@[b]
                    < n,
        decreases with.len() - i,
    {
        let rest = &with[i];
        let mut choice: Vec<usize> = Vec::new();
        choice.push(start);
        let mut b: usize = 0;
        while b < rest.len()
            invariant
                b <= rest.len(),
                start < n,
                choice@ == seq![start] + rest@.take(b as int),
                forall|c: int| 0 <= c < rest@.len() ==> start + 1 <= #[trigger] rest@[c] < n,
            decreases rest.len() - b,
        {
            choice.push(rest[b]);
            assert(choice@ =~= seq![start] + rest@.take(b + 1));
            b += 1;
        }
        assert(rest@.take(rest.len() as int) =~= rest@);
        proof {
            assert(index_lists(with@)[i as int] == with_spec[i as int]);
            assert(Seq::new(choice@.len(), |b: int| choice@[b] as int) =~= seq![start as int]
                + with_spec[i as int]);
        }
        out.push(choice);
        i += 1;
    }
    let mut without = combinations_from(start + 1, n, k);
    let ghost first = out@;
    let ghost second = without@;
    out.append(&mut without);
    proof {
        assert(out@ =~= first + second);
        let total = combinations(start as int, n as int, k as nat);
        let lists = index_lists(out@);
        assert(lists.len() == total.len());
        assert forall|a: int| 0 <= a < lists.len() implies lists[a] == total[a] by {
            if a < first.len() {
                assert(out@[a] == first[a]);
            } else {
                assert(out@[a] == second[a - first.len()]);
                assert(index_lists(second)[a - first.len()] == combinations(
                    start as int + 1,
                    n as int,
                    k as nat,
                )[a - first.len()]);
            }
        }
        assert(lists =~= total);
        assert forall|a: int, b: int| 0 <= a < out@.len() && 0 <= b < out@[a]@.len() implies start
            <= #[trigger] out@[a]@[b] < n by {
            if a < first.len() {
                assert(out@[a] == first[a]);
            } else {
                assert(out@[a] == second[a - first.len()]);
            }
        }
    }
    out
}

/// The ways to choose `k` of the indices `0..n`, in lexicographic order.
pub fn get_combinations(n: usize, k: usize) -> (r: Vec<Vec<usize>>)
    ensures
        index_lists(r@) == combinations(0, n as int, k as nat),
        forall|i: int, j: int|
            0 <= i < r@.len() && 0 <= j < r@[i]@.len() ==> #[trigger] r@[i]@[j] < n,
{
    combinations_from(0, n, k)
}

} // verus!
