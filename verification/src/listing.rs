use vstd::prelude::*;

verus! {

/// The names, among the first `n` positions, of the flags whose bit (`bit(i)`
/// at position `i`) is in `bits`, in position order.
pub open spec fn listed(
    bits: u32,
    n: nat,
    bit: spec_fn(int) -> u32,
    name: spec_fn(int) -> Seq<char>,
) -> Seq<Seq<char>>
    decreases n,
{
    if n == 0 {
        Seq::empty()
    } else {
        let before = listed(bits, (n - 1) as nat, bit, name);
        if bits & bit(n - 1) == bit(n - 1) {
            before.push(name(n - 1))
        } else {
            before
        }
    }
}

/// When every position's name stands for that position's bit (`value(name(i))
/// == bit(i)`) and the bits increase with the position, a listing holds the
/// name of a position exactly when its bit is set, holds nothing but names of
/// set bits, and lists them in increasing bit order.
pub proof fn lemma_listed(
    bits: u32,
    n: nat,
    count: nat,
    bit: spec_fn(int) -> u32,
    name: spec_fn(int) -> Seq<char>,
    value: spec_fn(Seq<char>) -> u32,
)
    requires
        n <= count,
        forall|i: int| 0 <= i < count ==> #[trigger] value(name(i)) == bit(i),
        forall|i: int, j: int| 0 <= i < j < count ==> #[trigger] bit(i) < #[trigger] bit(j),
    ensures
        forall|i: int|
            0 <= i < count ==> (#[trigger] listed(bits, n, bit, name).contains(name(i)) <==> (i < n
                && bits & bit(i) == bit(i))),
        forall|k: int|
            #![trigger listed(bits, n, bit, name)[k]]
            0 <= k < listed(bits, n, bit, name).len() ==> exists|i: int|
                0 <= i < n && #[trigger] name(i) == listed(bits, n, bit, name)[k] && bits & bit(i)
                    == bit(i),
        forall|k1: int, k2: int|
            0 <= k1 < k2 < listed(bits, n, bit, name).len() ==> #[trigger] value(
                listed(bits, n, bit, name)[k1],
            ) < #[trigger] value(listed(bits, n, bit, name)[k2]),
    decreases n,
{
    if n > 0 {
        let m = (n - 1) as nat;
        lemma_listed(bits, m, count, bit, name, value);
        let before = listed(bits, m, bit, name);
        let after = listed(bits, n, bit, name);
        if bits & bit(m as int) == bit(m as int) {
            assert(after == before.push(name(m as int)));
            assert forall|i: int| 0 <= i < count implies (#[trigger] after.contains(name(i)) <==> (i
                < n && bits & bit(i) == bit(i))) by {
                if after.contains(name(i)) {
                    let k = choose|k: int| 0 <= k < after.len() && after[k] == name(i);
                    if k < before.len() {
                        assert(before[k] == name(i));
                        assert(before.contains(name(i)));
                    } else {
                        assert(name(i) == name(m as int));
                        assert(value(name(i)) == value(name(m as int)));
                        if i < m {
                            assert(bit(i) < bit(m as int));
                        } else if i > m {
                            assert(bit(m as int) < bit(i));
                        }
                    }
                }
                if i < n && bits & bit(i) == bit(i) {
                    if i < m {
                        assert(before.contains(name(i)));
                        let k = choose|k: int| 0 <= k < before.len() && before[k] == name(i);
                        assert(after[k] == name(i));
                    } else {
                        assert(after[before.len() as int] == name(i));
                    }
                }
            }
            assert forall|k: int| #![trigger after[k]] 0 <= k < after.len() implies exists|i: int|
                0 <= i < n && #[trigger] name(i) == after[k] && bits & bit(i) == bit(i) by {
                if k < before.len() {
                    assert(after[k] == before[k]);
                } else {
                    assert(name(m as int) == after[k]);
                }
            }
            assert forall|k1: int, k2: int| 0 <= k1 < k2 < after.len() implies #[trigger] value(
                after[k1],
            ) < #[trigger] value(after[k2]) by {
                assert(after[k1] == before[k1]);
                if k2 < before.len() {
                    assert(after[k2] == before[k2]);
                } else {
                    let i = choose|i: int|
                        0 <= i < m && #[trigger] name(i) == before[k1] && bits & bit(i) == bit(i);
                    assert(value(before[k1]) == bit(i));
                    assert(after[k2] == name(m as int));
                    assert(bit(i) < bit(m as int));
                }
            }
        } else {
            assert(after == before);
            assert forall|i: int| 0 <= i < count implies (#[trigger] after.contains(name(i)) <==> (i
                < n && bits & bit(i) == bit(i))) by {
                assert(before.contains(name(i)) <==> (i < m && bits & bit(i) == bit(i)));
            }
            assert forall|k: int| #![trigger after[k]] 0 <= k < after.len() implies exists|i: int|
                0 <= i < n && #[trigger] name(i) == after[k] && bits & bit(i) == bit(i) by {
                let i = choose|i: int|
                    0 <= i < m && #[trigger] name(i) == before[k] && bits & bit(i) == bit(i);
                assert(name(i) == after[k]);
            }
        }
    }
}

} // verus!
