//! Element-wise transformations and aggregations over vectors of integers.
use vstd::prelude::*;

verus! {

/// Whether `x` is even.
pub open spec fn is_even(x: i32) -> bool {
    x % 2 == 0
}

/// The predicate that keeps the even elements.
pub open spec fn even() -> spec_fn(i32) -> bool {
    |x: i32| is_even(x)
}

/// Keeps the even elements of `v`, in order.
pub fn evens(v: &Vec<i32>) -> (r: Vec<i32>)
    ensures
        r@ == v@.filter(even()),
{
    let mut r: Vec<i32> = Vec::new();
    let mut i: usize = 0;
    while i < v.len()
        invariant
            i <= v.len(),
            r@ == v@.subrange(0, i as int).filter(even()),
        decreases v.len() - i,
    {
        let x = v[i];
        proof {
            let pre = v@.subrange(0, i as int + 1);
            assert(pre.drop_last() == v@.subrange(0, i as int));
            assert(pre.last() == x);
            reveal(Seq::filter);
        }
        if x % 2 == 0 {
            r.push(x);
        }
        i = i + 1;
    }
    assert(v@.subrange(0, v.len() as int) == v@);
    r
}

/// Adds one to an element.
pub open spec fn plus_one() -> spec_fn(i32) -> i32 {
    |x: i32| (x + 1) as i32
}

/// Doubles an element.
pub open spec fn doubled() -> spec_fn(i32) -> i32 {
    |x: i32| (2 * x) as i32
}

/// The sum of the elements of `s`, folded from the left starting at zero.
pub open spec fn sum_of(s: Seq<i32>) -> int {
    s.fold_left(0int, |acc: int, x: i32| acc + x)
}

/// A new vector holding each element of `v` plus one.
pub fn incremented(v: &Vec<i32>) -> (r: Vec<i32>)
    requires
        forall|i: int| 0 <= i < v.len() ==> v[i] < i32::MAX,
    ensures
        r@ == v@.map_values(plus_one()),
{
    let mut r: Vec<i32> = Vec::new();
    let mut i: usize = 0;
    while i < v.len()
        invariant
            i <= v.len(),
            forall|j: int| 0 <= j < v.len() ==> v[j] < i32::MAX,
            r@ == v@.subrange(0, i as int).map_values(plus_one()),
        decreases v.len() - i,
    {
        r.push(v[i] + 1);
        i = i + 1;
        assert(r@ =~= v@.subrange(0, i as int).map_values(plus_one()));
    }
    assert(v@.subrange(0, v.len() as int) == v@);
    r
}

/// Keeps the even elements of `v`, in order, each doubled.
pub fn doubled_evens(v: &Vec<i32>) -> (r: Vec<i32>)
    requires
        forall|i: int| 0 <= i < v.len() && is_even(v[i]) ==> i32::MIN <= 2 * v[i] <= i32::MAX,
    ensures
        r@ == v@.filter(even()).map_values(doubled()),
{
    let mut r: Vec<i32> = Vec::new();
    let mut i: usize = 0;
    while i < v.len()
        invariant
            i <= v.len(),
            forall|j: int| 0 <= j < v.len() && is_even(v[j]) ==> i32::MIN <= 2 * v[j] <= i32::MAX,
            r@ == v@.subrange(0, i as int).filter(even()).map_values(doubled()),
        decreases v.len() - i,
    {
        let x = v[i];
        let ghost pre = v@.subrange(0, i as int + 1);
        proof {
            assert(pre.drop_last() == v@.subrange(0, i as int));
            assert(pre.last() == x);
            reveal(Seq::filter);
        }
        if x % 2 == 0 {
            r.push(2 * x);
        }
        i = i + 1;
        assert(r@ =~= pre.filter(even()).map_values(doubled()));
    }
    assert(v@.subrange(0, v.len() as int) == v@);
    r
}

/// The sum of the elements of `v`.
pub fn total(v: &Vec<i32>) -> (r: i32)
    requires
        forall|k: int| 0 <= k <= v.len() ==> i32::MIN <= #[trigger] sum_of(v@.subrange(0, k)) <= i32::MAX,
    ensures
        r == sum_of(v@),
{
    let mut acc: i32 = 0;
    let mut i: usize = 0;
    assert(v@.subrange(0, 0) =~= Seq::<i32>::empty());
    while i < v.len()
        invariant
            i <= v.len(),
            forall|k: int| 0 <= k <= v.len() ==> i32::MIN <= #[trigger] sum_of(v@.subrange(0, k)) <= i32::MAX,
            acc == sum_of(v@.subrange(0, i as int)),
        decreases v.len() - i,
    {
        let ghost pre = v@.subrange(0, i as int + 1);
        assert(pre.drop_last() == v@.subrange(0, i as int));
        assert(sum_of(pre) == acc + v[i as int]);
        acc = acc + v[i];
        i = i + 1;
    }
    assert(v@.subrange(0, v.len() as int) == v@);
    acc
}

/// Adds one to each element of `v`, in place.
pub fn increment_each(v: &mut Vec<i32>)
    requires
        forall|i: int| 0 <= i < old(v).len() ==> old(v)[i] < i32::MAX,
    ensures
        final(v)@ == old(v)@.map_values(plus_one()),
{
    let ghost orig = v@;
    let mut i: usize = 0;
    while i < v.len()
        invariant
            i <= v.len(),
            v.len() == orig.len(),
            forall|j: int| 0 <= j < orig.len() ==> orig[j] < i32::MAX,
            forall|j: int| 0 <= j < i ==> v[j] == (orig[j] + 1) as i32,
            forall|j: int| i <= j < v.len() ==> v[j] == orig[j],
        decreases v.len() - i,
    {
        let x = v[i];
        assert(x == orig[i as int]);
        v.set(i, x + 1);
        i = i + 1;
    }
    assert(v@ =~= orig.map_values(plus_one()));
}

} // verus!
