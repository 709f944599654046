use vstd::prelude::*;

verus! {

/// The sign bit of an f64 bit pattern.
pub const SIGN_BIT: u64 = 0x8000_0000_0000_0000;

/// The total order that IEEE 754 defines on f64 bit patterns: every pattern with
/// the sign bit set lies below every pattern without it; without the sign bit a
/// larger magnitude is larger, with it a larger magnitude is smaller.
pub open spec fn total_order_lt(a: u64, b: u64) -> bool {
    if a >= SIGN_BIT && b < SIGN_BIT {
        true
    } else if a < SIGN_BIT && b >= SIGN_BIT {
        false
    } else if a < SIGN_BIT {
        a < b
    } else {
        b < a
    }
}

/// An unsigned key that sorts f64 bit patterns in their total order: negative
/// patterns have all bits flipped, the others only their sign bit.
pub open spec fn order_key_of(bits: u64) -> u64 {
    if bits >= SIGN_BIT {
        !bits
    } else {
        bits | SIGN_BIT
    }
}

/// Keys compare exactly as the patterns do in the total order.
pub proof fn lemma_order_key_orders(a: u64, b: u64)
    ensures
        total_order_lt(a, b) <==> order_key_of(a) < order_key_of(b),
        a == b <==> order_key_of(a) == order_key_of(b),
{
    assert(total_order_lt(a, b) <==> order_key_of(a) < order_key_of(b)) by (bit_vector);
    assert(a == b <==> order_key_of(a) == order_key_of(b)) by (bit_vector);
}

/// The sort key of an f64 given by its bit pattern (`f64::to_bits`); unlike a
/// partial comparison it orders every pattern, NaN included.
pub fn order_key(bits: u64) -> (r: u64)
    ensures
        r == order_key_of(bits),
{
    if bits >= SIGN_BIT {
        !bits
    } else {
        bits | SIGN_BIT
    }
}

/// The axis (0 = x, 1 = y, 2 = z) to split a box along, given the order keys
/// of its three extents: the largest one, preferring x over z and z over y
/// among equal extents.
pub fn longest_axis(x: u64, y: u64, z: u64) -> (r: u8)
    ensures
        r <= 2,
        r == 0 ==> x >= y && x >= z,
        r == 1 ==> y > x && y > z,
        r == 2 ==> z > x && z >= y,
{
    if x >= y && x >= z {
        0
    } else if z >= y {
        2
    } else {
        1
    }
}

/// `order` lists each of `0..n` exactly once.
pub open spec fn is_index_order(order: Seq<usize>, n: nat) -> bool {
    &&& order.len() == n
    &&& forall|i: int| 0 <= i < order.len() ==> (#[trigger] order[i]) < n
    &&& forall|i: int, j: int|
        0 <= i < order.len() && 0 <= j < order.len() && i != j ==> order[i] != order[j]
}

/// Between positions `lo` and `hi` of `order`, the keys of the listed objects
/// never decrease.
pub open spec fn sorted_between(keys: Seq<u64>, order: Seq<usize>, lo: int, hi: int) -> bool {
    forall|a: int, b: int|
        lo <= a <= b < hi ==> #[trigger] keys[order[a] as int] <= #[trigger] keys[order[b] as int]
}

/// Following `order` from the start, the keys never decrease.
pub open spec fn sorted_by_key(keys: Seq<u64>, order: Seq<usize>) -> bool {
    sorted_between(keys, order, 0, order.len() as int)
}

/// Between positions `lo` and `hi` of `order`, objects with equal keys are
/// listed in increasing index order.
pub open spec fn stable_between(keys: Seq<u64>, order: Seq<usize>, lo: int, hi: int) -> bool {
    forall|a: int, b: int|
        lo <= a < b < hi && #[trigger] keys[order[a] as int] == #[trigger] keys[order[b] as int]
            ==> order[a] < order[b]
}

/// Following `order` from the start, objects with equal keys keep their index order.
pub open spec fn stable_by_key(keys: Seq<u64>, order: Seq<usize>) -> bool {
    stable_between(keys, order, 0, order.len() as int)
}

/// The indices `0..n` in order of their keys (insertion sort; equal keys keep
/// their index order).
fn sort_by_key(keys: &Vec<u64>) -> (order: Vec<usize>)
    ensures
        is_index_order(order@, keys@.len() as nat),
        sorted_by_key(keys@, order@),
        stable_by_key(keys@, order@),
{
    let n = keys.len();
    let mut order: Vec<usize> = Vec::new();
    let mut i: usize = 0;
    while i < n
        invariant
            i <= n,
            n == keys@.len(),
            order@.len() == i,
            forall|j: int| 0 <= j < i ==> order@[j] == j,
        decreases n - i,
    {
        order.push(i);
        i = i + 1;
    }
    let mut i: usize = 0;
    while i < n
        invariant
            i <= n,
            n == keys@.len(),
            is_index_order(order@, n as nat),
            sorted_between(keys@, order@, 0, i as int),
            stable_between(keys@, order@, 0, i as int),
            forall|a: int| 0 <= a < i ==> #[trigger] order@[a] < i,
            forall|a: int| i <= a < n ==> #[trigger] order@[a] == a,
        decreases n - i,
    {
        let mut j: usize = i;
        while j > 0 && keys[order[j - 1]] > keys[order[j]]
            invariant
                j <= i < n,
                n == keys@.len(),
                is_index_order(order@, n as nat),
                order@[j as int] == i,
                forall|a: int| 0 <= a <= i && a != j ==> #[trigger] order@[a] < i,
                forall|a: int| i < a < n ==> #[trigger] order@[a] == a,
                sorted_between(keys@, order@, 0, j as int),
                sorted_between(keys@, order@, j as int, i + 1),
                forall|a: int, b: int|
                    0 <= a < j && j < b <= i ==> #[trigger] keys@[order@[a] as int]
                        <= #[trigger] keys@[order@[b] as int],
                stable_between(keys@, order@, 0, j as int),
                stable_between(keys@, order@, j + 1, i + 1),
                forall|a: int, b: int|
                    0 <= a < j && j < b <= i && #[trigger] keys@[order@[a] as int]
                        == #[trigger] keys@[order@[b] as int] ==> order@[a] < order@[b],
                forall|b: int| j < b <= i ==> #[trigger] keys@[order@[b] as int] > keys@[i as int],
            decreases j,
        {
            let a = order[j - 1];
            let b = order[j];
            order.set(j - 1, b);
            order.set(j, a);
            j = j - 1;
        }
        proof {
            assert forall|a: int, b: int| 0 <= a <= b < i + 1 implies #[trigger] keys@[order@[a] as int]
                <= #[trigger] keys@[order@[b] as int] by {
                if a < j && b == j {
                    assert(keys@[order@[a] as int] <= keys@[order@[j - 1] as int]);
                }
            }
            assert forall|a: int, b: int|
                0 <= a < b < i + 1 && #[trigger] keys@[order@[a] as int]
                    == #[trigger] keys@[order@[b] as int] implies order@[a] < order@[b] by {
                if a == j {
                    assert(keys@[order@[b] as int] > keys@[i as int]);
                }
            }
        }
        i = i + 1;
    }
    order
}

/// How a hierarchy node divides its objects, given each object's sort key on
/// the chosen axis.
pub enum Split {
    /// A single object, held directly with no further split.
    Leaf(usize),
    /// Two objects, one per side, in their given order.
    Pair(usize, usize),
    /// The objects in key order (equal keys by index), cut at the middle index:
    /// the first half goes left.
    Halves(Vec<usize>, Vec<usize>),
}

/// The median split of a node over `keys.len()` objects: one object is a leaf,
/// two become a pair without sorting, more are sorted by key and halved.
pub fn split(keys: &Vec<u64>) -> (r: Option<Split>)
    ensures
        keys@.len() == 0 <==> r is None,
        keys@.len() == 1 <==> r == Some(Split::Leaf(0)),
        keys@.len() == 2 <==> r == Some(Split::Pair(0, 1)),
        keys@.len() >= 3 ==> (r matches Some(Split::Halves(left, right))
            && left@.len() == keys@.len() / 2
            && is_index_order(left@ + right@, keys@.len() as nat)
            && sorted_by_key(keys@, left@ + right@)
            && stable_by_key(keys@, left@ + right@)),
{
    let n = keys.len();
    if n == 0 {
        None
    } else if n == 1 {
        Some(Split::Leaf(0))
    } else if n == 2 {
        Some(Split::Pair(0, 1))
    } else {
        let mut left = sort_by_key(keys);
        let ghost order = left@;
        let right = left.split_off(n / 2);
        assert(left@ + right@ =~= order);
        Some(Split::Halves(left, right))
    }
}

} // verus!
