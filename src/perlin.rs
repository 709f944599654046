use rand::Rng;
use vstd::arithmetic::div_mod::{lemma_mod_mod, lemma_small_mod};
use vstd::arithmetic::power2::{lemma_pow2_adds, lemma_pow2_pos, pow2};
use vstd::bits::{lemma_u32_low_bits_mask_is_mod, low_bits_mask};
use vstd::prelude::*;

verus! {

/// `n` is a power of two that fits in a `u32`.
pub open spec fn is_pow2(n: nat) -> bool {
    exists|k: nat| k < 32 && n == pow2(k)
}

/// `s` lists `n` distinct values, each below `n`: an arrangement of `0..n`.
pub open spec fn is_permutation(s: Seq<u32>, n: nat) -> bool {
    &&& s.len() == n
    &&& forall|i: int| 0 <= i < s.len() ==> (#[trigger] s[i]) < n
    &&& forall|i: int, j: int|
        0 <= i < s.len() && 0 <= j < s.len() && i != j ==> s[i] != s[j]
}

/// Relies on rand's `Rng::gen_range` on the thread-local generator: a value
/// drawn from `0..bound`, which panics only when the range is empty.
#[verifier::external_body]
fn random_below(bound: usize) -> (r: usize)
    requires
        bound > 0,
    ensures
        r < bound,
{
    rand::thread_rng().gen_range(0..bound)
}

/// `s` with the entries in slots `i` and `j` exchanged.
pub open spec fn swap_slots(s: Seq<u32>, i: int, j: int) -> Seq<u32> {
    s.update(i, s[j]).update(j, s[i])
}

/// `s` after slot `i - 1`, then slot `i - 2`, and so on down to slot 1, has
/// each been exchanged with slot `targets[slot]`.
pub open spec fn swaps_below(s: Seq<u32>, targets: Seq<usize>, i: nat) -> Seq<u32>
    decreases i,
{
    if i <= 1 {
        s
    } else {
        swaps_below(swap_slots(s, i - 1, targets[i - 1] as int), targets, (i - 1) as nat)
    }
}

/// `s` with every slot from the last down to the second exchanged with slot
/// `targets[slot]`.
pub open spec fn swapped(s: Seq<u32>, targets: Seq<usize>) -> Seq<u32> {
    swaps_below(s, targets, s.len())
}

/// Every slot but the first names a slot strictly below it.
pub open spec fn targets_below(targets: Seq<usize>) -> bool {
    forall|i: int| 1 <= i < targets.len() ==> #[trigger] targets[i] < i
}

/// No entry of `r` stands where it stood in `s`.
pub open spec fn moves_every_entry(s: Seq<u32>, r: Seq<u32>) -> bool {
    forall|k: int| 0 <= k < r.len() ==> #[trigger] r[k] != s[k]
}

/// The identity arrangement `0, 1, ..., n - 1`, shuffled by `permute`; with two
/// or more slots no slot holds its own index.
pub fn generate_perm(n: u32) -> (r: Vec<u32>)
    ensures
        is_permutation(r@, n as nat),
        n >= 2 ==> forall|k: int| 0 <= k < n ==> #[trigger] r@[k] != k,
{
    let mut perm: Vec<u32> = Vec::new();
    let mut i: u32 = 0;
    while i < n
        invariant
            i <= n,
            perm@.len() == i,
            forall|j: int| 0 <= j < i ==> perm@[j] == j,
        decreases n - i,
    {
        perm.push(i);
        i = i + 1;
    }
    let ghost identity = perm@;
    let r = permute(perm);
    assert forall|k: int| 0 <= k < n implies #[trigger] identity[k] == k by {}
    r
}

/// Shuffles `perm`: from the last slot down to the second, each slot is
/// exchanged with a slot drawn at random strictly below it. The result holds
/// the same entries; an arrangement of two or more slots comes out with no
/// entry where it was.
pub fn permute(perm: Vec<u32>) -> (r: Vec<u32>)
    ensures
        r@.len() == perm@.len(),
        r@.to_multiset() == perm@.to_multiset(),
        is_permutation(perm@, perm@.len()) ==> is_permutation(r@, perm@.len()),
        perm@.len() >= 2 && is_permutation(perm@, perm@.len()) ==> moves_every_entry(perm@, r@),
{
    let n = perm.len();
    let mut targets: Vec<usize> = Vec::new();
    let mut i: usize = 0;
    while i < n
        invariant
            i <= n,
            targets@.len() == i,
            targets_below(targets@),
        decreases n - i,
    {
        let t = if i == 0 { 0 } else { random_below(i) };
        targets.push(t);
        i = i + 1;
    }
    apply_swaps(perm, &targets)
}

/// Exchanges each slot `i`, from the last down to the second, with slot
/// `targets[i]`, which lies strictly below it.
pub fn apply_swaps(perm: Vec<u32>, targets: &Vec<usize>) -> (r: Vec<u32>)
    requires
        targets@.len() == perm@.len(),
        targets_below(targets@),
    ensures
        r@ == swapped(perm@, targets@),
        r@.len() == perm@.len(),
        r@.to_multiset() == perm@.to_multiset(),
        is_permutation(perm@, perm@.len()) ==> is_permutation(r@, perm@.len()),
        perm@.len() >= 2 && is_permutation(perm@, perm@.len()) ==> moves_every_entry(perm@, r@),
{
    let ghost start = perm@;
    let ghost n = perm@.len();
    let mut perm = perm;
    let mut i: usize = perm.len();
    while i > 1
        invariant
            i <= n,
            n == targets@.len(),
            targets_below(targets@),
            perm@.len() == n,
            swaps_below(perm@, targets@, i as nat) == swapped(start, targets@),
            perm@.to_multiset() == start.to_multiset(),
            is_permutation(start, n) ==> is_permutation(perm@, n),
            // Entries that started in the unsettled slots are not in another unsettled slot.
            is_permutation(start, n) ==> forall|j: int, k: int|
                0 <= j < i && 0 <= k < i && j != k ==> #[trigger] perm@[j] != #[trigger] start[k],
            // Settled slots no longer hold their first entry.
            is_permutation(start, n) ==> forall|k: int| i <= k < n ==> #[trigger] perm@[k] != start[k],
            is_permutation(start, n) && n >= 2 && i <= 1 ==> perm@[0] != start[0],
        decreases i,
    {
        i = i - 1;
        let target = targets[i];
        let a = perm[i];
        let b = perm[target];
        let ghost before = perm@;
        perm.set(i, b);
        perm.set(target, a);
        proof {
            broadcast use vstd::seq_lib::to_multiset_update, vstd::multiset::group_multiset_axioms;
            broadcast use vstd::seq_lib::to_multiset_contains;

            assert(perm@ == swap_slots(before, i as int, target as int));
            let mid = before.update(i as int, b);
            assert(perm@ == mid.update(target as int, a));
            assert(mid[target as int] == b);
            assert(before.contains(a));
            let m = before.to_multiset();
            assert(m.count(a) > 0);
            assert(mid.to_multiset() == m.insert(b).remove(a));
            assert(perm@.to_multiset() == m.insert(b).remove(a).insert(a).remove(b));
            assert(m.insert(b).remove(a).insert(a).remove(b) =~= m);
            if is_permutation(start, n) {
                assert(b != start[i as int]);
                assert forall|j: int, k: int|
                    0 <= j < i && 0 <= k < i && j != k implies #[trigger] perm@[j]
                    != #[trigger] start[k] by {
                    if j == target {
                        assert(perm@[j] == before[i as int]);
                    }
                }
                assert forall|k: int| i <= k < n implies #[trigger] perm@[k] != start[k] by {
                    if k == i {
                        assert(perm@[k] == before[target as int]);
                    }
                }
                if n >= 2 && i <= 1 {
                    assert(target == 0);
                    assert(perm@[0] == before[1]);
                    assert(before[1] != start[0]);
                }
            }
        }
    }
    proof {
        if is_permutation(start, n) && n >= 2 {
            assert forall|k: int| 0 <= k < n implies #[trigger] perm@[k] != start[k] by {
                if k == 0 {
                    assert(perm@[0] != start[0]);
                }
            }
        }
    }
    perm
}

/// `(c + d) mod n`, computed as the low bits of the wrapped sum.
fn wrap_to_table(c: i32, d: u32, n: u32) -> (r: usize)
    requires
        is_pow2(n as nat),
    ensures
        r as int == (c + d) % (n as int),
        r < n,
{
    let ghost k = choose|k: nat| k < 32 && n == pow2(k);
    proof {
        lemma_pow2_pos(k);
    }
    let x: u32 = d.wrapping_add_signed(c);
    let m: u32 = n - 1;
    proof {
        assert(m == low_bits_mask(k) as u32);
        lemma_u32_low_bits_mask_is_mod(x, k);
        let v: int = c + d;
        let big: int = 0x1_0000_0000;
        assert(x as int == v % big);
        lemma_pow2_adds(k, (32 - k) as nat);
        vstd::arithmetic::power2::lemma2_to64();
        lemma_pow2_pos((32 - k) as nat);
        assert(n * pow2((32 - k) as nat) == big);
        lemma_mod_mod(v, n as int, pow2((32 - k) as nat) as int);
    }
    (x & m) as usize
}

/// Combining two table entries keeps the result inside the table.
proof fn lemma_xor_below(a: u32, b: u32, n: u32)
    requires
        is_pow2(n as nat),
        a < n,
        b < n,
    ensures
        a ^ b < n,
{
    let k = choose|k: nat| k < 32 && n == pow2(k);
    lemma_pow2_pos(k);
    let m = (n - 1) as u32;
    assert(m == low_bits_mask(k) as u32);
    lemma_u32_low_bits_mask_is_mod(a, k);
    lemma_u32_low_bits_mask_is_mod(b, k);
    lemma_u32_low_bits_mask_is_mod(a ^ b, k);
    lemma_small_mod(a as nat, n as nat);
    lemma_small_mod(b as nat, n as nat);
    assert((a ^ b) & m == a ^ b) by (bit_vector)
        requires
            a & m == a,
            b & m == b,
    ;
}

/// The three shuffled axis tables that assign a gradient slot to every
/// integer lattice corner.
#[derive(Debug, Clone)]
pub struct Lattice {
    n: u32,
    perm_x: Vec<u32>,
    perm_y: Vec<u32>,
    perm_z: Vec<u32>,
}

impl Lattice {
    /// Number of slots in each table.
    pub closed spec fn size(&self) -> nat {
        self.n as nat
    }

    pub closed spec fn xs(&self) -> Seq<u32> {
        self.perm_x@
    }

    pub closed spec fn ys(&self) -> Seq<u32> {
        self.perm_y@
    }

    pub closed spec fn zs(&self) -> Seq<u32> {
        self.perm_z@
    }

    pub open spec fn wf(&self) -> bool {
        &&& is_pow2(self.size())
        &&& is_permutation(self.xs(), self.size())
        &&& is_permutation(self.ys(), self.size())
        &&& is_permutation(self.zs(), self.size())
    }

    /// The slot for lattice coordinate `c`: `c` reduced modulo the table size.
    pub open spec fn slot(&self, c: int) -> int {
        c % (self.size() as int)
    }

    /// The gradient slot of corner `(i, j, k)`: the three axis entries xor-ed.
    pub open spec fn corner_slot(&self, i: int, j: int, k: int) -> u32 {
        self.xs()[self.slot(i)] ^ self.ys()[self.slot(j)] ^ self.zs()[self.slot(k)]
    }

    /// Three independently shuffled tables of `n` slots; `n` must be a power
    /// of two so that reducing a coordinate is a bit mask.
    pub fn new(n: u32) -> (r: Lattice)
        requires
            is_pow2(n as nat),
        ensures
            r.wf(),
            r.size() == n,
            n >= 2 ==> forall|k: int| 0 <= k < n ==> #[trigger] r.xs()[k] != k,
            n >= 2 ==> forall|k: int| 0 <= k < n ==> #[trigger] r.ys()[k] != k,
            n >= 2 ==> forall|k: int| 0 <= k < n ==> #[trigger] r.zs()[k] != k,
    {
        Lattice { n, perm_x: generate_perm(n), perm_y: generate_perm(n), perm_z: generate_perm(n) }
    }

    pub fn dim(&self) -> (r: u32)
        ensures
            r == self.size(),
    {
        self.n
    }

    /// The gradient slot of the corner at `(i + di, j + dj, k + dk)`.
    pub fn corner(&self, i: i32, j: i32, k: i32, di: u32, dj: u32, dk: u32) -> (r: usize)
        requires
            self.wf(),
        ensures
            r == self.corner_slot(i + di, j + dj, k + dk),
            r < self.size(),
    {
        let a = self.perm_x[wrap_to_table(i, di, self.n)];
        let b = self.perm_y[wrap_to_table(j, dj, self.n)];
        let c = self.perm_z[wrap_to_table(k, dk, self.n)];
        proof {
            lemma_xor_below(a, b, self.n);
            lemma_xor_below(a ^ b, c, self.n);
        }
        (a ^ b ^ c) as usize
    }
}

} // verus!
