//! The permutation table: a seeded shuffle of a fixed ordering of the bytes,
//! stored twice in a row so that lattice lookups may add a small offset to an
//! index without reducing it again.
use vstd::prelude::*;
use nanorand::{Pcg64, Rng};
use crate::lattice::{modulo, Offset3};

verus! {

/// The fixed reference ordering of the byte values that every table starts from.
pub open spec fn reference_order() -> Seq<u8> {
    seq![
        151, 160, 137, 91, 90, 15, 131, 13, 201, 95, 96, 53, 194, 233, 7, 225, 140, 36, 103, 30,
        69, 142, 8, 99, 37, 240, 21, 10, 23, 190, 6, 148, 247, 120, 234, 75, 0, 26, 197, 62, 94,
        252, 219, 203, 117, 35, 11, 32, 57, 177, 33, 88, 237, 149, 56, 87, 174, 20, 125, 136,
        171, 168, 68, 175, 74, 165, 71, 134, 139, 48, 27, 166, 77, 146, 158, 231, 83, 111, 229,
        122, 60, 211, 133, 230, 220, 105, 92, 41, 55, 46, 245, 40, 244, 102, 143, 54, 65, 25, 63,
        161, 1, 216, 80, 73, 209, 76, 132, 187, 208, 89, 18, 169, 200, 196, 135, 130, 116, 188,
        159, 86, 164, 100, 109, 198, 173, 186, 3, 64, 52, 217, 226, 250, 124, 123, 5, 202, 38,
        147, 118, 126, 255, 82, 85, 212, 207, 206, 59, 227, 47, 16, 58, 17, 182, 189, 28, 42,
        223, 183, 170, 213, 119, 248, 152, 2, 44, 154, 163, 70, 221, 153, 101, 155, 167, 43, 172,
        9, 129, 22, 39, 253, 19, 98, 108, 110, 79, 113, 224, 232, 178, 185, 112, 104, 218, 246,
        97, 228, 251, 34, 242, 193, 238, 210, 144, 12, 191, 179, 162, 241, 81, 51, 145, 235, 249,
        14, 239, 107, 49, 192, 214, 31, 181, 199, 106, 157, 184, 84, 204, 176, 115, 121, 50, 45,
        127, 4, 150, 254, 138, 236, 205, 93, 222, 114, 67, 29, 24, 72, 243, 141, 128, 195, 78,
        66, 215, 61, 156, 180
    ]
}

/// For each byte value, its position in `reference_order`.
spec fn reference_position() -> Seq<u8> {
    seq![
        36, 100, 163, 126, 233, 134, 30, 14, 22, 175, 27, 46, 203, 7, 213, 5, 149, 151, 110, 180,
        57, 26, 177, 28, 244, 97, 37, 70, 154, 243, 19, 219, 47, 50, 197, 45, 17, 24, 136, 178,
        91, 87, 155, 173, 164, 231, 89, 148, 69, 216, 230, 209, 128, 11, 95, 88, 54, 48, 150,
        146, 80, 253, 39, 98, 127, 96, 251, 242, 62, 20, 167, 66, 245, 103, 64, 35, 105, 72, 250,
        184, 102, 208, 141, 76, 225, 142, 119, 55, 51, 109, 4, 3, 86, 239, 40, 9, 10, 194, 181,
        23, 121, 170, 93, 18, 191, 85, 222, 215, 182, 122, 183, 77, 190, 185, 241, 228, 116, 44,
        138, 160, 33, 229, 79, 133, 132, 58, 139, 232, 248, 176, 115, 6, 106, 82, 67, 114, 59, 2,
        236, 68, 16, 247, 21, 94, 202, 210, 73, 137, 31, 53, 234, 0, 162, 169, 165, 171, 254,
        223, 74, 118, 1, 99, 206, 166, 120, 65, 71, 172, 61, 111, 158, 60, 174, 124, 56, 63, 227,
        49, 188, 205, 255, 220, 152, 157, 224, 189, 125, 107, 117, 153, 29, 204, 217, 199, 12,
        249, 113, 38, 123, 221, 112, 8, 135, 43, 226, 238, 145, 144, 108, 104, 201, 81, 143, 159,
        218, 252, 101, 129, 192, 42, 84, 168, 240, 156, 186, 15, 130, 147, 195, 78, 83, 75, 187,
        13, 34, 211, 237, 52, 200, 214, 25, 207, 198, 246, 92, 90, 193, 32, 161, 212, 131, 196,
        41, 179, 235, 140
    ]
}

/// Each byte value occurs exactly once among 256 entries.
pub open spec fn is_byte_permutation(s: Seq<u8>) -> bool {
    &&& s.len() == 256
    &&& s.no_duplicates()
    &&& forall|v: u8| s.contains(v)
}

proof fn lemma_reference_order_is_permutation()
    ensures
        is_byte_permutation(reference_order()),
{
    let s = reference_order();
    let p = reference_position();
    assert(s.len() == 256);
    assert(p.len() == 256);
    assert forall|i: int| 0 <= i < 256 implies p[s[i] as int] as int == i by {}
    assert forall|v: u8| s.contains(v) by {
        assert(s[p[v as int] as int] == v);
    }
    assert forall|i: int, j: int| 0 <= i < 256 && 0 <= j < 256 && i != j implies s[i] != s[j] by {
        assert(p[s[i] as int] as int == i);
        assert(p[s[j] as int] as int == j);
    }
}

/// A table whose first half is a permutation of the bytes and whose second
/// half repeats the first, entry by entry.
pub open spec fn is_valid_table(t: Seq<u8>) -> bool {
    &&& t.len() == 512
    &&& is_byte_permutation(t.subrange(0, 256))
    &&& forall|i: int| 0 <= i < 256 ==> t[i + 256] == #[trigger] t[i]
}

fn reference_array() -> (r: [u8; 256])
    ensures
        r@ == reference_order(),
{
    let r: [u8; 256] = [
        151, 160, 137, 91, 90, 15, 131, 13, 201, 95, 96, 53, 194, 233, 7, 225, 140, 36, 103, 30,
        69, 142, 8, 99, 37, 240, 21, 10, 23, 190, 6, 148, 247, 120, 234, 75, 0, 26, 197, 62, 94,
        252, 219, 203, 117, 35, 11, 32, 57, 177, 33, 88, 237, 149, 56, 87, 174, 20, 125, 136,
        171, 168, 68, 175, 74, 165, 71, 134, 139, 48, 27, 166, 77, 146, 158, 231, 83, 111, 229,
        122, 60, 211, 133, 230, 220, 105, 92, 41, 55, 46, 245, 40, 244, 102, 143, 54, 65, 25, 63,
        161, 1, 216, 80, 73, 209, 76, 132, 187, 208, 89, 18, 169, 200, 196, 135, 130, 116, 188,
        159, 86, 164, 100, 109, 198, 173, 186, 3, 64, 52, 217, 226, 250, 124, 123, 5, 202, 38,
        147, 118, 126, 255, 82, 85, 212, 207, 206, 59, 227, 47, 16, 58, 17, 182, 189, 28, 42,
        223, 183, 170, 213, 119, 248, 152, 2, 44, 154, 163, 70, 221, 153, 101, 155, 167, 43, 172,
        9, 129, 22, 39, 253, 19, 98, 108, 110, 79, 113, 224, 232, 178, 185, 112, 104, 218, 246,
        97, 228, 251, 34, 242, 193, 238, 210, 144, 12, 191, 179, 162, 241, 81, 51, 145, 235, 249,
        14, 239, 107, 49, 192, 214, 31, 181, 199, 106, 157, 184, 84, 204, 176, 115, 121, 50, 45,
        127, 4, 150, 254, 138, 236, 205, 93, 222, 114, 67, 29, 24, 72, 243, 141, 128, 195, 78,
        66, 215, 61, 156, 180
    ];
    assert(r@ =~= reference_order());
    r
}

/// The indices that a `Pcg64` seeded with `seed` draws, one below each bound
/// in turn.
pub uninterp spec fn pcg_draws(seed: u128, bounds: Seq<u64>) -> Seq<u64>;

/// Relies on nanorand's `Pcg64::new_seed` and `Rng::generate_range` on `u64`:
/// one draw in `0..b` for each bound `b`, in order. Each draw is read from a
/// whole 8-byte output of the generator, so the draws depend on the seed and
/// the bounds alone.
#[verifier::external_body]
fn draw_indices(seed: u128, bounds: &Vec<u64>) -> (r: Vec<u64>)
    requires
        forall|k: int| 0 <= k < bounds@.len() ==> bounds@[k] > 0,
    ensures
        r@ == pcg_draws(seed, bounds@),
        r@.len() == bounds@.len(),
        forall|k: int| 0 <= k < r@.len() ==> r@[k] < bounds@[k],
{
    let mut rng = Pcg64::new_seed(seed);
    bounds.iter().map(|&b| rng.generate_range(0..b)).collect()
}

/// `s` with the entries at `i` and `j` exchanged.
pub open spec fn swap_at(s: Seq<u8>, i: int, j: int) -> Seq<u8> {
    s.update(i, s[j]).update(j, s[i])
}

/// The order after the first `n` steps of a Fisher-Yates shuffle of `s`:
/// step `k` exchanges the entry at position `len - 1 - k` with the one at
/// `draws[k]`.
pub open spec fn fisher_yates_steps(s: Seq<u8>, draws: Seq<u64>, n: nat) -> Seq<u8>
    decreases n,
{
    if n == 0 {
        s
    } else {
        swap_at(fisher_yates_steps(s, draws, (n - 1) as nat), s.len() - n, draws[n - 1] as int)
    }
}

/// The order after every step of a Fisher-Yates shuffle of `s` with `draws`.
pub open spec fn fisher_yates(s: Seq<u8>, draws: Seq<u64>) -> Seq<u8> {
    fisher_yates_steps(s, draws, draws.len())
}

/// The bound of each draw of the shuffle: step `k` draws below `256 - k`,
/// for the 255 steps from the last position down to the second.
pub open spec fn shuffle_bounds() -> Seq<u64> {
    Seq::new(255, |k: int| (256 - k) as u64)
}

/// The first half of the table built from `seed`.
pub open spec fn shuffled_order(seed: u128) -> Seq<u8> {
    fisher_yates(reference_order(), pcg_draws(seed, shuffle_bounds()))
}

/// The whole table built from `seed`: the shuffled order stored twice.
pub open spec fn table_of(seed: u128) -> Seq<u8> {
    shuffled_order(seed) + shuffled_order(seed)
}

fn shuffle_bounds_vec() -> (r: Vec<u64>)
    ensures
        r@ == shuffle_bounds(),
{
    let mut r: Vec<u64> = Vec::new();
    let mut k: u64 = 0;
    while k < 255
        invariant
            k <= 255,
            r@ =~= Seq::new(k as nat, |m: int| (256 - m) as u64),
        decreases 255 - k,
    {
        r.push(256 - k);
        k += 1;
    }
    assert(r@ =~= shuffle_bounds());
    r
}

/// Exchanging two entries keeps the same bytes, each as often.
proof fn lemma_swap_keeps_bytes(s: Seq<u8>, i: int, j: int)
    requires
        0 <= i < s.len(),
        0 <= j < s.len(),
    ensures
        swap_at(s, i, j).to_multiset() == s.to_multiset(),
        swap_at(s, i, j).len() == s.len(),
{
    broadcast use vstd::multiset::group_multiset_axioms;

    let s1 = s.update(i, s[j]);
    vstd::seq_lib::to_multiset_update(s, i, s[j]);
    vstd::seq_lib::to_multiset_update(s1, j, s[i]);
    assert(s1[j] == s[j]);
    s.to_multiset_ensures();
    assert(s.contains(s[i]) && s.contains(s[j]));
    let m = s.to_multiset();
    let m1 = m.insert(s[j]).remove(s[i]);
    assert forall|v: u8| #[trigger] m1.insert(s[i]).remove(s[j]).count(v) == m.count(v) by {
        assert(m.count(s[i]) > 0);
    }
    assert(m1.insert(s[i]).remove(s[j]) =~= m);
}

/// Shuffles `order` in place by Fisher-Yates: for each position from the
/// last down to the second, in turn, exchanges its entry with the one at the
/// next of `draws`.
pub fn fisher_yates_shuffle(order: &mut [u8; 256], draws: &Vec<u64>)
    requires
        draws@.len() <= 256,
        forall|k: int| 0 <= k < draws@.len() ==> draws@[k] < 256,
    ensures
        final(order)@ == fisher_yates(old(order)@, draws@),
        final(order)@.to_multiset() == old(order)@.to_multiset(),
{
    let ghost start = order@;
    let mut n: usize = 0;
    while n < draws.len()
        invariant
            n <= draws@.len() <= 256,
            forall|k: int| 0 <= k < draws@.len() ==> draws@[k] < 256,
            start.len() == 256,
            order@ == fisher_yates_steps(start, draws@, n as nat),
            order@.to_multiset() == start.to_multiset(),
        decreases draws@.len() - n,
    {
        let i = 255 - n;
        let j = draws[n] as usize;
        proof {
            lemma_swap_keeps_bytes(order@, i as int, j as int);
        }
        let a = order[i];
        let b = order[j];
        order[i] = b;
        order[j] = a;
        n += 1;
        assert(order@ =~= swap_at(fisher_yates_steps(start, draws@, (n - 1) as nat), i as int, j as int));
    }
}

/// The table for a given first half: the half followed by itself.
pub fn table_from_order(order: &[u8; 256]) -> (r: [u8; 512])
    requires
        is_byte_permutation(order@),
    ensures
        r@ == order@ + order@,
        is_valid_table(r@),
{
    let mut table: [u8; 512] = [0u8; 512];
    let mut i: usize = 0;
    while i < 256
        invariant
            i <= 256,
            table@.len() == 512,
            forall|k: int| 0 <= k < i ==> table@[k] == #[trigger] order@[k] && table@[k + 256] == order@[k],
        decreases 256 - i,
    {
        table[i] = order[i];
        table[i + 256] = order[i];
        i += 1;
    }
    assert(table@ =~= order@ + order@);
    assert(table@.subrange(0, 256) =~= order@);
    table
}

/// Builds the permutation table for `seed`: the reference order shuffled by
/// Fisher-Yates with draws from a generator seeded with `seed`, stored twice.
pub fn get_perm(seed: u128) -> (r: [u8; 512])
    ensures
        r@ == table_of(seed),
        is_valid_table(r@),
{
    let mut order = reference_array();
    let bounds = shuffle_bounds_vec();
    let draws = draw_indices(seed, &bounds);
    fisher_yates_shuffle(&mut order, &draws);
    proof {
        lemma_reference_order_is_permutation();
        lemma_rearranged_permutation(reference_order(), order@);
    }
    table_from_order(&order)
}

/// A rearrangement of a permutation of the bytes is again one.
proof fn lemma_rearranged_permutation(base: Seq<u8>, s: Seq<u8>)
    requires
        is_byte_permutation(base),
        s.to_multiset() == base.to_multiset(),
    ensures
        is_byte_permutation(s),
{
    s.to_multiset_ensures();
    base.to_multiset_ensures();
    base.lemma_multiset_has_no_duplicates();
    s.lemma_multiset_has_no_duplicates_conv();
    assert forall|v: u8| s.contains(v) by {
        assert(base.contains(v));
        assert(base.to_multiset().count(v) > 0);
        assert(s.to_multiset().count(v) > 0);
    }
}

/// In a valid table an index below 512 reads what its remainder modulo 256
/// reads: a lookup may add small offsets without reducing the index again.
pub proof fn lemma_lookup_wraps(t: Seq<u8>, n: int)
    requires
        is_valid_table(t),
        0 <= n < 512,
    ensures
        t[n] == t[n % 256],
{
    if n >= 256 {
        assert(t[(n - 256) + 256] == t[n - 256]);
    }
}

/// Two tables built from the same seed are the same table.
pub proof fn lemma_table_deterministic(a: u128, b: u128)
    requires
        a == b,
    ensures
        table_of(a) == table_of(b),
{
}

/// A permutation table together with the seed it was built from.
#[derive(Clone, Copy)]
pub struct PermutationTable {
    perm: [u8; 512],
    seed: u128,
}

impl View for PermutationTable {
    type V = Seq<u8>;

    closed spec fn view(&self) -> Seq<u8> {
        self.perm@
    }
}

/// The hash of a lattice corner in two dimensions: cell `(ii, jj)` reduced
/// modulo 256, corner offset `(di, dj)`.
pub open spec fn corner_hash_2d(t: Seq<u8>, ii: int, jj: int, di: int, dj: int) -> u8 {
    t[ii + di + t[jj + dj] as int]
}

/// The hash of a lattice corner in three dimensions, looked up from the
/// innermost axis outwards.
pub open spec fn corner_hash_3d(
    t: Seq<u8>,
    ii: int,
    jj: int,
    kk: int,
    di: int,
    dj: int,
    dk: int,
) -> u8 {
    t[ii + di + t[jj + dj + t[kk + dk] as int] as int]
}

/// The hashes of the three corners of a triangle of the cell `(i, j)`: the
/// cell's origin, the middle corner `(di, dj)`, and the far corner.
pub open spec fn cell_hashes_2d(t: Seq<u8>, i: int, j: int, di: int, dj: int) -> Seq<u8> {
    let (ii, jj) = (i % 256, j % 256);
    seq![
        corner_hash_2d(t, ii, jj, 0, 0),
        corner_hash_2d(t, ii, jj, di, dj),
        corner_hash_2d(t, ii, jj, 1, 1),
    ]
}

/// The hashes of the four corners of a tetrahedron of the cell `(i, j, k)`:
/// the cell's origin, the second and third corners `a` and `b`, and the far
/// corner.
pub open spec fn cell_hashes_3d(t: Seq<u8>, i: int, j: int, k: int, a: Offset3, b: Offset3) -> Seq<u8> {
    let (ii, jj, kk) = (i % 256, j % 256, k % 256);
    seq![
        corner_hash_3d(t, ii, jj, kk, 0, 0, 0),
        corner_hash_3d(t, ii, jj, kk, a.i as int, a.j as int, a.k as int),
        corner_hash_3d(t, ii, jj, kk, b.i as int, b.j as int, b.k as int),
        corner_hash_3d(t, ii, jj, kk, 1, 1, 1),
    ]
}

impl PermutationTable {
    /// The seed the table was built from.
    pub closed spec fn seed_spec(&self) -> u128 {
        self.seed
    }

    /// The entries are those that the seed determines, and form a valid
    /// table.
    pub open spec fn wf(&self) -> bool {
        &&& self@ == table_of(self.seed_spec())
        &&& is_valid_table(self@)
    }

    /// Builds the table for `seed`.
    pub fn new(seed: u128) -> (r: Self)
        ensures
            r.wf(),
            r.seed_spec() == seed,
            r@ == table_of(seed),
    {
        PermutationTable { perm: get_perm(seed), seed }
    }

    /// Rebuilds the whole table for a new seed.
    pub fn change_seed(&mut self, seed: u128)
        ensures
            final(self).wf(),
            final(self).seed_spec() == seed,
            final(self)@ == table_of(seed),
    {
        self.seed = seed;
        self.perm = get_perm(seed);
    }

    /// The seed the table was built from.
    pub fn seed(&self) -> (r: u128)
        ensures
            r == self.seed_spec(),
    {
        self.seed
    }

    /// The 512 entries.
    pub fn entries(&self) -> (r: &[u8; 512])
        ensures
            r@ == self@,
    {
        &self.perm
    }

    /// Whether two tables were built from the same seed; their entries are
    /// then the same too.
    pub fn same_seed(&self, other: &PermutationTable) -> (r: bool)
        requires
            self.wf(),
            other.wf(),
        ensures
            r == (self.seed_spec() == other.seed_spec()),
            r ==> self@ == other@,
    {
        self.seed == other.seed
    }

    /// The hashes of the two ends of the one-dimensional cell that starts at
    /// `i0`.
    pub fn hash_1d(&self, i0: i32) -> (r: (u8, u8))
        requires
            self.wf(),
        ensures
            r.0 == self@[i0 as int % 256],
            r.1 == self@[(i0 as int + 1) % 256],
    {
        let ii = modulo(i0, 256);
        proof {
            lemma_wrap_one(self@, ii as int, i0 as int);
        }
        (self.perm[ii], self.perm[ii + 1])
    }
    /// The hashes of the corners of the triangle of cell `(i, j)` whose
    /// middle corner is one step along x when `x_gt_y`, else along y.
    pub fn hash_2d(&self, i: i32, j: i32, x_gt_y: bool) -> (r: [u8; 3])
        requires
            self.wf(),
        ensures
            r@ == cell_hashes_2d(self@, i as int, j as int, if x_gt_y { 1 } else { 0 }, if x_gt_y { 0 } else { 1 }),
    {
        let ii = modulo(i, 256);
        let jj = modulo(j, 256);
        let (di, dj): (usize, usize) = if x_gt_y {
            (1, 0)
        } else {
            (0, 1)
        };
        let p = &self.perm;
        let h0 = p[ii + p[jj] as usize];
        let h1 = p[ii + di + p[jj + dj] as usize];
        let h2 = p[ii + 1 + p[jj + 1] as usize];
        let r: [u8; 3] = [h0, h1, h2];
        assert(r@ =~= cell_hashes_2d(self@, i as int, j as int, di as int, dj as int));
        r
    }

    /// The hashes of the corners of the tetrahedron of cell `(i, j, k)` whose
    /// second and third corners are `a` and `b`.
    pub fn hash_3d(&self, i: i32, j: i32, k: i32, a: Offset3, b: Offset3) -> (r: [u8; 4])
        requires
            self.wf(),
            a.i <= 1 && a.j <= 1 && a.k <= 1,
            b.i <= 1 && b.j <= 1 && b.k <= 1,
        ensures
            r@ == cell_hashes_3d(self@, i as int, j as int, k as int, a, b),
    {
        let ii = modulo(i, 256);
        let jj = modulo(j, 256);
        let kk = modulo(k, 256);
        let p = &self.perm;
        let h0 = p[ii + p[jj + p[kk] as usize] as usize];
        let h1 = p[ii + a.i + p[jj + a.j + p[kk + a.k] as usize] as usize];
        let h2 = p[ii + b.i + p[jj + b.j + p[kk + b.k] as usize] as usize];
        let h3 = p[ii + 1 + p[jj + 1 + p[kk + 1] as usize] as usize];
        let r: [u8; 4] = [h0, h1, h2, h3];
        assert(r@ =~= cell_hashes_3d(self@, i as int, j as int, k as int, a, b));
        r
    }
}

/// Stepping past the end of the first half lands on the start of the second,
/// which repeats the first.
proof fn lemma_wrap_one(t: Seq<u8>, ii: int, i0: int)
    requires
        is_valid_table(t),
        0 <= ii < 256,
        ii == i0 % 256,
    ensures
        t[ii + 1] == t[(i0 + 1) % 256],
{
    if ii == 255 {
        assert((i0 + 1) % 256 == 0);
        assert(t[0int + 256] == t[0int]);
    } else {
        assert((i0 + 1) % 256 == ii + 1);
    }
}

} // verus!
