//! Inner workings: packed leaf grids and the quadtree node types.
//!
//! A leaf grid is 16 by 16 cells, held as sixteen `u16` lanes. Lane `r` is row `r`
//! (row 0 is the northmost); within a lane, bit `15 - c` is column `c` (column 0 is the
//! westmost). A set bit is an alive cell.
use vstd::prelude::*;

verus! {

broadcast use vstd::array::group_array_axioms;

use vstd::std_specs::cmp::PartialEqSpec;

/// Sixteen `u16` lanes.
#[allow(non_camel_case_types)]
#[derive(Clone, Copy, Debug, Eq, Hash)]
pub struct u16x16(pub [u16; 16]);

impl PartialEq for u16x16 {
    fn eq(&self, other: &u16x16) -> (r: bool) {
        let mut i: usize = 0;
        while i < 16
            invariant
                0 <= i <= 16,
                forall|j: int| 0 <= j < i ==> self@[j] == other@[j],
            decreases 16 - i,
        {
            if self.0[i] != other.0[i] {
                return false;
            }
            i = i + 1;
        }
        assert(self@ =~= other@);
        true
    }
}

impl vstd::std_specs::cmp::PartialEqSpecImpl for u16x16 {
    open spec fn obeys_eq_spec() -> bool {
        true
    }

    open spec fn eq_spec(&self, other: &u16x16) -> bool {
        self@ == other@
    }
}

impl View for u16x16 {
    type V = Seq<u16>;

    open spec fn view(&self) -> Seq<u16> {
        self.0@
    }
}

/// The value with exactly the given lanes.
pub open spec fn from_lanes(lanes: Seq<u16>) -> u16x16 {
    choose|v: u16x16| v@ == lanes
}

/// A value is determined by its lanes.
pub proof fn lemma_from_lanes(v: u16x16)
    ensures
        from_lanes(v@) == v,
{
    let c = from_lanes(v@);
    assert(c@ == v@);
    assert(c.0 =~= v.0);
}

/// Two values with the same lanes are equal.
pub proof fn lemma_lanes_determine(a: u16x16, b: u16x16)
    requires
        a@ == b@,
    ensures
        a == b,
{
    assert(a.0 =~= b.0);
}

/// The number of set bits in `x`.
pub open spec fn ones(x: u16) -> nat
    decreases x,
{
    if x == 0 {
        0
    } else {
        (x % 2) as nat + ones(x / 2)
    }
}

/// The sum of the lanes, as a mathematical integer.
pub open spec fn lane_sum(lanes: Seq<u16>) -> int
    decreases lanes.len(),
{
    if lanes.len() == 0 {
        0
    } else {
        lane_sum(lanes.drop_last()) + lanes.last()
    }
}

/// Whether the cell at `row`, `col` of a leaf grid is alive.
pub open spec fn cell_alive(grid: u16x16, row: int, col: int) -> bool {
    bit_set(grid@[row], (15 - col) as u16)
}

/// Whether bit `k` of `v` is set.
pub open spec fn bit_set(v: u16, k: u16) -> bool {
    (v >> k) & 1u16 == 1u16
}

impl u16x16 {
    /// Builds a value from its sixteen lanes, in order.
    pub fn new(
        l0: u16,
        l1: u16,
        l2: u16,
        l3: u16,
        l4: u16,
        l5: u16,
        l6: u16,
        l7: u16,
        l8: u16,
        l9: u16,
        l10: u16,
        l11: u16,
        l12: u16,
        l13: u16,
        l14: u16,
        l15: u16,
    ) -> (v: Self)
        ensures
            v@ == seq![l0, l1, l2, l3, l4, l5, l6, l7, l8, l9, l10, l11, l12, l13, l14, l15],
    {
        let v = u16x16([l0, l1, l2, l3, l4, l5, l6, l7, l8, l9, l10, l11, l12, l13, l14, l15]);
        assert(v@ =~= seq![l0, l1, l2, l3, l4, l5, l6, l7, l8, l9, l10, l11, l12, l13, l14, l15]);
        v
    }

    /// The value with every lane equal to `v`.
    pub fn splat(v: u16) -> (r: Self)
        ensures
            r@ == Seq::new(16, |i: int| v),
    {
        let r = u16x16([v;16]);
        assert(r@ =~= Seq::new(16, |i: int| v));
        r
    }

    /// Lane `idx`.
    pub fn extract(self, idx: usize) -> (r: u16)
        requires
            idx < 16,
        ensures
            r == self@[idx as int],
    {
        self.0[idx]
    }

    /// The value with lane `idx` set to `val`.
    pub fn replace(self, idx: usize, val: u16) -> (r: Self)
        requires
            idx < 16,
        ensures
            r@ == self@.update(idx as int, val),
    {
        let mut lanes = self.0;
        lanes[idx] = val;
        u16x16(lanes)
    }
}

/// The number of set bits in a `u16`, counted bit by bit.
fn count_ones_u16(x: u16) -> (r: u16)
    ensures
        r == ones(x),
{
    let mut v: u16 = x;
    let mut c: u16 = 0;
    let mut i: u16 = 0;
    assert(x >> 0u16 == x) by (bit_vector);
    while i < 16
        invariant
            i <= 16,
            v == x >> i,
            c <= i,
            c + ones(v) == ones(x),
        decreases 16 - i,
    {
        assert(v & 1 == v % 2 && v >> 1 == v / 2) by (bit_vector);
        assert((x >> i) >> 1u16 == x >> ((i + 1) as u16)) by (bit_vector)
            requires
                i < 16,
        ;
        c = c + (v & 1);
        v = v >> 1;
        i = i + 1;
    }
    assert(x >> 16u16 == 0) by (bit_vector);
    c
}

impl u16x16 {
    /// The number of set bits of every lane.
    pub fn count_ones(self) -> (r: u16x16)
        ensures
            r@ == Seq::new(16, |i: int| ones(self@[i]) as u16),
            forall|i: int| 0 <= i < 16 ==> r@[i] == ones(self@[i]),
    {
        let mut res = [0u16; 16];
        for i in 0..16
            invariant
                forall|j: int| 0 <= j < i ==> res@[j] == ones(self@[j]),
        {
            res[i] = count_ones_u16(self.0[i]);
        }
        let r = u16x16(res);
        assert(r@ =~= Seq::new(16, |i: int| ones(self@[i]) as u16));
        r
    }

    /// The sum of the lanes, wrapping around at `u16::MAX`.
    pub fn wrapping_sum(self) -> (r: u16)
        ensures
            r == lane_sum(self@) % 0x10000,
    {
        let mut acc: u16 = 0;
        let mut i: usize = 0;
        while i < 16
            invariant
                i <= 16,
                acc == lane_sum(self@.take(i as int)) % 0x10000,
            decreases 16 - i,
        {
            let ghost prev = self@.take(i as int);
            assert(self@.take(i as int + 1).drop_last() =~= prev);
            proof {
                vstd::arithmetic::div_mod::lemma_add_mod_noop(
                    lane_sum(prev),
                    self@[i as int] as int,
                    0x10000,
                );
                vstd::arithmetic::div_mod::lemma_small_mod(self@[i as int] as nat, 0x10000);
            }
            acc = acc.wrapping_add(self.0[i]);
            i = i + 1;
        }
        assert(self@.take(16) =~= self@);
        acc
    }
}

/// Lane by lane `&`.
pub open spec fn lanes_bitand(a: Seq<u16>, b: Seq<u16>) -> Seq<u16> {
    Seq::new(16, |i: int| a[i] & b[i])
}

impl std::ops::BitAnd for u16x16 {
    type Output = Self;

    fn bitand(self, rhs: Self) -> (r: Self)
        ensures
            r@ == lanes_bitand(self@, rhs@),
    {
        let mut res = [0u16; 16];
        for i in 0..16
            invariant
                forall|j: int| 0 <= j < i ==> res@[j] == self@[j] & rhs@[j],
        {
            res[i] = self.0[i] & rhs.0[i];
        }
        let r = u16x16(res);
        assert(r@ =~= lanes_bitand(self@, rhs@));
        proof {
            lemma_from_lanes(r);
        }
        r
    }
}

impl vstd::std_specs::ops::BitAndSpecImpl for u16x16 {
    open spec fn obeys_bitand_spec() -> bool {
        true
    }

    open spec fn bitand_req(self, rhs: u16x16) -> bool {
        true
    }

    open spec fn bitand_spec(self, rhs: u16x16) -> u16x16 {
        from_lanes(lanes_bitand(self@, rhs@))
    }
}

/// Lane by lane `|`.
pub open spec fn lanes_bitor(a: Seq<u16>, b: Seq<u16>) -> Seq<u16> {
    Seq::new(16, |i: int| a[i] | b[i])
}

impl std::ops::BitOr for u16x16 {
    type Output = Self;

    fn bitor(self, rhs: Self) -> (r: Self)
        ensures
            r@ == lanes_bitor(self@, rhs@),
    {
        let mut res = [0u16; 16];
        for i in 0..16
            invariant
                forall|j: int| 0 <= j < i ==> res@[j] == self@[j] | rhs@[j],
        {
            res[i] = self.0[i] | rhs.0[i];
        }
        let r = u16x16(res);
        assert(r@ =~= lanes_bitor(self@, rhs@));
        proof {
            lemma_from_lanes(r);
        }
        r
    }
}

impl vstd::std_specs::ops::BitOrSpecImpl for u16x16 {
    open spec fn obeys_bitor_spec() -> bool {
        true
    }

    open spec fn bitor_req(self, rhs: u16x16) -> bool {
        true
    }

    open spec fn bitor_spec(self, rhs: u16x16) -> u16x16 {
        from_lanes(lanes_bitor(self@, rhs@))
    }
}

/// Lane by lane `^`.
pub open spec fn lanes_bitxor(a: Seq<u16>, b: Seq<u16>) -> Seq<u16> {
    Seq::new(16, |i: int| a[i] ^ b[i])
}

impl std::ops::BitXor for u16x16 {
    type Output = Self;

    fn bitxor(self, rhs: Self) -> (r: Self)
        ensures
            r@ == lanes_bitxor(self@, rhs@),
    {
        let mut res = [0u16; 16];
        for i in 0..16
            invariant
                forall|j: int| 0 <= j < i ==> res@[j] == self@[j] ^ rhs@[j],
        {
            res[i] = self.0[i] ^ rhs.0[i];
        }
        let r = u16x16(res);
        assert(r@ =~= lanes_bitxor(self@, rhs@));
        proof {
            lemma_from_lanes(r);
        }
        r
    }
}

impl vstd::std_specs::ops::BitXorSpecImpl for u16x16 {
    open spec fn obeys_bitxor_spec() -> bool {
        true
    }

    open spec fn bitxor_req(self, rhs: u16x16) -> bool {
        true
    }

    open spec fn bitxor_spec(self, rhs: u16x16) -> u16x16 {
        from_lanes(lanes_bitxor(self@, rhs@))
    }
}

/// Every lane shifted by `n` with `<<`.
pub open spec fn lanes_shl(a: Seq<u16>, n: u32) -> Seq<u16> {
    Seq::new(16, |i: int| a[i] << n)
}

impl std::ops::Shl<u32> for u16x16 {
    type Output = Self;

    fn shl(self, rhs: u32) -> (r: Self)
        ensures
            r@ == lanes_shl(self@, rhs),
    {
        let mut res = [0u16; 16];
        for i in 0..16
            invariant
                rhs < 16,
                forall|j: int| 0 <= j < i ==> res@[j] == self@[j] << rhs,
        {
            res[i] = self.0[i] << rhs;
        }
        let r = u16x16(res);
        assert(r@ =~= lanes_shl(self@, rhs));
        proof {
            lemma_from_lanes(r);
        }
        r
    }
}

impl vstd::std_specs::ops::ShlSpecImpl<u32> for u16x16 {
    open spec fn obeys_shl_spec() -> bool {
        true
    }

    open spec fn shl_req(self, rhs: u32) -> bool {
        rhs < 16
    }

    open spec fn shl_spec(self, rhs: u32) -> u16x16 {
        from_lanes(lanes_shl(self@, rhs))
    }
}

/// Every lane shifted by `n` with `>>`.
pub open spec fn lanes_shr(a: Seq<u16>, n: u32) -> Seq<u16> {
    Seq::new(16, |i: int| a[i] >> n)
}

impl std::ops::Shr<u32> for u16x16 {
    type Output = Self;

    fn shr(self, rhs: u32) -> (r: Self)
        ensures
            r@ == lanes_shr(self@, rhs),
    {
        let mut res = [0u16; 16];
        for i in 0..16
            invariant
                rhs < 16,
                forall|j: int| 0 <= j < i ==> res@[j] == self@[j] >> rhs,
        {
            res[i] = self.0[i] >> rhs;
        }
        let r = u16x16(res);
        assert(r@ =~= lanes_shr(self@, rhs));
        proof {
            lemma_from_lanes(r);
        }
        r
    }
}

impl vstd::std_specs::ops::ShrSpecImpl<u32> for u16x16 {
    open spec fn obeys_shr_spec() -> bool {
        true
    }

    open spec fn shr_req(self, rhs: u32) -> bool {
        rhs < 16
    }

    open spec fn shr_spec(self, rhs: u32) -> u16x16 {
        from_lanes(lanes_shr(self@, rhs))
    }
}

/// Every lane complemented.
pub open spec fn lanes_not(a: Seq<u16>) -> Seq<u16> {
    Seq::new(16, |i: int| !a[i])
}

impl std::ops::Not for u16x16 {
    type Output = Self;

    fn not(self) -> (r: Self)
        ensures
            r@ == lanes_not(self@),
    {
        let mut res = [0u16; 16];
        for i in 0..16
            invariant
                forall|j: int| 0 <= j < i ==> res@[j] == !self@[j],
        {
            res[i] = !self.0[i];
        }
        let r = u16x16(res);
        assert(r@ =~= lanes_not(self@));
        proof {
            lemma_from_lanes(r);
        }
        r
    }
}

impl vstd::std_specs::ops::NotSpecImpl for u16x16 {
    open spec fn obeys_not_spec() -> bool {
        true
    }

    open spec fn not_req(self) -> bool {
        true
    }

    open spec fn not_spec(self) -> u16x16 {
        from_lanes(lanes_not(self@))
    }
}

impl std::ops::BitXorAssign for u16x16 {
    fn bitxor_assign(&mut self, rhs: Self)
        ensures
            final(self)@ == lanes_bitxor(old(self)@, rhs@),
    {
        for i in 0..16
            invariant
                self@.len() == 16,
                forall|j: int| 0 <= j < i ==> self@[j] == old(self)@[j] ^ rhs@[j],
                forall|j: int| i <= j < 16 ==> self@[j] == old(self)@[j],
        {
            self.0[i] = self.0[i] ^ rhs.0[i];
        }
        assert(self@ =~= lanes_bitxor(old(self)@, rhs@));
    }
}

/// The lanes of a mask that sets `north_val` in the northern eight rows and `south_val` in the
/// southern eight.
pub open spec fn half_lanes(north_val: u16, south_val: u16) -> Seq<u16> {
    Seq::new(16, |i: int| if i < 8 { north_val } else { south_val })
}

fn halves(north_val: u16, south_val: u16) -> (m: u16x16)
    ensures
        m@ == half_lanes(north_val, south_val),
{
    let m = u16x16([
        north_val, north_val, north_val, north_val, north_val, north_val, north_val, north_val,
        south_val, south_val, south_val, south_val, south_val, south_val, south_val, south_val,
    ]);
    assert(m@ =~= half_lanes(north_val, south_val));
    m
}

/// The mask of the northern half of a leaf grid.
pub fn level_4_upper_half_mask() -> (m: u16x16)
    ensures
        m@ == half_lanes(0b1111_1111_1111_1111, 0),
{
    halves(0b1111_1111_1111_1111, 0)
}

/// The mask of the southern half of a leaf grid.
pub fn level_4_lower_half_mask() -> (m: u16x16)
    ensures
        m@ == half_lanes(0, 0b1111_1111_1111_1111),
{
    halves(0, 0b1111_1111_1111_1111)
}

/// The mask of the northwest quarter of a leaf grid.
pub fn level_4_nw_mask() -> (m: u16x16)
    ensures
        m@ == half_lanes(0b1111_1111_0000_0000, 0),
{
    halves(0b1111_1111_0000_0000, 0)
}

/// The mask of the northeast quarter of a leaf grid.
pub fn level_4_ne_mask() -> (m: u16x16)
    ensures
        m@ == half_lanes(0b0000_0000_1111_1111, 0),
{
    halves(0b0000_0000_1111_1111, 0)
}

/// The mask of the southwest quarter of a leaf grid.
pub fn level_4_sw_mask() -> (m: u16x16)
    ensures
        m@ == half_lanes(0, 0b1111_1111_0000_0000),
{
    halves(0, 0b1111_1111_0000_0000)
}

/// The mask of the southeast quarter of a leaf grid.
pub fn level_4_se_mask() -> (m: u16x16)
    ensures
        m@ == half_lanes(0, 0b0000_0000_1111_1111),
{
    halves(0, 0b0000_0000_1111_1111)
}

/// Whether cell `row`, `col` is alive in the 32 by 32 grid made of four leaf grids.
pub open spec fn quad_alive(
    nw: u16x16,
    ne: u16x16,
    sw: u16x16,
    se: u16x16,
    row: int,
    col: int,
) -> bool {
    if row < 16 {
        if col < 16 {
            cell_alive(nw, row, col)
        } else {
            cell_alive(ne, row, col - 16)
        }
    } else {
        if col < 16 {
            cell_alive(sw, row - 16, col)
        } else {
            cell_alive(se, row - 16, col - 16)
        }
    }
}

/// The 32 by 32 grid made of four leaf grids has the northwest grid in its top left, the
/// northeast grid in its top right, the southwest grid in its bottom left and the southeast
/// grid in its bottom right.
pub proof fn lemma_quad_layout(
    nw: u16x16,
    ne: u16x16,
    sw: u16x16,
    se: u16x16,
    row: int,
    col: int,
)
    requires
        0 <= row < 16,
        0 <= col < 16,
    ensures
        quad_alive(nw, ne, sw, se, row, col) == cell_alive(nw, row, col),
        quad_alive(nw, ne, sw, se, row, col + 16) == cell_alive(ne, row, col),
        quad_alive(nw, ne, sw, se, row + 16, col) == cell_alive(sw, row, col),
        quad_alive(nw, ne, sw, se, row + 16, col + 16) == cell_alive(se, row, col),
{
}

/// Column `c` of `(a << 8) | (b >> 8)` is column `c + 8` of `a` for the western half and
/// column `c - 8` of `b` for the eastern half.
proof fn lemma_join_halves(a: u16, b: u16, c: u16)
    requires
        c < 16,
    ensures
        bit_set((a << 8u32) | (b >> 8u32), (15 - c) as u16) == if c < 8 {
            bit_set(a, (7 - c) as u16)
        } else {
            bit_set(b, (23 - c) as u16)
        },
{
    assert(bit_set((a << 8u32) | (b >> 8u32), (15 - c) as u16) == if c < 8 {
        bit_set(a, (7 - c) as u16)
    } else {
        bit_set(b, (23 - c) as u16)
    }) by (bit_vector)
        requires
            c < 16,
    ;
}

/// The central 16 by 16 grid of the 32 by 32 grid made of four leaf grids.
pub fn center(nw_grid: u16x16, ne_grid: u16x16, sw_grid: u16x16, se_grid: u16x16) -> (r: u16x16)
    ensures
        forall|row: int, col: int|
            0 <= row < 16 && 0 <= col < 16 ==> #[trigger] cell_alive(r, row, col) == quad_alive(
                nw_grid,
                ne_grid,
                sw_grid,
                se_grid,
                row + 8,
                col + 8,
            ),
{
    let ghost nw_grid_in = nw_grid;
    let ghost ne_grid_in = ne_grid;
    let ghost sw_grid_in = sw_grid;
    let ghost se_grid_in = se_grid;
    let nw_grid = nw_grid << 8;
    let sw_grid = sw_grid << 8;
    let left: u16x16 = u16x16([
        nw_grid.0[8], nw_grid.0[9], nw_grid.0[10], nw_grid.0[11], nw_grid.0[12], nw_grid.0[13], nw_grid.0[14], nw_grid.0[15],
        sw_grid.0[0], sw_grid.0[1], sw_grid.0[2], sw_grid.0[3], sw_grid.0[4], sw_grid.0[5], sw_grid.0[6], sw_grid.0[7],
    ]);

    let ne_grid = ne_grid >> 8;
    let se_grid = se_grid >> 8;
    let right: u16x16 = u16x16([
        ne_grid.0[8], ne_grid.0[9], ne_grid.0[10], ne_grid.0[11], ne_grid.0[12], ne_grid.0[13], ne_grid.0[14], ne_grid.0[15],
        se_grid.0[0], se_grid.0[1], se_grid.0[2], se_grid.0[3], se_grid.0[4], se_grid.0[5], se_grid.0[6], se_grid.0[7],
    ]);

    let r = left | right;
    proof {
        assert forall|row: int, col: int|
            0 <= row < 16 && 0 <= col < 16 implies #[trigger] cell_alive(r, row, col) == quad_alive(
                nw_grid_in,
                ne_grid_in,
                sw_grid_in,
                se_grid_in,
                row + 8,
                col + 8,
            ) by {
            if row < 8 {
                lemma_join_halves(nw_grid_in@[row + 8], ne_grid_in@[row + 8], col as u16);
            } else {
                lemma_join_halves(sw_grid_in@[row - 8], se_grid_in@[row - 8], col as u16);
            }
        }
    }
    r
}

/// A value whose lane `i` is lane `indices[i]` of `board`.
pub fn shuffle_u16x16(board: u16x16, indices: [usize; 16]) -> (r: u16x16)
    requires
        forall|i: int| 0 <= i < 16 ==> indices@[i] < 16,
    ensures
        r@ == Seq::new(16, |i: int| board@[indices@[i] as int]),
{
    let mut res = [0u16; 16];
    for i in 0..16
        invariant
            forall|j: int| 0 <= j < 16 ==> indices@[j] < 16,
            forall|j: int| 0 <= j < i ==> res@[j] == board@[indices@[j] as int],
    {
        res[i] = board.0[indices[i]];
    }
    let r = u16x16(res);
    assert(r@ =~= Seq::new(16, |i: int| board@[indices@[i] as int]));
    r
}

/// Replacing a lane and then reading it gives the new value; the other lanes are kept.
pub proof fn lemma_replace_then_extract(v: u16x16, idx: int, val: u16, other: int)
    requires
        0 <= idx < 16,
        0 <= other < 16,
        idx != other,
    ensures
        v@.update(idx, val)[idx] == val,
        v@.update(idx, val)[other] == v@[other],
{
}

/// Complementing twice gives back the lanes; xor-ing twice with the same value gives back
/// the lanes; xor-ing a value with itself clears it.
pub proof fn lemma_not_and_xor_undo(a: Seq<u16>, b: Seq<u16>)
    requires
        a.len() == 16,
        b.len() == 16,
    ensures
        lanes_not(lanes_not(a)) == a,
        lanes_bitxor(lanes_bitxor(a, b), b) == a,
        lanes_bitxor(a, a) == Seq::new(16, |i: int| 0u16),
{
    assert forall|i: int| 0 <= i < 16 implies lanes_not(lanes_not(a))[i] == a[i] by {
        let x = a[i];
        assert(!(!x) == x) by (bit_vector);
    }
    assert forall|i: int| 0 <= i < 16 implies lanes_bitxor(lanes_bitxor(a, b), b)[i] == a[i] by {
        let x = a[i];
        let y = b[i];
        assert((x ^ y) ^ y == x) by (bit_vector);
    }
    assert forall|i: int| 0 <= i < 16 implies lanes_bitxor(a, a)[i] == 0u16 by {
        let x = a[i];
        assert(x ^ x == 0u16) by (bit_vector);
    }
    assert(lanes_not(lanes_not(a)) =~= a);
    assert(lanes_bitxor(lanes_bitxor(a, b), b) =~= a);
    assert(lanes_bitxor(a, a) =~= Seq::new(16, |i: int| 0u16));
}

/// Which cells the level 4 quadrant masks cover: each covers exactly its quarter, so together
/// they cover the grid once.
pub proof fn lemma_quadrant_masks(row: int, col: int)
    requires
        0 <= row < 16,
        0 <= col < 16,
    ensures
        bit_set(half_lanes(0b1111_1111_0000_0000, 0)[row], (15 - col) as u16) == (row < 8 && col
            < 8),
        bit_set(half_lanes(0b0000_0000_1111_1111, 0)[row], (15 - col) as u16) == (row < 8 && col
            >= 8),
        bit_set(half_lanes(0, 0b1111_1111_0000_0000)[row], (15 - col) as u16) == (row >= 8 && col
            < 8),
        bit_set(half_lanes(0, 0b0000_0000_1111_1111)[row], (15 - col) as u16) == (row >= 8 && col
            >= 8),
        bit_set(half_lanes(0b1111_1111_1111_1111, 0)[row], (15 - col) as u16) == (row < 8),
        bit_set(half_lanes(0, 0b1111_1111_1111_1111)[row], (15 - col) as u16) == (row >= 8),
{
    let c = col as u16;
    assert(bit_set(0b1111_1111_0000_0000u16, (15 - c) as u16) == (c < 8)
        && bit_set(0b0000_0000_1111_1111u16, (15 - c) as u16) == (c >= 8)
        && bit_set(0b1111_1111_1111_1111u16, (15 - c) as u16)
        && !bit_set(0u16, (15 - c) as u16)) by (bit_vector)
        requires
            c < 16,
    ;
}

/// Grid equality is equality of all sixteen lanes: `==` on grids holds exactly when the two
/// grids are the same value, which is when every lane agrees.
pub proof fn lemma_grid_eq_is_lane_equality(a: u16x16, b: u16x16)
    ensures
        a.eq_spec(&b) <==> a == b,
        a.eq_spec(&b) <==> (forall|i: int| 0 <= i < 16 ==> a.0[i] == b.0[i]),
{
    if forall|i: int| 0 <= i < 16 ==> a.0[i] == b.0[i] {
        assert(a.0 =~= b.0);
    }
    if a.eq_spec(&b) {
        lemma_lanes_determine(a, b);
    }
}

/// `==` on nodes: two interior nodes are equal exactly when their northwest, northeast,
/// southwest and southeast children are pairwise equal, whatever their levels and
/// populations; two leaves are equal exactly when their grids are; a leaf never equals an
/// interior node.
pub proof fn lemma_node_eq_by_parts(
    nw: NodeId,
    ne: NodeId,
    sw: NodeId,
    se: NodeId,
    level: Level,
    population: u128,
    nw2: NodeId,
    ne2: NodeId,
    sw2: NodeId,
    se2: NodeId,
    level2: Level,
    population2: u128,
    grid: u16x16,
    grid2: u16x16,
)
    ensures
        (Node::Interior { nw, ne, sw, se, level, population }).eq_spec(
            &Node::Interior {
                nw: nw2,
                ne: ne2,
                sw: sw2,
                se: se2,
                level: level2,
                population: population2,
            },
        ) <==> (nw == nw2 && ne == ne2 && sw == sw2 && se == se2),
        (Node::Leaf { grid }).eq_spec(&Node::Leaf { grid: grid2 }) <==> grid == grid2,
        !(Node::Leaf { grid }).eq_spec(&Node::Interior { nw, ne, sw, se, level, population }),
        !(Node::Interior { nw, ne, sw, se, level, population }).eq_spec(&Node::Leaf { grid }),
{
    if grid@ == grid2@ {
        lemma_lanes_determine(grid, grid2);
    }
}

/// A cell of `a & b` is alive exactly when it is alive in both `a` and `b`, cell by cell.
pub proof fn lemma_bitand_cells(a: u16x16, b: u16x16, row: int, col: int)
    requires
        0 <= row < 16,
        0 <= col < 16,
    ensures
        bit_set(lanes_bitand(a@, b@)[row], (15 - col) as u16) == (cell_alive(a, row, col)
            && cell_alive(b, row, col)),
{
    let x = a@[row];
    let y = b@[row];
    let k = (15 - col) as u16;
    assert(bit_set(x & y, k) == (bit_set(x, k) && bit_set(y, k))) by (bit_vector);
}

/// A cell of `a | b` is alive exactly when it is alive in `a` or in `b`, cell by cell.
pub proof fn lemma_bitor_cells(a: u16x16, b: u16x16, row: int, col: int)
    requires
        0 <= row < 16,
        0 <= col < 16,
    ensures
        bit_set(lanes_bitor(a@, b@)[row], (15 - col) as u16) == (cell_alive(a, row, col)
            || cell_alive(b, row, col)),
{
    let x = a@[row];
    let y = b@[row];
    let k = (15 - col) as u16;
    assert(bit_set(x | y, k) == (bit_set(x, k) || bit_set(y, k))) by (bit_vector);
}

/// A cell of `a ^ b` is alive exactly when it is alive in one of `a` and `b` but not both.
pub proof fn lemma_bitxor_cells(a: u16x16, b: u16x16, row: int, col: int)
    requires
        0 <= row < 16,
        0 <= col < 16,
    ensures
        bit_set(lanes_bitxor(a@, b@)[row], (15 - col) as u16) == (cell_alive(a, row, col)
            != cell_alive(b, row, col)),
{
    let x = a@[row];
    let y = b@[row];
    let k = (15 - col) as u16;
    assert(bit_set(x ^ y, k) == (bit_set(x, k) != bit_set(y, k))) by (bit_vector);
}

/// A cell of `!a` is alive exactly when the same cell of `a` is dead.
pub proof fn lemma_not_cells(a: u16x16, row: int, col: int)
    requires
        0 <= row < 16,
        0 <= col < 16,
    ensures
        bit_set(lanes_not(a@)[row], (15 - col) as u16) == !cell_alive(a, row, col),
{
    let x = a@[row];
    let k = (15 - col) as u16;
    assert(bit_set(!x, k) == !bit_set(x, k)) by (bit_vector)
        requires
            k < 16,
    ;
}

/// Shifting left by `n` moves every cell `n` columns west within its row: bit `k` of a lane
/// of `a << n` is bit `k - n` of the same lane of `a`, and the `n` lowest bits are clear.
pub proof fn lemma_shl_bits(a: u16x16, n: u32, row: int, k: u16)
    requires
        0 <= row < 16,
        n < 16,
        k < 16,
    ensures
        bit_set(lanes_shl(a@, n)[row], k) == (k >= n && bit_set(a@[row], (k - n) as u16)),
{
    let x = a@[row];
    assert(bit_set(x << n, k) == (k >= n && bit_set(x, (k - n) as u16))) by (bit_vector)
        requires
            n < 16,
            k < 16,
    ;
}

/// Shifting right by `n` moves every cell `n` columns east within its row: bit `k` of a lane
/// of `a >> n` is bit `k + n` of the same lane of `a`, and the `n` highest bits are clear.
pub proof fn lemma_shr_bits(a: u16x16, n: u32, row: int, k: u16)
    requires
        0 <= row < 16,
        n < 16,
        k < 16,
    ensures
        bit_set(lanes_shr(a@, n)[row], k) == (k + n < 16 && bit_set(a@[row], (k + n) as u16)),
{
    let x = a@[row];
    assert(bit_set(x >> n, k) == (k + n < 16 && bit_set(x, (k + n) as u16))) by (bit_vector)
        requires
            n < 16,
            k < 16,
    ;
}

/// How many of the bits `0..n` of `x` are set.
pub open spec fn set_bits_below(x: u16, n: nat) -> nat
    decreases n,
{
    if n == 0 {
        0
    } else {
        set_bits_below(x, (n - 1) as nat) + if bit_set(x, (n - 1) as u16) {
            1nat
        } else {
            0nat
        }
    }
}

proof fn lemma_ones_split(x: u16, m: nat)
    requires
        m <= 16,
    ensures
        ones(x) == set_bits_below(x, m) + ones(x >> (m as u16)),
    decreases m,
{
    if m == 0 {
        assert(x >> 0u16 == x) by (bit_vector);
    } else {
        let k = (m - 1) as u16;
        lemma_ones_split(x, (m - 1) as nat);
        let v = x >> k;
        assert(v % 2 == (if bit_set(x, k) { 1u16 } else { 0u16 }) && v / 2 == x >> ((k + 1) as u16))
            by (bit_vector)
            requires
                v == x >> k,
                k < 16,
        ;
        assert(ones(v) == (v % 2) as nat + ones(v / 2));
    }
}

/// `count_ones` counts set bits: the count of a lane is the number of its sixteen bits that
/// are set, so it never exceeds 16.
pub proof fn lemma_ones_counts_set_bits(x: u16)
    ensures
        ones(x) == set_bits_below(x, 16),
        ones(x) <= 16,
{
    lemma_ones_split(x, 16);
    assert(x >> 16u16 == 0) by (bit_vector);
    lemma_set_bits_below_bound(x, 16);
}

proof fn lemma_set_bits_below_bound(x: u16, n: nat)
    ensures
        set_bits_below(x, n) <= n,
    decreases n,
{
    if n > 0 {
        lemma_set_bits_below_bound(x, (n - 1) as nat);
    }
}

/// The sum of lanes adds up: the sum of one lane is that lane, and the sum of two runs of
/// lanes put together is the sum of their sums.
pub proof fn lemma_lane_sum_adds(s: Seq<u16>, t: Seq<u16>, x: u16)
    ensures
        lane_sum(seq![x]) == x,
        lane_sum(s + t) == lane_sum(s) + lane_sum(t),
    decreases t.len(),
{
    assert(seq![x].drop_last() =~= Seq::<u16>::empty());
    assert(lane_sum(Seq::<u16>::empty()) == 0);
    assert(seq![x].last() == x);
    if t.len() == 0 {
        assert(s + t =~= s);
    } else {
        lemma_lane_sum_adds(s, t.drop_last(), x);
        assert((s + t).drop_last() =~= s + t.drop_last());
    }
}

/// Two leaves are the same node exactly when their grids are equal; two interior nodes are
/// the same node exactly when their children are, whatever their levels and populations; a
/// leaf is never the same node as an interior node. Being the same node is an equivalence.
pub proof fn lemma_same_node_equivalence(a: Node, b: Node, c: Node)
    ensures
        same_node(a, a),
        same_node(a, b) == same_node(b, a),
        same_node(a, b) && same_node(b, c) ==> same_node(a, c),
        (a is Leaf && b is Leaf) ==> (same_node(a, b) <==> a->grid == b->grid),
        (a is Leaf) != (b is Leaf) ==> !same_node(a, b),
{
    if a is Leaf && b is Leaf && same_node(a, b) {
        lemma_lanes_determine(a->grid, b->grid);
    }
}

/// An index in a store.
#[derive(Clone, Copy, Debug, PartialEq, Eq, Structural, Hash, PartialOrd, Ord)]
pub struct Index(pub u32);

/// The level of a node.
#[derive(Clone, Copy, Debug, PartialEq, Eq, Structural, Hash, PartialOrd, Ord)]
pub struct Level(pub u8);

/// The four quadrants of a node.
#[derive(Clone, Copy, Debug, PartialEq, Eq, Structural, Hash, PartialOrd, Ord)]
pub enum Quadrant {
    /// The northwest quadrant.
    Northwest,
    /// The northeast quadrant.
    Northeast,
    /// The southwest quadrant.
    Southwest,
    /// The southeast quadrant.
    Southeast,
}

/// An identifier referring to a node in a store.
#[derive(Clone, Copy, Debug, PartialEq, Eq, Structural, Hash, PartialOrd, Ord)]
pub struct NodeId {
    /// The index of the node in the store.
    pub index: Index,
}

/// An immutable quadtree representation of a Life grid.
#[derive(Clone, Copy, Debug)]
pub enum Node {
    /// A leaf (16 by 16) node.
    Leaf {
        /// The grid itself.
        ///
        /// 1 represents an alive cell, 0 represents a dead cell.
        grid: u16x16,
    },
    /// A non-leaf node.
    Interior {
        /// The northwest child.
        nw: NodeId,
        /// The northeast child.
        ne: NodeId,
        /// The southwest child.
        sw: NodeId,
        /// The southeast child.
        se: NodeId,
        /// The level of the node.
        level: Level,
        /// The number of alive cells in the node.
        population: u128,
    },
}

/// Whether two nodes are the same node: leaves by their grids, interior nodes by their
/// four children; the level and population of an interior node play no part.
pub open spec fn same_node(a: Node, b: Node) -> bool {
    match (a, b) {
        (Node::Leaf { grid }, Node::Leaf { grid: other_grid }) => grid@ == other_grid@,
        (
            Node::Interior { nw, ne, sw, se, .. },
            Node::Interior { nw: other_nw, ne: other_ne, sw: other_sw, se: other_se, .. },
        ) => nw == other_nw && ne == other_ne && sw == other_sw && se == other_se,
        _ => false,
    }
}

impl PartialEq for Node {
    fn eq(&self, other: &Node) -> (r: bool) {
        match (self, other) {
            (Node::Leaf { grid }, Node::Leaf { grid: other_grid }) => grid == other_grid,
            (
                Node::Interior { nw, ne, sw, se, .. },
                Node::Interior { nw: other_nw, ne: other_ne, sw: other_sw, se: other_se, .. },
            ) => nw == other_nw && ne == other_ne && sw == other_sw && se == other_se,
            _ => false,
        }
    }
}

impl vstd::std_specs::cmp::PartialEqSpecImpl for Node {
    open spec fn obeys_eq_spec() -> bool {
        true
    }

    open spec fn eq_spec(&self, other: &Node) -> bool {
        same_node(*self, *other)
    }
}

impl Eq for Node {

}

impl std::hash::Hash for Node {
    /// Feeds a leaf's grid, or an interior node's four children, to `state`, so that nodes
    /// that compare equal hash alike. No contract is given: what the hasher does with the
    /// bytes is its own.
    #[verifier::external_body]
    fn hash<H>(&self, state: &mut H) where H: std::hash::Hasher {
        match self {
            Node::Leaf { grid } => grid.hash(state),
            Node::Interior { nw, ne, sw, se, .. } => {
                nw.hash(state);
                ne.hash(state);
                sw.hash(state);
                se.hash(state);
            },
        }
    }
}

/// Internal methods.
impl Node {
    /// Returns the inner grid of a leaf node.
    pub fn unwrap_leaf(&self) -> (grid: u16x16)
        requires
            self is Leaf,
        ensures
            grid == self->grid,
    {
        match *self {
            Node::Leaf { grid } => grid,
            Node::Interior { .. } => {
                proof {
                    assert(false);
                }
                u16x16([0u16; 16])
            },
        }
    }
}

} // verus!
