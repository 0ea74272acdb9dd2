//! The gas-mixture entity and its physical algorithms.
//!
//! A [`GasMixture`] holds a per-species mole sequence, a temperature, a
//! volume, a heat-capacity floor and a one-way immutability latch. The mole
//! sequence is sparse at the tail: any species index beyond its length holds
//! zero moles, so `get_moles` is total over species indices.
//!
//! Every operation's effect is stated over small model functions
//! ([`mole`], [`sum_moles`], [`merged_moles`], [`removed_moles`], ...) so
//! that the algebraic laws of the engine can be proved once, at the model
//! level, in [`crate::laws`].

use vstd::arithmetic::div_mod::{
    lemma_div_by_multiple, lemma_div_is_ordered, lemma_div_is_ordered_by_denominator,
    lemma_div_nonincreasing, lemma_div_pos_is_pos,
};
use vstd::arithmetic::mul::{
    lemma_mul_is_commutative, lemma_mul_inequality, lemma_mul_nonnegative, lemma_mul_upper_bound,
};
use vstd::prelude::*;

use crate::constants::{
    CELL_VOLUME, MAX_SPECIES, MOLES_TOLERANCE, MOLES_TOLERANCE_RATIO, QUANTITY_CAP, R_IDEAL_GAS,
    SCALE, TEMP_MIN, TEMP_TOLERANCE,
};
use crate::gas::GasCatalog;
use crate::runtime::AtmosError;

verus! {

// ------------------------------------------------------------------
// Model functions over raw fixed-point quantities.
// ------------------------------------------------------------------
/// The larger of two integers.
pub open spec fn max_i(a: int, b: int) -> int {
    if a >= b {
        a
    } else {
        b
    }
}

/// The magnitude of an integer.
pub open spec fn abs_i(a: int) -> int {
    if a >= 0 {
        a
    } else {
        -a
    }
}

/// A quantity clamped into the representable domain `[0, QUANTITY_CAP]`.
pub open spec fn cap_q(x: int) -> u64 {
    if x < 0 {
        0u64
    } else if x > QUANTITY_CAP {
        QUANTITY_CAP
    } else {
        x as u64
    }
}

/// The moles of species `i` in a mole sequence: zero beyond its length.
pub open spec fn mole(s: Seq<u64>, i: int) -> u64 {
    if 0 <= i < s.len() {
        s[i]
    } else {
        0u64
    }
}

/// Validity of a mole sequence: bounded length, every entry in domain.
pub open spec fn wf_moles(s: Seq<u64>) -> bool {
    &&& s.len() <= MAX_SPECIES
    &&& forall|i: int| #[trigger] mole(s, i) <= QUANTITY_CAP
}

/// The total moles of the first `n` species.
pub open spec fn sum_to(s: Seq<u64>, n: int) -> int
    decreases n,
{
    if n <= 0 {
        0
    } else {
        sum_to(s, n - 1) + mole(s, n - 1)
    }
}

/// The total moles of a mixture's mole sequence.
pub open spec fn sum_moles(s: Seq<u64>) -> int {
    sum_to(s, s.len() as int)
}

/// The first `n` terms of the heat-capacity sum: moles times specific heat,
/// species by species (in squared raw units).
pub open spec fn wsum_to(m: Seq<u64>, h: Seq<u64>, n: int) -> int
    decreases n,
{
    if n <= 0 {
        0
    } else {
        wsum_to(m, h, n - 1) + mole(m, n - 1) * mole(h, n - 1)
    }
}

/// The full heat-capacity sum of a mole sequence against a heat table.
pub open spec fn wsum(m: Seq<u64>, h: Seq<u64>) -> int {
    wsum_to(m, h, m.len() as int)
}

/// Heat capacity: the per-species sum, floored by `min_hc`, in domain.
pub open spec fn heat_capacity_model(m: Seq<u64>, h: Seq<u64>, min_hc: u64) -> u64 {
    cap_q(max_i(wsum(m, h) / (SCALE as int), min_hc as int))
}

/// Thermal energy: heat capacity times temperature.
pub open spec fn thermal_energy_model(m: Seq<u64>, h: Seq<u64>, min_hc: u64, t: u64) -> u64 {
    cap_q(heat_capacity_model(m, h, min_hc) as int * t / (SCALE as int))
}

/// Ideal-gas pressure from total moles, temperature and volume; zero when
/// the volume is zero.
pub open spec fn pressure_model(total: int, t: u64, vol: u64) -> u64 {
    if vol == 0 {
        0u64
    } else {
        cap_q(total * (R_IDEAL_GAS as int) * (t as int) / ((SCALE as int) * (vol as int)))
    }
}

/// The per-species result of pouring `b` into `a`: the pointwise sum,
/// saturated at the domain cap.
pub open spec fn merged_moles(a: Seq<u64>, b: Seq<u64>) -> Seq<u64> {
    Seq::new(
        max_i(a.len() as int, b.len() as int) as nat,
        |i: int| cap_q(mole(a, i) + mole(b, i)),
    )
}

/// The temperature after a merge: the heat-capacity-weighted average of the
/// two sides' temperatures, or the receiver's own temperature when neither
/// side carries any heat capacity.
pub open spec fn merge_temp(hc_a: u64, t_a: u64, hc_b: u64, t_b: u64) -> u64 {
    if hc_a + hc_b == 0 {
        t_a
    } else {
        cap_q((hc_a * t_a + hc_b * t_b) / (hc_a + hc_b))
    }
}

/// A requested removal amount clamped to what the sequence actually holds.
pub open spec fn clamp_amount(s: Seq<u64>, a: int) -> int {
    if a < 0 {
        0
    } else if a > sum_moles(s) {
        sum_moles(s)
    } else {
        a
    }
}

/// The moles taken by `remove`: each species contributes in proportion to
/// its share of the total (nothing when the mixture is empty).
pub open spec fn removed_moles(s: Seq<u64>, a: int) -> Seq<u64> {
    Seq::new(
        s.len(),
        |i: int|
            if sum_moles(s) == 0 {
                0u64
            } else {
                (s[i] * a / sum_moles(s)) as u64
            },
    )
}

/// The moles `remove` leaves behind.
pub open spec fn depleted_moles(s: Seq<u64>, a: int) -> Seq<u64> {
    Seq::new(s.len(), |i: int| (s[i] - removed_moles(s, a)[i]) as u64)
}

/// A removal fraction clamped into `[0, SCALE]` (zero to the whole).
pub open spec fn clamp_ratio(r: int) -> int {
    if r < 0 {
        0
    } else if r > SCALE {
        SCALE as int
    } else {
        r
    }
}

/// The moles taken by `remove_ratio`: each species scaled by the fraction.
pub open spec fn ratio_removed_moles(s: Seq<u64>, r: int) -> Seq<u64> {
    Seq::new(s.len(), |i: int| (s[i] * r / (SCALE as int)) as u64)
}

/// The moles `remove_ratio` leaves behind.
pub open spec fn ratio_depleted_moles(s: Seq<u64>, r: int) -> Seq<u64> {
    Seq::new(s.len(), |i: int| (s[i] - ratio_removed_moles(s, r)[i]) as u64)
}

/// One step of a scrub: moves species `g` of the source into the buffer.
/// A species the engine cannot hold, or one whose combined amount would
/// pass the domain cap, is skipped; a locked (immutable) source keeps its
/// moles while the buffer still receives them.
pub open spec fn scrub_step(buf: Seq<u64>, src: Seq<u64>, g: usize, locked: bool) -> (
    Seq<u64>,
    Seq<u64>,
) {
    if g >= MAX_SPECIES {
        (buf, src)
    } else {
        let v = mole(buf, g as int) + mole(src, g as int);
        if v > QUANTITY_CAP {
            (buf, src)
        } else {
            (
                set_moles_seq(buf, g as int, v as u64),
                if locked {
                    src
                } else {
                    set_moles_seq(src, g as int, 0u64)
                },
            )
        }
    }
}

/// A whole scrub: [`scrub_step`] applied for each listed species in order.
pub open spec fn scrub_fold(buf: Seq<u64>, src: Seq<u64>, list: Seq<usize>, locked: bool) -> (
    Seq<u64>,
    Seq<u64>,
)
    decreases list.len(),
{
    if list.len() == 0 {
        (buf, src)
    } else {
        let st = scrub_step(buf, src, list[0], locked);
        scrub_fold(st.0, st.1, list.drop_first(), locked)
    }
}

/// Whether one species' amounts count as meaningfully different: the gap
/// must pass an absolute floor plus a tenth of the compared side's own
/// amount.
pub open spec fn moles_differ(ours: u64, theirs: u64) -> bool {
    abs_i(ours - theirs) > MOLES_TOLERANCE + ours / MOLES_TOLERANCE_RATIO
}

/// Whether two temperatures count as meaningfully different, by the same
/// absolute-plus-relative shape as [`moles_differ`].
pub open spec fn temps_differ(ours: u64, theirs: u64) -> bool {
    abs_i(ours - theirs) > TEMP_TOLERANCE + ours / MOLES_TOLERANCE_RATIO
}

/// A conduction coefficient clamped into `[0, SCALE]` (none to full).
pub open spec fn clamp_coeff(c: int) -> u64 {
    if c < 0 {
        0u64
    } else if c > SCALE {
        SCALE
    } else {
        c as u64
    }
}

/// A temperature result clamped into the band the engine stores:
/// `[TEMP_MIN, QUANTITY_CAP]`.
pub open spec fn clamp_temp(x: int) -> u64 {
    if x < TEMP_MIN {
        TEMP_MIN
    } else if x > QUANTITY_CAP {
        QUANTITY_CAP
    } else {
        x as u64
    }
}

/// Whether a heat exchange takes place at all: the gap must pass the
/// temperature tolerance and both sides must carry heat capacity.
pub open spec fn share_applies(t_own: u64, t_other: u64, hc_own: u64, hc_other: u64) -> bool {
    &&& abs_i(t_own - t_other) > TEMP_TOLERANCE
    &&& hc_own > 0
    &&& hc_other > 0
}

/// The temperature swing one side of a heat exchange sees: the coefficient
/// times the gap times the series combination of the two heat capacities,
/// divided by the side's own capacity.
pub open spec fn share_amount(
    t_a: u64,
    t_b: u64,
    hc_a: u64,
    hc_b: u64,
    cc: u64,
    hc_own: u64,
) -> int {
    cc * abs_i(t_a - t_b) * (hc_a * hc_b / (hc_a + hc_b)) / (SCALE * hc_own)
}

/// One side's temperature after a heat exchange: unchanged when the
/// exchange does not apply, otherwise moved towards the other side by its
/// swing and clamped into the stored band.
pub open spec fn shared_temp(t_own: u64, t_other: u64, hc_own: u64, hc_other: u64, cc: u64) -> u64 {
    if !share_applies(t_own, t_other, hc_own, hc_other) {
        t_own
    } else {
        let amt = share_amount(t_own, t_other, hc_own, hc_other, cc, hc_own);
        if t_own >= t_other {
            clamp_temp(t_own - amt)
        } else {
            clamp_temp(t_own + amt)
        }
    }
}

/// The mole sequence after writing `v` at species `i`, padding any gap with
/// zeroes.
pub open spec fn set_moles_seq(s: Seq<u64>, i: int, v: u64) -> Seq<u64> {
    Seq::new(
        max_i(s.len() as int, i + 1) as nat,
        |j: int|
            if j == i {
                v
            } else {
                mole(s, j)
            },
    )
}

// ------------------------------------------------------------------
// Lemmas about the sums.
// ------------------------------------------------------------------
/// A partial mole sum is never negative.
pub proof fn lemma_sum_to_nonneg(s: Seq<u64>, n: int)
    ensures
        sum_to(s, n) >= 0,
    decreases n,
{
    if n > 0 {
        lemma_sum_to_nonneg(s, n - 1);
    }
}

/// A partial mole sum of a valid sequence stays under `n` caps.
pub proof fn lemma_sum_to_cap(s: Seq<u64>, n: int)
    requires
        0 <= n,
        forall|i: int| #[trigger] mole(s, i) <= QUANTITY_CAP,
    ensures
        0 <= sum_to(s, n) <= n * 1_000_000_000_000,
        sum_to(s, n) <= n * QUANTITY_CAP,
    decreases n,
{
    if n > 0 {
        lemma_sum_to_cap(s, n - 1);
    }
}

/// Summing past the end of the sequence adds nothing.
pub proof fn lemma_sum_to_extends(s: Seq<u64>, n: int)
    requires
        n >= s.len(),
    ensures
        sum_to(s, n) == sum_moles(s),
    decreases n - s.len(),
{
    if n > s.len() {
        lemma_sum_to_extends(s, n - 1);
    }
}

/// One species never holds more than the whole sum.
pub proof fn lemma_mole_le_sum_to(s: Seq<u64>, i: int, n: int)
    requires
        0 <= i < n,
    ensures
        mole(s, i) <= sum_to(s, n),
    decreases n,
{
    if i == n - 1 {
        lemma_sum_to_nonneg(s, n - 1);
    } else {
        lemma_mole_le_sum_to(s, i, n - 1);
    }
}

/// Sums add pointwise: when `c` is the per-species sum of `a` and `b`, its
/// total is the sum of their totals.
pub proof fn lemma_sum_to_pointwise_add(a: Seq<u64>, b: Seq<u64>, c: Seq<u64>, n: int)
    requires
        forall|i: int| 0 <= i < n ==> #[trigger] mole(c, i) == mole(a, i) + mole(b, i),
    ensures
        sum_to(c, n) == sum_to(a, n) + sum_to(b, n),
    decreases n,
{
    if n > 0 {
        lemma_sum_to_pointwise_add(a, b, c, n - 1);
    }
}

/// A partial heat-capacity sum of valid sequences is bounded and
/// non-negative.
pub proof fn lemma_wsum_to_cap(m: Seq<u64>, h: Seq<u64>, n: int)
    requires
        0 <= n,
        forall|i: int| #[trigger] mole(m, i) <= QUANTITY_CAP,
        forall|i: int| #[trigger] mole(h, i) <= QUANTITY_CAP,
    ensures
        0 <= wsum_to(m, h, n) <= n * 1_000_000_000_000_000_000_000_000,
    decreases n,
{
    if n > 0 {
        lemma_wsum_to_cap(m, h, n - 1);
        lemma_mul_upper_bound(
            mole(m, n - 1) as int,
            1_000_000_000_000,
            mole(h, n - 1) as int,
            1_000_000_000_000,
        );
    }
}

/// Taking a fraction `a / t` (with `a <= t`) of a species' moles never
/// yields more than the species holds.
pub proof fn lemma_scaled_fraction_le(m: u64, a: int, t: int)
    requires
        0 <= a <= t,
        0 < t,
    ensures
        0 <= m * a / t <= m,
{
    lemma_mul_inequality(a, t, m as int);
    lemma_mul_is_commutative(m as int, a);
    lemma_mul_is_commutative(m as int, t);
    lemma_div_is_ordered(m as int * a, m as int * t, t);
    lemma_div_by_multiple(m as int, t);
    lemma_mul_nonnegative(m as int, a);
    lemma_div_pos_is_pos(m as int * a, t);
}

/// Every entry of a valid catalog's heat table is in domain, also through
/// the padded [`mole`] reading.
pub proof fn lemma_heats_in_domain(cat: &GasCatalog)
    requires
        cat.wf(),
    ensures
        forall|i: int| #[trigger] mole(cat.heats_view(), i) <= QUANTITY_CAP,
{
    assert forall|i: int| #[trigger] mole(cat.heats_view(), i) <= QUANTITY_CAP by {
        if 0 <= i < cat.heats_view().len() {
            assert(cat.heats_view()[i] <= QUANTITY_CAP);
        }
    }
}

// ------------------------------------------------------------------
// Small verified arithmetic helpers.
// ------------------------------------------------------------------
/// The product of two raw quantities, widened so it cannot overflow.
fn widening_mul(a: u64, b: u64) -> (r: u128)
    ensures
        r == a as int * b as int,
{
    proof {
        lemma_mul_upper_bound(a as int, u64::MAX as int, b as int, u64::MAX as int);
    }
    (a as u128) * (b as u128)
}

/// Clamps a wide intermediate into the representable domain.
fn cap_quantity(x: u128) -> (r: u64)
    ensures
        r == cap_q(x as int),
{
    if x > QUANTITY_CAP as u128 {
        QUANTITY_CAP
    } else {
        x as u64
    }
}

/// An owned copy of a mole vector.
fn copy_moles(src: &Vec<u64>) -> (r: Vec<u64>)
    ensures
        r@ == src@,
{
    let mut r: Vec<u64> = Vec::new();
    let mut i: usize = 0;
    while i < src.len()
        invariant
            i <= src@.len(),
            r@ == src@.subrange(0, i as int),
        decreases src@.len() - i,
    {
        r.push(src[i]);
        proof {
            assert(r@ =~= src@.subrange(0, i + 1 as int));
        }
        i = i + 1;
    }
    proof {
        assert(r@ =~= src@);
    }
    r
}

/// What [`GasMixture::compare`] found: the first species whose amounts
/// differ meaningfully, a meaningful temperature-only difference, or no
/// meaningful difference at all.
#[derive(Clone, Copy, PartialEq, Eq, Structural, Debug)]
pub enum GasCompareResult {
    MolesDiffer(usize),
    TemperatureDiffers,
    NoDifference,
}

/// One side of a heat exchange applied to a temperature: towards the other
/// side by `amt`, clamped into the stored band.
fn apply_share_side(t_own: u64, t_other: u64, amt: u128) -> (r: u64)
    requires
        t_own <= QUANTITY_CAP,
        amt <= 100_000_000_000_000_000_000_000_000_000,
    ensures
        t_own >= t_other ==> r == clamp_temp(t_own - amt),
        t_own < t_other ==> r == clamp_temp(t_own + amt),
{
    if t_own >= t_other {
        if amt >= t_own as u128 {
            TEMP_MIN
        } else {
            let x: u64 = t_own - (amt as u64);
            if x < TEMP_MIN {
                TEMP_MIN
            } else {
                x
            }
        }
    } else {
        let sum: u128 = t_own as u128 + amt;
        if sum > QUANTITY_CAP as u128 {
            QUANTITY_CAP
        } else {
            let s: u64 = sum as u64;
            if s < TEMP_MIN {
                TEMP_MIN
            } else {
                s
            }
        }
    }
}

// ------------------------------------------------------------------
// The mixture itself.
// ------------------------------------------------------------------
/// The physical state of one simulation cell's gas.
pub struct GasMixture {
    moles: Vec<u64>,
    temperature: u64,
    volume: u64,
    min_heat_capacity: u64,
    immutable: bool,
}

impl GasMixture {
    /// The per-species mole sequence (sparse at the tail; see [`mole`]).
    pub closed spec fn moles_view(&self) -> Seq<u64> {
        self.moles@
    }

    /// The temperature, in raw kelvin units.
    pub closed spec fn temp_view(&self) -> u64 {
        self.temperature
    }

    /// The volume, in raw units.
    pub closed spec fn vol_view(&self) -> u64 {
        self.volume
    }

    /// The heat-capacity floor, in raw units.
    pub closed spec fn min_hc_view(&self) -> u64 {
        self.min_heat_capacity
    }

    /// Whether the one-way immutability latch is set.
    pub closed spec fn immutable_view(&self) -> bool {
        self.immutable
    }

    /// Mixture validity: every stored quantity is in the representable
    /// domain and the mole sequence is bounded.
    pub open spec fn wf(&self) -> bool {
        &&& wf_moles(self.moles_view())
        &&& self.temp_view() <= QUANTITY_CAP
        &&& self.vol_view() <= QUANTITY_CAP
        &&& self.min_hc_view() <= QUANTITY_CAP
    }

    /// A mixture in its slot-allocation state: no moles, unset temperature,
    /// default cell volume, no heat-capacity floor, mutable.
    pub open spec fn is_reset(&self) -> bool {
        &&& self.moles_view().len() == 0
        &&& self.temp_view() == 0
        &&& self.vol_view() == CELL_VOLUME
        &&& self.min_hc_view() == 0
        &&& !self.immutable_view()
    }

    /// A fresh, empty mixture at the default cell volume.
    pub fn new() -> (r: Self)
        ensures
            r.wf(),
            r.is_reset(),
    {
        GasMixture {
            moles: Vec::new(),
            temperature: 0,
            volume: CELL_VOLUME,
            min_heat_capacity: 0,
            immutable: false,
        }
    }

    /// A fresh, empty mixture with the given volume (clamped into domain).
    pub fn from_vol(volume: u64) -> (r: Self)
        ensures
            r.wf(),
            r.moles_view().len() == 0,
            r.temp_view() == 0,
            r.vol_view() == cap_q(volume as int),
            r.min_hc_view() == 0,
            !r.immutable_view(),
    {
        let v: u64 = if volume > QUANTITY_CAP {
            QUANTITY_CAP
        } else {
            volume
        };
        GasMixture { moles: Vec::new(), temperature: 0, volume: v, min_heat_capacity: 0, immutable: false }
    }

    /// The temperature of the mixture.
    pub fn get_temperature(&self) -> (t: u64)
        ensures
            t == self.temp_view(),
    {
        self.temperature
    }

    /// The volume of the mixture.
    pub fn get_volume(&self) -> (v: u64)
        ensures
            v == self.vol_view(),
    {
        self.volume
    }

    /// The heat-capacity floor of the mixture.
    pub fn get_min_heat_capacity(&self) -> (v: u64)
        ensures
            v == self.min_hc_view(),
    {
        self.min_heat_capacity
    }

    /// Whether the mixture has been marked immutable.
    pub fn is_immutable(&self) -> (b: bool)
        ensures
            b == self.immutable_view(),
    {
        self.immutable
    }

    /// The moles of one species; zero for any species never set.
    pub fn get_moles(&self, idx: usize) -> (m: u64)
        ensures
            m == mole(self.moles_view(), idx as int),
    {
        if idx < self.moles.len() {
            self.moles[idx]
        } else {
            0
        }
    }

    /// Writes the moles of one species. Rejects a negative or
    /// over-the-domain value (`InvalidNumericInput`) and a species index the
    /// engine cannot hold (`OutOfRangeIndex`); does nothing on an immutable
    /// mixture.
    pub fn set_moles(&mut self, idx: usize, value: i64) -> (r: Result<(), AtmosError>)
        requires
            old(self).wf(),
        ensures
            final(self).wf(),
            value < 0 || value > QUANTITY_CAP ==> r == Result::<(), AtmosError>::Err(
                AtmosError::InvalidNumericInput,
            ) && *final(self) == *old(self),
            0 <= value <= QUANTITY_CAP && idx >= MAX_SPECIES ==> r == Result::<(), AtmosError>::Err(
                AtmosError::OutOfRangeIndex,
            ) && *final(self) == *old(self),
            0 <= value <= QUANTITY_CAP && idx < MAX_SPECIES && old(self).immutable_view() ==> r
                == Result::<(), AtmosError>::Ok(()) && *final(self) == *old(self),
            0 <= value <= QUANTITY_CAP && idx < MAX_SPECIES && !old(self).immutable_view() ==> {
                &&& r == Result::<(), AtmosError>::Ok(())
                &&& final(self).moles_view() == set_moles_seq(
                    old(self).moles_view(),
                    idx as int,
                    value as u64,
                )
                &&& final(self).temp_view() == old(self).temp_view()
                &&& final(self).vol_view() == old(self).vol_view()
                &&& final(self).min_hc_view() == old(self).min_hc_view()
                &&& final(self).immutable_view() == old(self).immutable_view()
            },
    {
        if value < 0 || value > QUANTITY_CAP as i64 {
            return Err(AtmosError::InvalidNumericInput);
        }
        if idx >= MAX_SPECIES {
            return Err(AtmosError::OutOfRangeIndex);
        }
        if self.immutable {
            return Ok(());
        }
        let ghost s0: Seq<u64> = self.moles@;
        if self.moles.len() <= idx {
            while self.moles.len() < idx + 1
                invariant
                    idx < MAX_SPECIES,
                    s0.len() <= self.moles@.len() <= idx + 1,
                    forall|j: int|
                        0 <= j < self.moles@.len() ==> #[trigger] self.moles@[j] == mole(s0, j),
                    self.temp_view() == old(self).temp_view(),
                    self.vol_view() == old(self).vol_view(),
                    self.min_hc_view() == old(self).min_hc_view(),
                    self.immutable_view() == old(self).immutable_view(),
                decreases idx + 1 - self.moles@.len(),
            {
                self.moles.push(0);
            }
        }
        self.moles[idx] = value as u64;
        proof {
            assert(self.moles@ =~= set_moles_seq(s0, idx as int, value as u64));
        }
        Ok(())
    }

    /// Sets the temperature. Accepts any in-domain value, clamping it up to
    /// the temperature floor; rejects an out-of-domain value; does nothing
    /// on an immutable mixture.
    pub fn set_temperature(&mut self, value: i64) -> (r: Result<(), AtmosError>)
        requires
            old(self).wf(),
        ensures
            final(self).wf(),
            value > QUANTITY_CAP ==> r == Result::<(), AtmosError>::Err(
                AtmosError::InvalidNumericInput,
            ) && *final(self) == *old(self),
            value <= QUANTITY_CAP && old(self).immutable_view() ==> r == Result::<
                (),
                AtmosError,
            >::Ok(()) && *final(self) == *old(self),
            value <= QUANTITY_CAP && !old(self).immutable_view() ==> {
                &&& r == Result::<(), AtmosError>::Ok(())
                &&& final(self).temp_view() == (if value < TEMP_MIN {
                    TEMP_MIN
                } else {
                    value as u64
                })
                &&& final(self).moles_view() == old(self).moles_view()
                &&& final(self).vol_view() == old(self).vol_view()
                &&& final(self).min_hc_view() == old(self).min_hc_view()
                &&& final(self).immutable_view() == old(self).immutable_view()
            },
    {
        if value > QUANTITY_CAP as i64 {
            return Err(AtmosError::InvalidNumericInput);
        }
        if self.immutable {
            return Ok(());
        }
        if value < TEMP_MIN as i64 {
            self.temperature = TEMP_MIN;
        } else {
            self.temperature = value as u64;
        }
        Ok(())
    }

    /// Sets the volume; rejects an out-of-domain value.
    pub fn set_volume(&mut self, value: i64) -> (r: Result<(), AtmosError>)
        requires
            old(self).wf(),
        ensures
            final(self).wf(),
            value < 0 || value > QUANTITY_CAP ==> r == Result::<(), AtmosError>::Err(
                AtmosError::InvalidNumericInput,
            ) && *final(self) == *old(self),
            0 <= value <= QUANTITY_CAP ==> {
                &&& r == Result::<(), AtmosError>::Ok(())
                &&& final(self).vol_view() == value as u64
                &&& final(self).moles_view() == old(self).moles_view()
                &&& final(self).temp_view() == old(self).temp_view()
                &&& final(self).min_hc_view() == old(self).min_hc_view()
                &&& final(self).immutable_view() == old(self).immutable_view()
            },
    {
        if value < 0 || value > QUANTITY_CAP as i64 {
            return Err(AtmosError::InvalidNumericInput);
        }
        self.volume = value as u64;
        Ok(())
    }

    /// Sets the heat-capacity floor; rejects an out-of-domain value.
    pub fn set_min_heat_capacity(&mut self, value: i64) -> (r: Result<(), AtmosError>)
        requires
            old(self).wf(),
        ensures
            final(self).wf(),
            value < 0 || value > QUANTITY_CAP ==> r == Result::<(), AtmosError>::Err(
                AtmosError::InvalidNumericInput,
            ) && *final(self) == *old(self),
            0 <= value <= QUANTITY_CAP ==> {
                &&& r == Result::<(), AtmosError>::Ok(())
                &&& final(self).min_hc_view() == value as u64
                &&& final(self).moles_view() == old(self).moles_view()
                &&& final(self).temp_view() == old(self).temp_view()
                &&& final(self).vol_view() == old(self).vol_view()
                &&& final(self).immutable_view() == old(self).immutable_view()
            },
    {
        if value < 0 || value > QUANTITY_CAP as i64 {
            return Err(AtmosError::InvalidNumericInput);
        }
        self.min_heat_capacity = value as u64;
        Ok(())
    }

    /// Latches the mixture immutable: a one-way switch until the slot is
    /// recycled. The latch guards exactly the operations whose interface
    /// says so — `set_moles`, `set_temperature`, `merge`, `clear` and
    /// `copy_from_mutable` (as destination) become no-ops; the remaining
    /// operations act regardless, and validating their use on an immutable
    /// mixture is the boundary's job.
    pub fn mark_immutable(&mut self)
        requires
            old(self).wf(),
        ensures
            final(self).wf(),
            final(self).immutable_view(),
            final(self).moles_view() == old(self).moles_view(),
            final(self).temp_view() == old(self).temp_view(),
            final(self).vol_view() == old(self).vol_view(),
            final(self).min_hc_view() == old(self).min_hc_view(),
    {
        self.immutable = true;
    }

    /// Zeroes all moles and resets temperature and volume to their
    /// defaults; ignored on an immutable mixture.
    pub fn clear(&mut self)
        requires
            old(self).wf(),
        ensures
            final(self).wf(),
            old(self).immutable_view() ==> *final(self) == *old(self),
            !old(self).immutable_view() ==> {
                &&& final(self).moles_view().len() == 0
                &&& final(self).temp_view() == 0
                &&& final(self).vol_view() == CELL_VOLUME
                &&& final(self).min_hc_view() == old(self).min_hc_view()
                &&& !final(self).immutable_view()
            },
    {
        if self.immutable {
            return ;
        }
        self.moles.clear();
        self.temperature = 0;
        self.volume = CELL_VOLUME;
    }

    /// Replaces this mixture's moles, temperature and volume with `other`'s;
    /// a no-op when this mixture (the destination) is immutable.
    pub fn copy_from_mutable(&mut self, other: &GasMixture)
        requires
            old(self).wf(),
            other.wf(),
        ensures
            final(self).wf(),
            old(self).immutable_view() ==> *final(self) == *old(self),
            !old(self).immutable_view() ==> {
                &&& final(self).moles_view() == other.moles_view()
                &&& final(self).temp_view() == other.temp_view()
                &&& final(self).vol_view() == other.vol_view()
                &&& final(self).min_hc_view() == old(self).min_hc_view()
                &&& final(self).immutable_view() == old(self).immutable_view()
            },
    {
        if self.immutable {
            return ;
        }
        self.moles = copy_moles(&other.moles);
        self.temperature = other.temperature;
        self.volume = other.volume;
    }

    /// The total moles across every species.
    pub fn total_moles(&self) -> (t: u64)
        requires
            self.wf(),
        ensures
            t == sum_moles(self.moles_view()),
    {
        proof {
            lemma_sum_to_cap(self.moles_view(), self.moles_view().len() as int);
        }
        let mut total: u64 = 0;
        let mut i: usize = 0;
        while i < self.moles.len()
            invariant
                self.wf(),
                i <= self.moles@.len(),
                total == sum_to(self.moles@, i as int),
                total <= i * QUANTITY_CAP,
            decreases self.moles@.len() - i,
        {
            proof {
                lemma_sum_to_cap(self.moles_view(), i + 1 as int);
                assert(mole(self.moles_view(), i as int) == self.moles@[i as int]);
            }
            total = total + self.moles[i];
            i = i + 1;
        }
        total
    }

    /// Scales every species' moles by `factor` (raw fixed-point, so
    /// `SCALE` means no change), saturating at the domain cap. The scale is
    /// applied unconditionally; validating the factor is the boundary's job.
    pub fn multiply(&mut self, factor: u64)
        requires
            old(self).wf(),
        ensures
            final(self).wf(),
            final(self).moles_view().len() == old(self).moles_view().len(),
            forall|i: int|
                0 <= i < final(self).moles_view().len() ==> #[trigger] final(self).moles_view()[i]
                    == cap_q(old(self).moles_view()[i] * factor / (SCALE as int)),
            final(self).temp_view() == old(self).temp_view(),
            final(self).vol_view() == old(self).vol_view(),
            final(self).min_hc_view() == old(self).min_hc_view(),
            final(self).immutable_view() == old(self).immutable_view(),
    {
        let ghost s0: Seq<u64> = self.moles@;
        let mut i: usize = 0;
        while i < self.moles.len()
            invariant
                old(self).wf(),
                self.moles@.len() == s0.len(),
                s0 == old(self).moles_view(),
                i <= self.moles@.len(),
                forall|j: int|
                    0 <= j < i ==> #[trigger] self.moles@[j] == cap_q(
                        s0[j] * factor / (SCALE as int),
                    ),
                forall|j: int| i <= j < s0.len() ==> #[trigger] self.moles@[j] == s0[j],
                self.temp_view() == old(self).temp_view(),
                self.vol_view() == old(self).vol_view(),
                self.min_hc_view() == old(self).min_hc_view(),
                self.immutable_view() == old(self).immutable_view(),
            decreases self.moles@.len() - i,
        {
            let m: u64 = self.moles[i];
            let scaled: u128 = widening_mul(m, factor) / (SCALE as u128);
            let capped: u64 = cap_quantity(scaled);
            self.moles[i] = capped;
            i = i + 1;
        }
    }

    /// Heat capacity: the sum of each species' moles times its specific
    /// heat, floored by the mixture's heat-capacity floor.
    pub fn heat_capacity(&self, cat: &GasCatalog) -> (hc: u64)
        requires
            self.wf(),
            cat.wf(),
        ensures
            hc == heat_capacity_model(self.moles_view(), cat.heats_view(), self.min_hc_view()),
    {
        proof {
            lemma_heats_in_domain(cat);
        }
        let mut acc: u128 = 0;
        let mut i: usize = 0;
        while i < self.moles.len()
            invariant
                self.wf(),
                cat.wf(),
                i <= self.moles@.len(),
                acc == wsum_to(self.moles@, cat.heats_view(), i as int),
                acc <= i * 1_000_000_000_000_000_000_000_000,
            decreases self.moles@.len() - i,
        {
            proof {
                lemma_heats_in_domain(cat);
                lemma_mul_upper_bound(
                    mole(self.moles_view(), i as int) as int,
                    1_000_000_000_000,
                    mole(cat.heats_view(), i as int) as int,
                    1_000_000_000_000,
                );
            }
            let h: u64 = cat.specific_heat(i);
            proof {
                assert(h == mole(cat.heats_view(), i as int));
                assert(self.moles@[i as int] == mole(self.moles_view(), i as int));
            }
            acc = acc + widening_mul(self.moles[i], h);
            i = i + 1;
        }
        let divided: u128 = acc / (SCALE as u128);
        let floored: u128 = if divided < self.min_heat_capacity as u128 {
            self.min_heat_capacity as u128
        } else {
            divided
        };
        cap_quantity(floored)
    }

    /// Thermal energy: heat capacity times temperature.
    pub fn thermal_energy(&self, cat: &GasCatalog) -> (te: u64)
        requires
            self.wf(),
            cat.wf(),
        ensures
            te == thermal_energy_model(
                self.moles_view(),
                cat.heats_view(),
                self.min_hc_view(),
                self.temp_view(),
            ),
    {
        let hc: u64 = self.heat_capacity(cat);
        let e: u128 = widening_mul(hc, self.temperature) / (SCALE as u128);
        cap_quantity(e)
    }

    /// Ideal-gas pressure from total moles, temperature and volume; zero
    /// when the volume is zero.
    pub fn return_pressure(&self) -> (p: u64)
        requires
            self.wf(),
        ensures
            p == pressure_model(sum_moles(self.moles_view()), self.temp_view(), self.vol_view()),
    {
        if self.volume == 0 {
            return 0;
        }
        let total: u64 = self.total_moles();
        proof {
            lemma_sum_to_cap(self.moles_view(), self.moles_view().len() as int);
            assert(total <= 4_096_000_000_000_000);
            lemma_mul_upper_bound(total as int, 4_096_000_000_000_000, R_IDEAL_GAS as int, 83_140);
            lemma_mul_upper_bound(
                total as int * R_IDEAL_GAS as int,
                340_541_440_000_000_000_000,
                self.temp_view() as int,
                1_000_000_000_000,
            );
            lemma_mul_upper_bound(SCALE as int, 10_000, self.vol_view() as int, 1_000_000_000_000);
            lemma_mul_nonnegative(total as int, R_IDEAL_GAS as int);
            lemma_mul_nonnegative(total as int * R_IDEAL_GAS as int, self.temp_view() as int);
            vstd::arithmetic::mul::lemma_mul_strictly_positive(SCALE as int, self.vol_view() as int);
        }
        let nr: u128 = widening_mul(total, R_IDEAL_GAS);
        let nrt: u128 = nr * (self.temperature as u128);
        let denom: u128 = (SCALE as u128) * (self.volume as u128);
        cap_quantity(nrt / denom)
    }

    /// Pours `giver`'s moles into this mixture additively and
    /// weighted-averages the temperature by the two sides' pre-merge heat
    /// capacities. `giver` is untouched; an immutable receiver is left
    /// unchanged.
    pub fn merge(&mut self, giver: &GasMixture, cat: &GasCatalog)
        requires
            old(self).wf(),
            giver.wf(),
            cat.wf(),
        ensures
            final(self).wf(),
            old(self).immutable_view() ==> *final(self) == *old(self),
            !old(self).immutable_view() ==> {
                &&& final(self).moles_view() == merged_moles(
                    old(self).moles_view(),
                    giver.moles_view(),
                )
                &&& final(self).temp_view() == merge_temp(
                    heat_capacity_model(
                        old(self).moles_view(),
                        cat.heats_view(),
                        old(self).min_hc_view(),
                    ),
                    old(self).temp_view(),
                    heat_capacity_model(giver.moles_view(), cat.heats_view(), giver.min_hc_view()),
                    giver.temp_view(),
                )
                &&& final(self).vol_view() == old(self).vol_view()
                &&& final(self).min_hc_view() == old(self).min_hc_view()
                &&& final(self).immutable_view() == old(self).immutable_view()
            },
    {
        if self.immutable {
            return ;
        }
        let self_hc: u64 = self.heat_capacity(cat);
        let giver_hc: u64 = giver.heat_capacity(cat);
        let ghost s0: Seq<u64> = self.moles@;
        if self.moles.len() < giver.moles.len() {
            while self.moles.len() < giver.moles.len()
                invariant
                    giver.wf(),
                    s0.len() <= self.moles@.len() <= giver.moles_view().len(),
                    forall|j: int|
                        0 <= j < self.moles@.len() ==> #[trigger] self.moles@[j] == mole(s0, j),
                    self.temp_view() == old(self).temp_view(),
                    self.vol_view() == old(self).vol_view(),
                    self.min_hc_view() == old(self).min_hc_view(),
                    self.immutable_view() == old(self).immutable_view(),
                decreases giver.moles_view().len() - self.moles@.len(),
            {
                self.moles.push(0);
            }
        }
        let ghost padded: Seq<u64> = self.moles@;
        let mut i: usize = 0;
        while i < self.moles.len()
            invariant
                wf_moles(s0),
                giver.wf(),
                self.moles@.len() == padded.len(),
                padded.len() == max_i(s0.len() as int, giver.moles_view().len() as int),
                i <= self.moles@.len(),
                forall|j: int| i <= j < padded.len() ==> #[trigger] self.moles@[j] == mole(s0, j),
                forall|j: int|
                    0 <= j < i ==> #[trigger] self.moles@[j] == cap_q(
                        mole(s0, j) + mole(giver.moles_view(), j),
                    ),
                self.temp_view() == old(self).temp_view(),
                self.vol_view() == old(self).vol_view(),
                self.min_hc_view() == old(self).min_hc_view(),
                self.immutable_view() == old(self).immutable_view(),
            decreases self.moles@.len() - i,
        {
            let a: u64 = self.moles[i];
            let b: u64 = giver.get_moles(i);
            proof {
                assert(a == mole(s0, i as int));
                assert(mole(s0, i as int) <= QUANTITY_CAP);
                assert(mole(giver.moles_view(), i as int) <= QUANTITY_CAP);
            }
            let total: u64 = a + b;
            let capped: u64 = if total > QUANTITY_CAP {
                QUANTITY_CAP
            } else {
                total
            };
            self.moles[i] = capped;
            i = i + 1;
        }
        proof {
            assert(self.moles@ =~= merged_moles(s0, giver.moles_view()));
        }
        let combined: u128 = self_hc as u128 + giver_hc as u128;
        if combined > 0 {
            proof {
                lemma_mul_upper_bound(
                    self_hc as int,
                    1_000_000_000_000,
                    self.temp_view() as int,
                    1_000_000_000_000,
                );
                lemma_mul_upper_bound(
                    giver_hc as int,
                    1_000_000_000_000,
                    giver.temp_view() as int,
                    1_000_000_000_000,
                );
            }
            let num: u128 = widening_mul(self_hc, self.temperature) + widening_mul(
                giver_hc,
                giver.temperature,
            );
            self.temperature = cap_quantity(num / combined);
        }
    }

    /// Removes up to `amount` moles, taken proportionally across species,
    /// into a fresh mixture at this mixture's temperature and volume. Never
    /// removes more than the mixture holds; an empty mixture yields an
    /// empty result.
    pub fn remove(&mut self, amount: i64) -> (removed: GasMixture)
        requires
            old(self).wf(),
        ensures
            final(self).wf(),
            removed.wf(),
            ({
                let a = clamp_amount(old(self).moles_view(), amount as int);
                &&& removed.moles_view() == removed_moles(old(self).moles_view(), a)
                &&& final(self).moles_view() == depleted_moles(old(self).moles_view(), a)
            }),
            removed.temp_view() == old(self).temp_view(),
            removed.vol_view() == old(self).vol_view(),
            removed.min_hc_view() == 0,
            !removed.immutable_view(),
            final(self).temp_view() == old(self).temp_view(),
            final(self).vol_view() == old(self).vol_view(),
            final(self).min_hc_view() == old(self).min_hc_view(),
            final(self).immutable_view() == old(self).immutable_view(),
    {
        let total: u64 = self.total_moles();
        let a: u64 = if amount < 0 {
            0
        } else if amount as u64 > total {
            total
        } else {
            amount as u64
        };
        let ghost s0: Seq<u64> = self.moles@;
        let mut taken: Vec<u64> = Vec::new();
        let mut i: usize = 0;
        while i < self.moles.len()
            invariant
                self.wf(),
                i <= self.moles@.len(),
                s0 == self.moles@,
                total == sum_moles(s0),
                a <= total,
                taken@.len() == i,
                forall|j: int|
                    0 <= j < i ==> #[trigger] taken@[j] == removed_moles(s0, a as int)[j],
            decreases self.moles@.len() - i,
        {
            let m: u64 = self.moles[i];
            let t: u64 = if total == 0 {
                0
            } else {
                proof {
                    lemma_scaled_fraction_le(m, a as int, total as int);
                }
                (widening_mul(m, a) / (total as u128)) as u64
            };
            taken.push(t);
            i = i + 1;
        }
        proof {
            assert(taken@ =~= removed_moles(s0, a as int));
        }
        let mut i: usize = 0;
        while i < self.moles.len()
            invariant
                wf_moles(s0),
                self.moles@.len() == s0.len(),
                taken@ == removed_moles(s0, a as int),
                taken@.len() == s0.len(),
                total == sum_moles(s0),
                a <= total,
                i <= self.moles@.len(),
                forall|j: int| i <= j < s0.len() ==> #[trigger] self.moles@[j] == s0[j],
                forall|j: int|
                    0 <= j < i ==> #[trigger] self.moles@[j] == depleted_moles(s0, a as int)[j],
                self.temp_view() == old(self).temp_view(),
                self.vol_view() == old(self).vol_view(),
                self.min_hc_view() == old(self).min_hc_view(),
                self.immutable_view() == old(self).immutable_view(),
            decreases self.moles@.len() - i,
        {
            let m: u64 = self.moles[i];
            let t: u64 = taken[i];
            proof {
                assert(m == s0[i as int]);
                if total > 0 {
                    lemma_scaled_fraction_le(m, a as int, total as int);
                }
                assert(t <= m);
            }
            self.moles[i] = m - t;
            i = i + 1;
        }
        proof {
            assert(self.moles@ =~= depleted_moles(s0, a as int));
            assert forall|j: int| #[trigger] mole(taken@, j) <= QUANTITY_CAP by {
                if 0 <= j < taken@.len() {
                    assert(mole(s0, j) == s0[j]);
                    if sum_moles(s0) != 0 {
                        lemma_scaled_fraction_le(s0[j], a as int, sum_moles(s0));
                    }
                }
            }
            assert forall|j: int| #[trigger] mole(self.moles@, j) <= QUANTITY_CAP by {
                if 0 <= j < self.moles@.len() {
                    assert(mole(s0, j) == s0[j]);
                    if sum_moles(s0) != 0 {
                        lemma_scaled_fraction_le(s0[j], a as int, sum_moles(s0));
                    }
                }
            }
        }
        GasMixture {
            moles: taken,
            temperature: self.temperature,
            volume: self.volume,
            min_heat_capacity: 0,
            immutable: false,
        }
    }

    /// Removes the given fraction (raw fixed-point, clamped into
    /// `[0, SCALE]`) of every species into a fresh mixture at this
    /// mixture's temperature and volume.
    pub fn remove_ratio(&mut self, ratio: i64) -> (removed: GasMixture)
        requires
            old(self).wf(),
        ensures
            final(self).wf(),
            removed.wf(),
            ({
                let rc = clamp_ratio(ratio as int);
                &&& removed.moles_view() == ratio_removed_moles(old(self).moles_view(), rc)
                &&& final(self).moles_view() == ratio_depleted_moles(old(self).moles_view(), rc)
            }),
            removed.temp_view() == old(self).temp_view(),
            removed.vol_view() == old(self).vol_view(),
            removed.min_hc_view() == 0,
            !removed.immutable_view(),
            final(self).temp_view() == old(self).temp_view(),
            final(self).vol_view() == old(self).vol_view(),
            final(self).min_hc_view() == old(self).min_hc_view(),
            final(self).immutable_view() == old(self).immutable_view(),
    {
        let rc: u64 = if ratio < 0 {
            0
        } else if ratio > SCALE as i64 {
            SCALE
        } else {
            ratio as u64
        };
        let ghost s0: Seq<u64> = self.moles@;
        let mut taken: Vec<u64> = Vec::new();
        let mut i: usize = 0;
        while i < self.moles.len()
            invariant
                self.wf(),
                i <= self.moles@.len(),
                s0 == self.moles@,
                rc <= SCALE,
                taken@.len() == i,
                forall|j: int|
                    0 <= j < i ==> #[trigger] taken@[j] == ratio_removed_moles(s0, rc as int)[j],
            decreases self.moles@.len() - i,
        {
            let m: u64 = self.moles[i];
            proof {
                lemma_scaled_fraction_le(m, rc as int, SCALE as int);
            }
            let t: u64 = (widening_mul(m, rc) / (SCALE as u128)) as u64;
            taken.push(t);
            i = i + 1;
        }
        proof {
            assert(taken@ =~= ratio_removed_moles(s0, rc as int));
        }
        let mut i: usize = 0;
        while i < self.moles.len()
            invariant
                wf_moles(s0),
                self.moles@.len() == s0.len(),
                taken@ == ratio_removed_moles(s0, rc as int),
                taken@.len() == s0.len(),
                rc <= SCALE,
                i <= self.moles@.len(),
                forall|j: int| i <= j < s0.len() ==> #[trigger] self.moles@[j] == s0[j],
                forall|j: int|
                    0 <= j < i ==> #[trigger] self.moles@[j] == ratio_depleted_moles(
                        s0,
                        rc as int,
                    )[j],
                self.temp_view() == old(self).temp_view(),
                self.vol_view() == old(self).vol_view(),
                self.min_hc_view() == old(self).min_hc_view(),
                self.immutable_view() == old(self).immutable_view(),
            decreases self.moles@.len() - i,
        {
            let m: u64 = self.moles[i];
            let t: u64 = taken[i];
            proof {
                assert(m == s0[i as int]);
                lemma_scaled_fraction_le(m, rc as int, SCALE as int);
                assert(t <= m);
            }
            self.moles[i] = m - t;
            i = i + 1;
        }
        proof {
            assert(self.moles@ =~= ratio_depleted_moles(s0, rc as int));
            assert forall|j: int| #[trigger] mole(taken@, j) <= QUANTITY_CAP by {
                if 0 <= j < taken@.len() {
                    assert(mole(s0, j) == s0[j]);
                    lemma_scaled_fraction_le(s0[j], rc as int, SCALE as int);
                }
            }
            assert forall|j: int| #[trigger] mole(self.moles@, j) <= QUANTITY_CAP by {
                if 0 <= j < self.moles@.len() {
                    assert(mole(s0, j) == s0[j]);
                    lemma_scaled_fraction_le(s0[j], rc as int, SCALE as int);
                }
            }
        }
        GasMixture {
            moles: taken,
            temperature: self.temperature,
            volume: self.volume,
            min_heat_capacity: 0,
            immutable: false,
        }
    }

    /// Finds the most different part of two mixtures: the first species
    /// index (ascending) whose amounts differ meaningfully, failing that a
    /// meaningful temperature difference, failing that no difference.
    pub fn compare(&self, sample: &GasMixture) -> (r: GasCompareResult)
        requires
            self.wf(),
            sample.wf(),
        ensures
            r matches GasCompareResult::MolesDiffer(i) ==> {
                &&& moles_differ(
                    mole(self.moles_view(), i as int),
                    mole(sample.moles_view(), i as int),
                )
                &&& forall|j: int|
                    0 <= j < i ==> !moles_differ(
                        #[trigger] mole(self.moles_view(), j),
                        mole(sample.moles_view(), j),
                    )
            },
            r is TemperatureDiffers ==> {
                &&& forall|j: int|
                    !moles_differ(
                        #[trigger] mole(self.moles_view(), j),
                        mole(sample.moles_view(), j),
                    )
                &&& temps_differ(self.temp_view(), sample.temp_view())
            },
            r is NoDifference ==> {
                &&& forall|j: int|
                    !moles_differ(
                        #[trigger] mole(self.moles_view(), j),
                        mole(sample.moles_view(), j),
                    )
                &&& !temps_differ(self.temp_view(), sample.temp_view())
            },
    {
        let ours_len: usize = self.moles.len();
        let theirs_len: usize = sample.moles.len();
        let n: usize = if ours_len >= theirs_len {
            ours_len
        } else {
            theirs_len
        };
        let mut i: usize = 0;
        while i < n
            invariant
                self.wf(),
                sample.wf(),
                i <= n,
                n == max_i(self.moles_view().len() as int, sample.moles_view().len() as int),
                forall|j: int|
                    0 <= j < i ==> !moles_differ(
                        #[trigger] mole(self.moles_view(), j),
                        mole(sample.moles_view(), j),
                    ),
            decreases n - i,
        {
            let a: u64 = self.get_moles(i);
            let b: u64 = sample.get_moles(i);
            let delta: u64 = if a >= b {
                a - b
            } else {
                b - a
            };
            if delta > MOLES_TOLERANCE + a / MOLES_TOLERANCE_RATIO {
                return GasCompareResult::MolesDiffer(i);
            }
            i = i + 1;
        }
        proof {
            assert forall|j: int|
                !moles_differ(
                    #[trigger] mole(self.moles_view(), j),
                    mole(sample.moles_view(), j),
                ) by {
                if !(0 <= j < n) {
                    assert(mole(self.moles_view(), j) == 0);
                    assert(mole(sample.moles_view(), j) == 0);
                }
            }
        }
        let ts: u64 = self.temperature;
        let to: u64 = sample.temperature;
        let tdelta: u64 = if ts >= to {
            ts - to
        } else {
            to - ts
        };
        if tdelta > TEMP_TOLERANCE + ts / MOLES_TOLERANCE_RATIO {
            GasCompareResult::TemperatureDiffers
        } else {
            GasCompareResult::NoDifference
        }
    }

    /// Exchanges heat with another mixture: each side's temperature moves
    /// towards the other in proportion to the conduction coefficient and
    /// the series combination of the two heat capacities. Returns the
    /// sharer's resulting temperature.
    pub fn temperature_share(&mut self, sharer: &mut GasMixture, coeff: i64, cat: &GasCatalog) -> (r:
        u64)
        requires
            old(self).wf(),
            old(sharer).wf(),
            cat.wf(),
        ensures
            final(self).wf(),
            final(sharer).wf(),
            ({
                let cc = clamp_coeff(coeff as int);
                let hc_s = heat_capacity_model(
                    old(self).moles_view(),
                    cat.heats_view(),
                    old(self).min_hc_view(),
                );
                let hc_o = heat_capacity_model(
                    old(sharer).moles_view(),
                    cat.heats_view(),
                    old(sharer).min_hc_view(),
                );
                &&& final(self).temp_view() == shared_temp(
                    old(self).temp_view(),
                    old(sharer).temp_view(),
                    hc_s,
                    hc_o,
                    cc,
                )
                &&& final(sharer).temp_view() == shared_temp(
                    old(sharer).temp_view(),
                    old(self).temp_view(),
                    hc_o,
                    hc_s,
                    cc,
                )
                &&& r == final(sharer).temp_view()
            }),
            final(self).moles_view() == old(self).moles_view(),
            final(self).vol_view() == old(self).vol_view(),
            final(self).min_hc_view() == old(self).min_hc_view(),
            final(self).immutable_view() == old(self).immutable_view(),
            final(sharer).moles_view() == old(sharer).moles_view(),
            final(sharer).vol_view() == old(sharer).vol_view(),
            final(sharer).min_hc_view() == old(sharer).min_hc_view(),
            final(sharer).immutable_view() == old(sharer).immutable_view(),
    {
        let cc: u64 = if coeff < 0 {
            0
        } else if coeff > SCALE as i64 {
            SCALE
        } else {
            coeff as u64
        };
        let hc_s: u64 = self.heat_capacity(cat);
        let hc_o: u64 = sharer.heat_capacity(cat);
        let t_s: u64 = self.temperature;
        let t_o: u64 = sharer.temperature;
        let delta: u64 = if t_s >= t_o {
            t_s - t_o
        } else {
            t_o - t_s
        };
        if delta > TEMP_TOLERANCE && hc_s > 0 && hc_o > 0 {
            let hsum: u128 = hc_s as u128 + hc_o as u128;
            let hprod: u128 = widening_mul(hc_s, hc_o);
            let h: u128 = hprod / hsum;
            proof {
                lemma_mul_nonnegative(hc_s as int, hc_o as int);
                lemma_div_is_ordered_by_denominator(hprod as int, hc_o as int, hsum as int);
                lemma_div_by_multiple(hc_s as int, hc_o as int);
                assert(h <= hc_s);
                lemma_mul_upper_bound(cc as int, 10_000, delta as int, 1_000_000_000_000);
                lemma_div_pos_is_pos(hprod as int, hsum as int);
            }
            let cd: u128 = widening_mul(cc, delta);
            proof {
                lemma_mul_upper_bound(cd as int, 10_000_000_000_000_000, h as int, 1_000_000_000_000);
                lemma_mul_nonnegative(cd as int, h as int);
                lemma_mul_upper_bound(SCALE as int, 10_000, hc_s as int, 1_000_000_000_000);
                lemma_mul_upper_bound(SCALE as int, 10_000, hc_o as int, 1_000_000_000_000);
                vstd::arithmetic::mul::lemma_mul_strictly_positive(SCALE as int, hc_s as int);
                vstd::arithmetic::mul::lemma_mul_strictly_positive(SCALE as int, hc_o as int);
            }
            let num: u128 = cd * h;
            let amt_s: u128 = num / ((SCALE as u128) * (hc_s as u128));
            let amt_o: u128 = num / ((SCALE as u128) * (hc_o as u128));
            proof {
                lemma_div_nonincreasing(num as int, (SCALE as int) * (hc_s as int));
                lemma_div_nonincreasing(num as int, (SCALE as int) * (hc_o as int));
                assert(abs_i(t_s as int - t_o as int) == delta as int);
            }
            self.temperature = apply_share_side(t_s, t_o, amt_s);
            sharer.temperature = apply_share_side(t_o, t_s, amt_o);
            proof {
                lemma_mul_is_commutative(hc_o as int, hc_s as int);
            }
        }
        sharer.temperature
    }

    /// Exchanges heat against an external non-gas reservoir given by its
    /// heat capacity and temperature (each clamped into domain). Only this
    /// mixture's temperature is updated; returns the reservoir's resulting
    /// temperature.
    pub fn temperature_share_non_gas(
        &mut self,
        other_heat_capacity: i64,
        other_temperature: i64,
        coeff: i64,
        cat: &GasCatalog,
    ) -> (r: u64)
        requires
            old(self).wf(),
            cat.wf(),
        ensures
            final(self).wf(),
            ({
                let cc = clamp_coeff(coeff as int);
                let hc_s = heat_capacity_model(
                    old(self).moles_view(),
                    cat.heats_view(),
                    old(self).min_hc_view(),
                );
                let hc_o = cap_q(other_heat_capacity as int);
                let t_o = cap_q(other_temperature as int);
                &&& final(self).temp_view() == shared_temp(
                    old(self).temp_view(),
                    t_o,
                    hc_s,
                    hc_o,
                    cc,
                )
                &&& r == shared_temp(t_o, old(self).temp_view(), hc_o, hc_s, cc)
            }),
            final(self).moles_view() == old(self).moles_view(),
            final(self).vol_view() == old(self).vol_view(),
            final(self).min_hc_view() == old(self).min_hc_view(),
            final(self).immutable_view() == old(self).immutable_view(),
    {
        let cc: u64 = if coeff < 0 {
            0
        } else if coeff > SCALE as i64 {
            SCALE
        } else {
            coeff as u64
        };
        let hc_o: u64 = if other_heat_capacity < 0 {
            0
        } else if other_heat_capacity > QUANTITY_CAP as i64 {
            QUANTITY_CAP
        } else {
            other_heat_capacity as u64
        };
        let t_o: u64 = if other_temperature < 0 {
            0
        } else if other_temperature > QUANTITY_CAP as i64 {
            QUANTITY_CAP
        } else {
            other_temperature as u64
        };
        let hc_s: u64 = self.heat_capacity(cat);
        let t_s: u64 = self.temperature;
        let delta: u64 = if t_s >= t_o {
            t_s - t_o
        } else {
            t_o - t_s
        };
        if delta > TEMP_TOLERANCE && hc_s > 0 && hc_o > 0 {
            let hsum: u128 = hc_s as u128 + hc_o as u128;
            let hprod: u128 = widening_mul(hc_s, hc_o);
            let h: u128 = hprod / hsum;
            proof {
                lemma_mul_nonnegative(hc_s as int, hc_o as int);
                lemma_div_is_ordered_by_denominator(hprod as int, hc_o as int, hsum as int);
                lemma_div_by_multiple(hc_s as int, hc_o as int);
                assert(h <= hc_s);
                lemma_mul_upper_bound(cc as int, 10_000, delta as int, 1_000_000_000_000);
                lemma_div_pos_is_pos(hprod as int, hsum as int);
            }
            let cd: u128 = widening_mul(cc, delta);
            proof {
                lemma_mul_upper_bound(cd as int, 10_000_000_000_000_000, h as int, 1_000_000_000_000);
                lemma_mul_nonnegative(cd as int, h as int);
                lemma_mul_upper_bound(SCALE as int, 10_000, hc_s as int, 1_000_000_000_000);
                lemma_mul_upper_bound(SCALE as int, 10_000, hc_o as int, 1_000_000_000_000);
                vstd::arithmetic::mul::lemma_mul_strictly_positive(SCALE as int, hc_s as int);
                vstd::arithmetic::mul::lemma_mul_strictly_positive(SCALE as int, hc_o as int);
            }
            let num: u128 = cd * h;
            let amt_s: u128 = num / ((SCALE as u128) * (hc_s as u128));
            let amt_o: u128 = num / ((SCALE as u128) * (hc_o as u128));
            proof {
                lemma_div_nonincreasing(num as int, (SCALE as int) * (hc_s as int));
                lemma_div_nonincreasing(num as int, (SCALE as int) * (hc_o as int));
                assert(abs_i(t_s as int - t_o as int) == delta as int);
            }
            self.temperature = apply_share_side(t_s, t_o, amt_s);
            let other_new: u64 = apply_share_side(t_o, t_s, amt_o);
            proof {
                lemma_mul_is_commutative(hc_o as int, hc_s as int);
            }
            other_new
        } else {
            t_o
        }
    }

    /// Every species index holding moles, in ascending order. Recomputed on
    /// each call; the mixture is untouched.
    pub fn get_gases(&self) -> (r: Vec<usize>)
        requires
            self.wf(),
        ensures
            forall|k1: int, k2: int| 0 <= k1 < k2 < r@.len() ==> r@[k1] < r@[k2],
            forall|k: int|
                0 <= k < r@.len() ==> mole(self.moles_view(), (#[trigger] r@[k]) as int) > 0,
            forall|i: int|
                0 <= i < self.moles_view().len() && #[trigger] self.moles_view()[i] > 0
                    ==> r@.contains(i as usize),
    {
        let mut r: Vec<usize> = Vec::new();
        let mut i: usize = 0;
        while i < self.moles.len()
            invariant
                self.wf(),
                i <= self.moles@.len(),
                forall|k: int| 0 <= k < r@.len() ==> #[trigger] r@[k] < i,
                forall|k1: int, k2: int| 0 <= k1 < k2 < r@.len() ==> r@[k1] < r@[k2],
                forall|k: int|
                    0 <= k < r@.len() ==> mole(self.moles_view(), (#[trigger] r@[k]) as int) > 0,
                forall|j: int|
                    0 <= j < i && #[trigger] self.moles@[j] > 0 ==> r@.contains(j as usize),
            decreases self.moles@.len() - i,
        {
            if self.moles[i] > 0 {
                let ghost r0: Seq<usize> = r@;
                r.push(i);
                proof {
                    assert(r@[r@.len() - 1] == i);
                    assert forall|j: int|
                        0 <= j < i + 1 && #[trigger] self.moles@[j] > 0 implies r@.contains(
                        j as usize,
                    ) by {
                        if j < i {
                            let k = choose|k: int| 0 <= k < r0.len() && r0[k] == j as usize;
                            assert(r@[k] == j as usize);
                        }
                    }
                }
            }
            i = i + 1;
        }
        r
    }

    /// Moves the listed species out of this mixture into a fresh buffer at
    /// this mixture's temperature and the default cell volume, then merges
    /// the buffer into `dest`. Species indices the engine cannot hold are
    /// skipped; an immutable source keeps its own moles.
    pub fn scrub_into(&mut self, dest: &mut GasMixture, scrub_list: &Vec<usize>, cat: &GasCatalog)
        requires
            old(self).wf(),
            old(dest).wf(),
            cat.wf(),
        ensures
            final(self).wf(),
            final(dest).wf(),
            ({
                let folded = scrub_fold(
                    Seq::<u64>::empty(),
                    old(self).moles_view(),
                    scrub_list@,
                    old(self).immutable_view(),
                );
                &&& final(self).moles_view() == folded.1
                &&& (!old(dest).immutable_view() ==> {
                    &&& final(dest).moles_view() == merged_moles(
                        old(dest).moles_view(),
                        folded.0,
                    )
                    &&& final(dest).temp_view() == merge_temp(
                        heat_capacity_model(
                            old(dest).moles_view(),
                            cat.heats_view(),
                            old(dest).min_hc_view(),
                        ),
                        old(dest).temp_view(),
                        heat_capacity_model(folded.0, cat.heats_view(), 0u64),
                        old(self).temp_view(),
                    )
                })
                &&& (old(dest).immutable_view() ==> *final(dest) == *old(dest))
            }),
            final(self).temp_view() == old(self).temp_view(),
            final(self).vol_view() == old(self).vol_view(),
            final(self).min_hc_view() == old(self).min_hc_view(),
            final(self).immutable_view() == old(self).immutable_view(),
            final(dest).vol_view() == old(dest).vol_view(),
            final(dest).min_hc_view() == old(dest).min_hc_view(),
            final(dest).immutable_view() == old(dest).immutable_view(),
    {
        let ghost src0: Seq<u64> = self.moles@;
        let ghost locked: bool = self.immutable;
        let mut buffer: GasMixture = GasMixture {
            moles: Vec::new(),
            temperature: self.temperature,
            volume: CELL_VOLUME,
            min_heat_capacity: 0,
            immutable: false,
        };
        proof {
            assert(buffer.moles_view() =~= Seq::<u64>::empty());
            assert(scrub_list@.skip(0) =~= scrub_list@);
        }
        let mut k: usize = 0;
        while k < scrub_list.len()
            invariant
                cat.wf(),
                buffer.wf(),
                self.wf(),
                k <= scrub_list@.len(),
                locked == old(self).immutable_view(),
                scrub_fold(buffer.moles_view(), self.moles_view(), scrub_list@.skip(k as int), locked)
                    == scrub_fold(Seq::<u64>::empty(), src0, scrub_list@, locked),
                buffer.temp_view() == old(self).temp_view(),
                buffer.vol_view() == CELL_VOLUME,
                buffer.min_hc_view() == 0,
                !buffer.immutable_view(),
                self.temp_view() == old(self).temp_view(),
                self.vol_view() == old(self).vol_view(),
                self.min_hc_view() == old(self).min_hc_view(),
                self.immutable_view() == old(self).immutable_view(),
            decreases scrub_list@.len() - k,
        {
            let ghost buf_before: Seq<u64> = buffer.moles_view();
            let ghost src_before: Seq<u64> = self.moles_view();
            let g: usize = scrub_list[k];
            proof {
                assert(scrub_list@.skip(k as int)[0] == scrub_list@[k as int]);
                assert(scrub_list@.skip(k as int).drop_first() =~= scrub_list@.skip(k + 1 as int));
            }
            if g < MAX_SPECIES {
                let bval: u64 = buffer.get_moles(g);
                let sval: u64 = self.get_moles(g);
                let v: u128 = bval as u128 + sval as u128;
                if v <= QUANTITY_CAP as u128 {
                    let _ = buffer.set_moles(g, v as i64);
                    let _ = self.set_moles(g, 0);
                    proof {
                        assert(buffer.moles_view() == set_moles_seq(
                            buf_before,
                            g as int,
                            (bval + sval) as u64,
                        ));
                        if locked {
                            assert(self.moles_view() == src_before);
                        } else {
                            assert(self.moles_view() == set_moles_seq(src_before, g as int, 0u64));
                        }
                    }
                }
            }
            proof {
                assert(scrub_step(buf_before, src_before, g, locked) == (
                    buffer.moles_view(),
                    self.moles_view(),
                ));
            }
            k = k + 1;
        }
        proof {
            assert(scrub_list@.skip(scrub_list@.len() as int) =~= Seq::<usize>::empty());
        }
        dest.merge(&buffer, cat);
    }
}

} // verus!
