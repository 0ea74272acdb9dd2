//! Reaction descriptors and the reaction-matching engine.
//!
//! A [`Reaction`] is an immutable rule: optional temperature and
//! thermal-energy thresholds, per-species minimum moles, a priority and the
//! opaque identifier of the host behavior to invoke when it fires. The
//! [`ReactionEngine`] holds the process-wide reaction table, built once from
//! host data, and answers which reactions a mixture currently satisfies, in
//! priority order.

use vstd::prelude::*;

use crate::constants::{MAX_SPECIES, QUANTITY_CAP, STOP_REACTIONS};
use crate::gas::GasCatalog;
use crate::gas_mixture::{mole, thermal_energy_model, GasMixture};
use crate::runtime::AtmosError;

verus! {

/// Host-supplied description of one reaction, thresholds in raw units.
pub struct ReactionDescriptor {
    pub priority: i64,
    pub min_temp_req: Option<i64>,
    pub max_temp_req: Option<i64>,
    pub min_ener_req: Option<i64>,
    pub min_gas_reqs: Vec<(usize, i64)>,
    pub behavior_id: u32,
}

/// An optional raw threshold is in domain when absent or inside
/// `[0, QUANTITY_CAP]`.
pub open spec fn threshold_ok(o: Option<i64>) -> bool {
    match o {
        Option::Some(v) => 0 <= v <= QUANTITY_CAP,
        Option::None => true,
    }
}

/// A per-species requirement is in domain when its species index is one the
/// engine can hold and its amount is inside `[0, QUANTITY_CAP]`.
pub open spec fn req_entry_ok(e: (usize, i64)) -> bool {
    e.0 < MAX_SPECIES && 0 <= e.1 <= QUANTITY_CAP
}

/// Whether a whole descriptor is in domain.
pub open spec fn descriptor_ok(d: ReactionDescriptor) -> bool {
    &&& threshold_ok(d.min_temp_req)
    &&& threshold_ok(d.max_temp_req)
    &&& threshold_ok(d.min_ener_req)
    &&& forall|k: int| 0 <= k < d.min_gas_reqs@.len() ==> req_entry_ok(#[trigger] d.min_gas_reqs@[k])
}

/// An optional threshold carried over into stored form.
pub open spec fn opt_raw(o: Option<i64>) -> Option<u64> {
    match o {
        Option::Some(v) => Option::Some(v as u64),
        Option::None => Option::None,
    }
}

/// One immutable reaction rule.
pub struct Reaction {
    priority: i64,
    min_temp_req: Option<u64>,
    max_temp_req: Option<u64>,
    min_ener_req: Option<u64>,
    min_gas_reqs: Vec<(usize, u64)>,
    behavior_id: u32,
}

/// Whether a stored reaction is exactly what a descriptor describes.
pub open spec fn built_from(rx: Reaction, d: ReactionDescriptor) -> bool {
    &&& rx.priority_view() == d.priority
    &&& rx.min_temp_view() == opt_raw(d.min_temp_req)
    &&& rx.max_temp_view() == opt_raw(d.max_temp_req)
    &&& rx.min_ener_view() == opt_raw(d.min_ener_req)
    &&& rx.gas_reqs_view().len() == d.min_gas_reqs@.len()
    &&& forall|k: int|
        0 <= k < d.min_gas_reqs@.len() ==> #[trigger] rx.gas_reqs_view()[k] == (
            d.min_gas_reqs@[k].0,
            d.min_gas_reqs@[k].1 as u64,
        )
    &&& rx.behavior_view() == d.behavior_id
}

/// Whether a mixture satisfies every supplied threshold of a reaction;
/// absent thresholds are vacuously satisfied.
pub open spec fn check_conditions_spec(rx: Reaction, mix: GasMixture, cat: GasCatalog) -> bool {
    &&& (match rx.min_temp_view() {
        Option::Some(v) => mix.temp_view() >= v,
        Option::None => true,
    })
    &&& (match rx.max_temp_view() {
        Option::Some(v) => mix.temp_view() <= v,
        Option::None => true,
    })
    &&& (match rx.min_ener_view() {
        Option::Some(v) => thermal_energy_model(
            mix.moles_view(),
            cat.heats_view(),
            mix.min_hc_view(),
            mix.temp_view(),
        ) >= v,
        Option::None => true,
    })
    &&& forall|k: int|
        0 <= k < rx.gas_reqs_view().len() ==> mole(
            mix.moles_view(),
            (#[trigger] rx.gas_reqs_view()[k]).0 as int,
        ) >= rx.gas_reqs_view()[k].1
}

impl Reaction {
    /// The reaction's priority (higher fires first).
    pub closed spec fn priority_view(&self) -> i64 {
        self.priority
    }

    /// The minimum-temperature threshold, when supplied.
    pub closed spec fn min_temp_view(&self) -> Option<u64> {
        self.min_temp_req
    }

    /// The maximum-temperature threshold, when supplied.
    pub closed spec fn max_temp_view(&self) -> Option<u64> {
        self.max_temp_req
    }

    /// The minimum-thermal-energy threshold, when supplied.
    pub closed spec fn min_ener_view(&self) -> Option<u64> {
        self.min_ener_req
    }

    /// The per-species minimum moles, in descriptor order.
    pub closed spec fn gas_reqs_view(&self) -> Seq<(usize, u64)> {
        self.min_gas_reqs@
    }

    /// The opaque identifier of the host behavior this reaction invokes.
    pub closed spec fn behavior_view(&self) -> u32 {
        self.behavior_id
    }

    /// Reaction validity: every stored threshold and requirement in domain.
    pub open spec fn wf(&self) -> bool {
        &&& (match self.min_temp_view() {
            Option::Some(v) => v <= QUANTITY_CAP,
            Option::None => true,
        })
        &&& (match self.max_temp_view() {
            Option::Some(v) => v <= QUANTITY_CAP,
            Option::None => true,
        })
        &&& (match self.min_ener_view() {
            Option::Some(v) => v <= QUANTITY_CAP,
            Option::None => true,
        })
        &&& forall|k: int|
            0 <= k < self.gas_reqs_view().len() ==> (#[trigger] self.gas_reqs_view()[k]).0
                < MAX_SPECIES && self.gas_reqs_view()[k].1 <= QUANTITY_CAP
    }

    /// Builds one reaction from a host descriptor. The reaction table is
    /// host-validated at startup, so an out-of-domain descriptor is a
    /// broken caller contract: construction refuses it up front rather than
    /// carrying it.
    pub fn from_descriptor(d: &ReactionDescriptor) -> (r: Result<Reaction, AtmosError>)
        ensures
            r is Ok <==> descriptor_ok(*d),
            r matches Ok(rx) ==> rx.wf() && built_from(rx, *d),
            r matches Err(e) ==> e == AtmosError::InvalidNumericInput,
    {
        let min_temp_req: Option<u64> = match d.min_temp_req {
            Option::Some(v) => {
                if v < 0 || v > QUANTITY_CAP as i64 {
                    return Err(AtmosError::InvalidNumericInput);
                }
                Option::Some(v as u64)
            },
            Option::None => Option::None,
        };
        let max_temp_req: Option<u64> = match d.max_temp_req {
            Option::Some(v) => {
                if v < 0 || v > QUANTITY_CAP as i64 {
                    return Err(AtmosError::InvalidNumericInput);
                }
                Option::Some(v as u64)
            },
            Option::None => Option::None,
        };
        let min_ener_req: Option<u64> = match d.min_ener_req {
            Option::Some(v) => {
                if v < 0 || v > QUANTITY_CAP as i64 {
                    return Err(AtmosError::InvalidNumericInput);
                }
                Option::Some(v as u64)
            },
            Option::None => Option::None,
        };
        let mut min_gas_reqs: Vec<(usize, u64)> = Vec::new();
        let mut k: usize = 0;
        while k < d.min_gas_reqs.len()
            invariant
                k <= d.min_gas_reqs@.len(),
                min_gas_reqs@.len() == k,
                forall|j: int| 0 <= j < k ==> req_entry_ok(#[trigger] d.min_gas_reqs@[j]),
                forall|j: int|
                    0 <= j < k ==> #[trigger] min_gas_reqs@[j] == (
                        d.min_gas_reqs@[j].0,
                        d.min_gas_reqs@[j].1 as u64,
                    ),
            decreases d.min_gas_reqs@.len() - k,
        {
            let (species, amount) = d.min_gas_reqs[k];
            if species >= MAX_SPECIES || amount < 0 || amount > QUANTITY_CAP as i64 {
                return Err(AtmosError::InvalidNumericInput);
            }
            min_gas_reqs.push((species, amount as u64));
            k = k + 1;
        }
        Ok(
            Reaction {
                priority: d.priority,
                min_temp_req,
                max_temp_req,
                min_ener_req,
                min_gas_reqs,
                behavior_id: d.behavior_id,
            },
        )
    }

    /// Whether the given mixture can react with this reaction: all supplied
    /// thresholds hold at once.
    pub fn check_conditions(&self, mix: &GasMixture, cat: &GasCatalog) -> (r: bool)
        requires
            self.wf(),
            mix.wf(),
            cat.wf(),
        ensures
            r == check_conditions_spec(*self, *mix, *cat),
    {
        match self.min_temp_req {
            Option::Some(v) => {
                if mix.get_temperature() < v {
                    return false;
                }
            },
            Option::None => {},
        }
        match self.max_temp_req {
            Option::Some(v) => {
                if mix.get_temperature() > v {
                    return false;
                }
            },
            Option::None => {},
        }
        match self.min_ener_req {
            Option::Some(v) => {
                if mix.thermal_energy(cat) < v {
                    return false;
                }
            },
            Option::None => {},
        }
        let mut k: usize = 0;
        while k < self.min_gas_reqs.len()
            invariant
                self.wf(),
                mix.wf(),
                k <= self.gas_reqs_view().len(),
                forall|j: int|
                    0 <= j < k ==> mole(
                        mix.moles_view(),
                        (#[trigger] self.gas_reqs_view()[j]).0 as int,
                    ) >= self.gas_reqs_view()[j].1,
            decreases self.gas_reqs_view().len() - k,
        {
            let (species, amount) = self.min_gas_reqs[k];
            if mix.get_moles(species) < amount {
                return false;
            }
            k = k + 1;
        }
        true
    }

    /// The priority of the reaction.
    pub fn get_priority(&self) -> (p: i64)
        ensures
            p == self.priority_view(),
    {
        self.priority
    }

    /// The opaque identifier of the host behavior to invoke.
    pub fn get_behavior(&self) -> (b: u32)
        ensures
            b == self.behavior_view(),
    {
        self.behavior_id
    }
}

/// Dispatch order between two reactions of the table: higher priority
/// first, registration order (the smaller table index) breaking ties.
pub open spec fn dispatch_before(rs: Seq<Reaction>, a: usize, b: usize) -> bool {
    ||| rs[a as int].priority_view() > rs[b as int].priority_view()
    ||| (rs[a as int].priority_view() == rs[b as int].priority_view() && a < b)
}

/// The process-wide reaction table, in registration order.
pub struct ReactionEngine {
    reactions: Vec<Reaction>,
}

impl ReactionEngine {
    /// The reactions, by registration order.
    pub closed spec fn reactions_view(&self) -> Seq<Reaction> {
        self.reactions@
    }

    /// Engine validity: every stored reaction is valid.
    pub open spec fn wf(&self) -> bool {
        forall|i: int|
            0 <= i < self.reactions_view().len() ==> (#[trigger] self.reactions_view()[i]).wf()
    }

    /// Builds the table from the host's reaction descriptors, in order.
    /// Refuses the whole table when any descriptor is out of domain.
    pub fn from_descriptors(ds: &Vec<ReactionDescriptor>) -> (r: Result<ReactionEngine, AtmosError>)
        ensures
            r is Ok <==> (forall|i: int| 0 <= i < ds@.len() ==> descriptor_ok(#[trigger] ds@[i])),
            r matches Ok(e) ==> {
                &&& e.wf()
                &&& e.reactions_view().len() == ds@.len()
                &&& forall|i: int|
                    0 <= i < ds@.len() ==> built_from(#[trigger] e.reactions_view()[i], ds@[i])
            },
            r matches Err(e) ==> e == AtmosError::InvalidNumericInput,
    {
        let mut reactions: Vec<Reaction> = Vec::new();
        let mut i: usize = 0;
        while i < ds.len()
            invariant
                i <= ds@.len(),
                reactions@.len() == i,
                forall|j: int| 0 <= j < i ==> descriptor_ok(#[trigger] ds@[j]),
                forall|j: int| 0 <= j < i ==> (#[trigger] reactions@[j]).wf(),
                forall|j: int| 0 <= j < i ==> built_from(#[trigger] reactions@[j], ds@[j]),
            decreases ds@.len() - i,
        {
            match Reaction::from_descriptor(&ds[i]) {
                Ok(rx) => {
                    reactions.push(rx);
                },
                Err(e) => {
                    return Err(e);
                },
            }
            i = i + 1;
        }
        Ok(ReactionEngine { reactions })
    }

    /// How many reactions the table holds.
    pub fn reaction_count(&self) -> (n: usize)
        ensures
            n == self.reactions_view().len(),
    {
        self.reactions.len()
    }

    /// The priority of the reaction at a table index.
    pub fn priority_of(&self, i: usize) -> (r: Result<i64, AtmosError>)
        ensures
            i < self.reactions_view().len() <==> r is Ok,
            r matches Ok(p) ==> p == self.reactions_view()[i as int].priority_view(),
            r matches Err(e) ==> e == AtmosError::OutOfRangeIndex,
    {
        if i < self.reactions.len() {
            Ok(self.reactions[i].get_priority())
        } else {
            Err(AtmosError::OutOfRangeIndex)
        }
    }

    /// The behavior identifier of the reaction at a table index.
    pub fn behavior_of(&self, i: usize) -> (r: Result<u32, AtmosError>)
        ensures
            i < self.reactions_view().len() <==> r is Ok,
            r matches Ok(b) ==> b == self.reactions_view()[i as int].behavior_view(),
            r matches Err(e) ==> e == AtmosError::OutOfRangeIndex,
    {
        if i < self.reactions.len() {
            Ok(self.reactions[i].get_behavior())
        } else {
            Err(AtmosError::OutOfRangeIndex)
        }
    }

    /// The table indices of every reaction whose conditions the mixture
    /// satisfies, ordered for dispatch: priority descending, registration
    /// order breaking ties.
    pub fn matching_reactions(&self, mix: &GasMixture, cat: &GasCatalog) -> (out: Vec<usize>)
        requires
            self.wf(),
            mix.wf(),
            cat.wf(),
        ensures
            forall|k: int|
                0 <= k < out@.len() ==> (#[trigger] out@[k]) < self.reactions_view().len()
                    && check_conditions_spec(self.reactions_view()[out@[k] as int], *mix, *cat),
            forall|k1: int, k2: int|
                0 <= k1 < k2 < out@.len() ==> dispatch_before(
                    self.reactions_view(),
                    out@[k1],
                    out@[k2],
                ),
            forall|i: usize|
                i < self.reactions_view().len() && check_conditions_spec(
                    #[trigger] self.reactions_view()[i as int],
                    *mix,
                    *cat,
                ) ==> out@.contains(i),
    {
        let ghost rs: Seq<Reaction> = self.reactions_view();
        let mut matched: Vec<usize> = Vec::new();
        let mut i: usize = 0;
        while i < self.reactions.len()
            invariant
                self.wf(),
                mix.wf(),
                cat.wf(),
                rs == self.reactions_view(),
                i <= rs.len(),
                forall|k: int|
                    0 <= k < matched@.len() ==> (#[trigger] matched@[k]) < rs.len()
                        && check_conditions_spec(rs[matched@[k] as int], *mix, *cat),
                forall|k1: int, k2: int| 0 <= k1 < k2 < matched@.len() ==> matched@[k1] < matched@[k2],
                forall|k: int| 0 <= k < matched@.len() ==> (#[trigger] matched@[k]) < i,
                forall|j: usize|
                    j < i && check_conditions_spec(#[trigger] rs[j as int], *mix, *cat)
                        ==> matched@.contains(j),
            decreases rs.len() - i,
        {
            if self.reactions[i].check_conditions(mix, cat) {
                let ghost m0: Seq<usize> = matched@;
                matched.push(i);
                proof {
                    assert(matched@[matched@.len() - 1] == i);
                    assert forall|j: usize|
                        j < i + 1 && check_conditions_spec(
                            #[trigger] rs[j as int],
                            *mix,
                            *cat,
                        ) implies matched@.contains(j) by {
                        if j < i {
                            let k = choose|k: int| 0 <= k < m0.len() && m0[k] == j;
                            assert(matched@[k] == j);
                        }
                    }
                }
            }
            i = i + 1;
        }
        let mut out: Vec<usize> = Vec::new();
        let mut t: usize = 0;
        while t < matched.len()
            invariant
                self.wf(),
                mix.wf(),
                cat.wf(),
                rs == self.reactions_view(),
                t <= matched@.len(),
                forall|k: int|
                    0 <= k < matched@.len() ==> (#[trigger] matched@[k]) < rs.len()
                        && check_conditions_spec(rs[matched@[k] as int], *mix, *cat),
                forall|k1: int, k2: int| 0 <= k1 < k2 < matched@.len() ==> matched@[k1] < matched@[k2],
                forall|k: int|
                    0 <= k < out@.len() ==> (#[trigger] out@[k]) < rs.len()
                        && check_conditions_spec(rs[out@[k] as int], *mix, *cat),
                forall|k1: int, k2: int|
                    0 <= k1 < k2 < out@.len() ==> dispatch_before(rs, out@[k1], out@[k2]),
                forall|e: usize| #[trigger]
                    out@.contains(e) <==> matched@.subrange(0, t as int).contains(e),
            decreases matched@.len() - t,
        {
            let x: usize = matched[t];
            proof {
                assert(matched@.subrange(0, t as int).contains(x) == false) by {
                    if matched@.subrange(0, t as int).contains(x) {
                        let k = choose|k: int|
                            0 <= k < t && matched@.subrange(0, t as int)[k] == x;
                        assert(matched@[k] == x);
                        assert(matched@[k] < matched@[t as int]);
                    }
                }
                assert(!out@.contains(x));
            }
            let px: i64 = self.reactions[x].get_priority();
            let mut p: usize = 0;
            while p < out.len()
                invariant
                    self.wf(),
                    rs == self.reactions_view(),
                    x < rs.len(),
                    px == rs[x as int].priority_view(),
                    p <= out@.len(),
                    forall|k: int| 0 <= k < out@.len() ==> (#[trigger] out@[k]) < rs.len(),
                    forall|k: int| 0 <= k < p ==> dispatch_before(rs, #[trigger] out@[k], x),
                ensures
                    p <= out@.len(),
                    forall|k: int| 0 <= k < p ==> dispatch_before(rs, #[trigger] out@[k], x),
                    p < out@.len() ==> !dispatch_before(rs, out@[p as int], x),
                decreases out@.len() - p,
            {
                let oe: usize = out[p];
                let pe: i64 = self.reactions[oe].get_priority();
                if !(pe > px || (pe == px && oe < x)) {
                    break ;
                }
                p = p + 1;
            }
            let ghost out0: Seq<usize> = out@;
            let ghost pp: int = p as int;
            out.insert(p, x);
            proof {
                out0.insert_ensures(pp, x);
                assert(out@ == out0.insert(pp, x));
                assert(out@.len() == out0.len() + 1);
                assert forall|i: int| 0 <= i < pp implies out@[i] == out0[i] by {
                    assert(out0.insert(pp, x)[i] == out0[i]);
                }
                assert forall|i: int| pp <= i < out0.len() implies out@[i + 1] == out0[i] by {
                    assert(out0.insert(pp, x)[i + 1] == out0[i]);
                }
                assert(out@[pp] == x);
                assert forall|k1: int, k2: int|
                    0 <= k1 < k2 < out@.len() implies dispatch_before(
                    rs,
                    out@[k1],
                    out@[k2],
                ) by {
                    if k2 < pp {
                        assert(dispatch_before(rs, out0[k1], out0[k2]));
                    } else if k1 < pp && k2 == pp {
                        assert(out@[k1] == out0[k1]);
                        assert(dispatch_before(rs, out0[k1], x));
                    } else if k1 < pp && k2 > pp {
                        assert(out@[k1] == out0[k1]);
                        assert(out@[k2] == out0[k2 - 1]);
                        assert(dispatch_before(rs, out0[k1], out0[k2 - 1]));
                    } else if k1 == pp {
                        assert(out@[k2] == out0[k2 - 1]);
                        assert(out0[k2 - 1] != x);
                        assert(!dispatch_before(rs, out0[pp], x));
                        if pp < k2 - 1 {
                            assert(dispatch_before(rs, out0[pp], out0[k2 - 1]));
                        }
                    } else {
                        assert(out@[k1] == out0[k1 - 1]);
                        assert(out@[k2] == out0[k2 - 1]);
                        assert(dispatch_before(rs, out0[k1 - 1], out0[k2 - 1]));
                    }
                }
                assert forall|e: usize| #[trigger]
                    out@.contains(e) <==> matched@.subrange(0, t + 1 as int).contains(e) by {
                    assert(matched@.subrange(0, t + 1 as int) =~= matched@.subrange(
                        0,
                        t as int,
                    ).push(x));
                    if out@.contains(e) {
                        let k = choose|k: int| 0 <= k < out@.len() && out@[k] == e;
                        if k == pp {
                            assert(matched@.subrange(0, t + 1 as int)[t as int] == x);
                        } else {
                            let k0: int = if k < pp {
                                k
                            } else {
                                k - 1
                            };
                            assert(out0[k0] == e);
                            assert(out0.contains(e));
                            let j = choose|j: int|
                                0 <= j < t && matched@.subrange(0, t as int)[j] == e;
                            assert(matched@.subrange(0, t + 1 as int)[j] == e);
                        }
                    }
                    if matched@.subrange(0, t + 1 as int).contains(e) {
                        let j = choose|j: int|
                            0 <= j < t + 1 && #[trigger] matched@.subrange(0, t + 1 as int)[j]
                                == e;
                        if j == t {
                            assert(out@[pp] == x);
                        } else {
                            assert(matched@.subrange(0, t as int)[j] == e);
                            assert(out0.contains(e));
                            let k = choose|k: int| 0 <= k < out0.len() && out0[k] == e;
                            if k < pp {
                                assert(out@[k] == e);
                            } else {
                                assert(out@[k + 1] == e);
                            }
                        }
                    }
                }
            }
            t = t + 1;
        }
        proof {
            assert(matched@.subrange(0, matched@.len() as int) =~= matched@);
            assert forall|i2: usize|
                i2 < rs.len() && check_conditions_spec(
                    #[trigger] rs[i2 as int],
                    *mix,
                    *cat,
                ) implies out@.contains(i2) by {
                assert(matched@.contains(i2));
            }
        }
        out
    }
}

/// Folds one behavior result into the running dispatch accumulator and says
/// whether dispatch must stop: the results OR together, and processing
/// halts as soon as the accumulator carries the stop bit.
pub fn absorb_reaction_result(acc: u32, ret: u32) -> (r: (u32, bool))
    ensures
        r.0 == acc | ret,
        r.1 == ((acc | ret) & STOP_REACTIONS == STOP_REACTIONS),
{
    let combined: u32 = acc | ret;
    (combined, combined & STOP_REACTIONS == STOP_REACTIONS)
}

} // verus!
