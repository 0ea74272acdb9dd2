//! The gas-species catalog and the pooled mixture registry.
//!
//! The catalog maps an opaque host gas-type identifier to a dense species
//! index and a specific heat; it is built once, from host-supplied
//! descriptors, and read-only afterwards. The registry owns a growable pool
//! of mixture slots plus a free-list of recycled slot indices, and hands out
//! short-lived access to single slots by index.

use vstd::prelude::*;

use crate::constants::{DEFAULT_SPECIFIC_HEAT, MAX_SPECIES, QUANTITY_CAP};
use crate::gas_mixture::GasMixture;
use crate::runtime::AtmosError;

verus! {

/// One host-supplied gas-type description: the opaque type identifier and,
/// when the host gave a numeric one, its specific heat in raw units.
pub struct GasTypeDescriptor {
    pub type_id: u32,
    pub specific_heat: Option<i64>,
}

/// The specific heat a descriptor yields: the supplied value when it is in
/// the representable domain, the default otherwise.
pub open spec fn descriptor_heat(specific_heat: Option<i64>) -> u64 {
    match specific_heat {
        Option::Some(h) => if 0 <= h <= QUANTITY_CAP {
            h as u64
        } else {
            DEFAULT_SPECIFIC_HEAT
        },
        Option::None => DEFAULT_SPECIFIC_HEAT,
    }
}

/// The process-wide gas-species catalog: species index `i` has host type
/// identifier `types[i]` and specific heat `heats[i]`.
pub struct GasCatalog {
    types: Vec<u32>,
    heats: Vec<u64>,
}

impl GasCatalog {
    /// The host type identifier of each species, by index.
    pub closed spec fn types_view(&self) -> Seq<u32> {
        self.types@
    }

    /// The specific heat of each species, by index.
    pub closed spec fn heats_view(&self) -> Seq<u64> {
        self.heats@
    }

    /// Catalog validity: one heat per type, a bounded species count, and
    /// every heat inside the representable domain.
    pub open spec fn wf(&self) -> bool {
        &&& self.types_view().len() == self.heats_view().len()
        &&& self.types_view().len() <= MAX_SPECIES
        &&& forall|i: int|
            0 <= i < self.heats_view().len() ==> #[trigger] self.heats_view()[i] <= QUANTITY_CAP
    }

    /// Builds the catalog from the host's enumeration of gas types. Each
    /// descriptor is assigned the next dense index; a missing or
    /// out-of-domain specific heat falls back to the default. Fails only
    /// when the enumeration is larger than the catalog can hold.
    pub fn from_descriptors(descriptors: &Vec<GasTypeDescriptor>) -> (r: Result<
        GasCatalog,
        AtmosError,
    >)
        ensures
            descriptors@.len() <= MAX_SPECIES <==> r is Ok,
            r matches Ok(cat) ==> {
                &&& cat.wf()
                &&& cat.types_view().len() == descriptors@.len()
                &&& forall|i: int|
                    0 <= i < descriptors@.len() ==> #[trigger] cat.types_view()[i]
                        == descriptors@[i].type_id
                &&& forall|i: int|
                    0 <= i < descriptors@.len() ==> #[trigger] cat.heats_view()[i]
                        == descriptor_heat(descriptors@[i].specific_heat)
            },
            r matches Err(e) ==> e == AtmosError::OutOfRangeIndex,
    {
        if descriptors.len() > MAX_SPECIES {
            return Err(AtmosError::OutOfRangeIndex);
        }
        let mut types: Vec<u32> = Vec::new();
        let mut heats: Vec<u64> = Vec::new();
        let mut i: usize = 0;
        while i < descriptors.len()
            invariant
                i <= descriptors@.len(),
                types@.len() == i,
                heats@.len() == i,
                forall|j: int|
                    0 <= j < i ==> #[trigger] types@[j] == descriptors@[j].type_id,
                forall|j: int|
                    0 <= j < i ==> #[trigger] heats@[j] == descriptor_heat(
                        descriptors@[j].specific_heat,
                    ),
            decreases descriptors@.len() - i,
        {
            let d = &descriptors[i];
            types.push(d.type_id);
            let heat: u64 = match d.specific_heat {
                Option::Some(h) => if 0 <= h && h <= QUANTITY_CAP as i64 {
                    h as u64
                } else {
                    DEFAULT_SPECIFIC_HEAT
                },
                Option::None => DEFAULT_SPECIFIC_HEAT,
            };
            heats.push(heat);
            i = i + 1;
        }
        Ok(GasCatalog { types, heats })
    }

    /// The total number of gas species in use.
    pub fn total_num_gases(&self) -> (n: usize)
        ensures
            n == self.types_view().len(),
    {
        self.types.len()
    }

    /// The host type identifier for a species index. The bounds check is
    /// the conventional one, chosen deliberately: an index at or beyond the
    /// catalog size is rejected as out of range, never served.
    pub fn gas_id_to_type(&self, id: usize) -> (r: Result<u32, AtmosError>)
        ensures
            id < self.types_view().len() <==> r is Ok,
            r matches Ok(t) ==> t == self.types_view()[id as int],
            r matches Err(e) ==> e == AtmosError::OutOfRangeIndex,
    {
        if id < self.types.len() {
            Ok(self.types[id])
        } else {
            Err(AtmosError::OutOfRangeIndex)
        }
    }

    /// The dense species index of a host type identifier: the first catalog
    /// position holding it, or `UnknownGasType` when it was not present at
    /// catalog-build time.
    pub fn gas_id_from_type(&self, type_id: u32) -> (r: Result<usize, AtmosError>)
        ensures
            r matches Ok(i) ==> {
                &&& i < self.types_view().len()
                &&& self.types_view()[i as int] == type_id
                &&& forall|j: int| 0 <= j < i ==> #[trigger] self.types_view()[j] != type_id
            },
            r is Err <==> (forall|j: int|
                0 <= j < self.types_view().len() ==> #[trigger] self.types_view()[j] != type_id),
            r matches Err(e) ==> e == AtmosError::UnknownGasType,
    {
        let mut i: usize = 0;
        while i < self.types.len()
            invariant
                i <= self.types@.len(),
                forall|j: int| 0 <= j < i ==> #[trigger] self.types@[j] != type_id,
            decreases self.types@.len() - i,
        {
            if self.types[i] == type_id {
                assert(self.types_view()[i as int] == type_id);
                return Ok(i);
            }
            i = i + 1;
        }
        Err(AtmosError::UnknownGasType)
    }

    /// The specific heat of a species index; zero for an index the catalog
    /// does not hold (such a species contributes no heat capacity).
    pub fn specific_heat(&self, id: usize) -> (h: u64)
        ensures
            id < self.heats_view().len() ==> h == self.heats_view()[id as int],
            id >= self.heats_view().len() ==> h == 0,
    {
        if id < self.heats.len() {
            self.heats[id]
        } else {
            0
        }
    }
}

/// The slot index a registration picks, given the pool size and free-list:
/// the most recently recycled slot, or a fresh slot at the pool's end.
pub open spec fn register_pick(pool_len: int, free: Seq<usize>) -> int {
    if free.len() == 0 {
        pool_len
    } else {
        free.last() as int
    }
}

/// The free-list a registration leaves behind.
pub open spec fn free_after_register(free: Seq<usize>) -> Seq<usize> {
    if free.len() == 0 {
        free
    } else {
        free.drop_last()
    }
}

/// The pooled mixture registry: a growable pool of mixture slots plus a
/// free-list of recycled slot indices. A slot index is the external handle
/// of the mixture registered in it; growth never invalidates issued
/// indices, and recycling a slot overwrites it with a fresh empty mixture.
pub struct GasMixtures {
    mixtures: Vec<GasMixture>,
    next_gas_ids: Vec<usize>,
}

impl GasMixtures {
    /// The pool of mixture slots, by slot index.
    pub closed spec fn pool(&self) -> Seq<GasMixture> {
        self.mixtures@
    }

    /// The recycled slot indices awaiting reuse, oldest first.
    pub closed spec fn free_list(&self) -> Seq<usize> {
        self.next_gas_ids@
    }

    /// Registry validity: every pooled mixture is valid and every
    /// free-listed index names a slot of the pool.
    pub open spec fn wf(&self) -> bool {
        &&& forall|i: int| 0 <= i < self.pool().len() ==> (#[trigger] self.pool()[i]).wf()
        &&& forall|i: int|
            0 <= i < self.free_list().len() ==> (#[trigger] self.free_list()[i])
                < self.pool().len()
    }

    /// An empty registry, with room reserved for a large simulation.
    pub fn new() -> (r: Self)
        ensures
            r.wf(),
            r.pool().len() == 0,
            r.free_list().len() == 0,
    {
        GasMixtures { mixtures: Vec::with_capacity(200_000), next_gas_ids: Vec::new() }
    }

    /// The number of slots the pool holds, recycled ones included.
    pub fn pool_size(&self) -> (n: usize)
        ensures
            n == self.pool().len(),
    {
        self.mixtures.len()
    }

    /// Allocates a slot for a new mixture and returns its index: the last
    /// recycled slot when one waits on the free-list, else a fresh slot
    /// appended to the pool. Either way the slot holds a fresh empty
    /// mixture with no residue from any earlier registration.
    pub fn register_gasmix(&mut self) -> (idx: usize)
        requires
            old(self).wf(),
        ensures
            final(self).wf(),
            idx < final(self).pool().len(),
            final(self).pool()[idx as int].is_reset(),
            idx == register_pick(old(self).pool().len() as int, old(self).free_list()),
            final(self).free_list() == free_after_register(old(self).free_list()),
            old(self).free_list().len() == 0 ==> {
                &&& idx == old(self).pool().len()
                &&& final(self).pool().len() == old(self).pool().len() + 1
                &&& final(self).free_list() == old(self).free_list()
            },
            old(self).free_list().len() > 0 ==> {
                &&& idx == old(self).free_list().last()
                &&& final(self).pool().len() == old(self).pool().len()
                &&& final(self).free_list() == old(self).free_list().drop_last()
            },
            forall|j: int|
                0 <= j < old(self).pool().len() && j != idx ==> final(self).pool()[j] == old(
                    self,
                ).pool()[j],
    {
        if self.next_gas_ids.len() == 0 {
            let idx = self.mixtures.len();
            self.mixtures.push(GasMixture::new());
            idx
        } else {
            let idx = self.next_gas_ids.pop().unwrap();
            proof {
                assert(old(self).free_list()[old(self).free_list().len() - 1]
                    < old(self).pool().len());
            }
            self.mixtures[idx] = GasMixture::new();
            idx
        }
    }

    /// Returns a handle's slot to the free-list for reuse. A negative
    /// handle counts as already unregistered and is a no-op; a handle
    /// beyond the pool is an invalid mixture reference.
    pub fn unregister_gasmix(&mut self, idx: i64) -> (r: Result<bool, AtmosError>)
        requires
            old(self).wf(),
        ensures
            final(self).wf(),
            final(self).pool() == old(self).pool(),
            idx < 0 ==> r == Result::<bool, AtmosError>::Ok(true) && final(self).free_list() == old(
                self,
            ).free_list(),
            0 <= idx < old(self).pool().len() ==> r == Result::<bool, AtmosError>::Ok(true)
                && final(self).free_list() == old(self).free_list().push(idx as usize),
            idx >= old(self).pool().len() ==> r == Result::<bool, AtmosError>::Err(
                AtmosError::InvalidHandle,
            ) && final(self).free_list() == old(self).free_list(),
    {
        if idx < 0 {
            return Ok(true);
        }
        if idx as u64 >= self.mixtures.len() as u64 {
            return Err(AtmosError::InvalidHandle);
        }
        self.next_gas_ids.push(idx as usize);
        proof {
            assert forall|i: int|
                0 <= i < self.free_list().len() implies (#[trigger] self.free_list()[i])
                < self.pool().len() by {
                if i < old(self).free_list().len() {
                    assert(old(self).free_list()[i] < old(self).pool().len());
                }
            }
        }
        Ok(true)
    }
}

/// Runs a read-only callback against the mixture registered at `id`,
/// handing it a borrowed view of the slot. An out-of-pool handle is an
/// invalid mixture reference.
pub fn with_mix<T, F: FnOnce(&GasMixture) -> Result<T, AtmosError>>(
    reg: &GasMixtures,
    id: usize,
    f: F,
) -> (r: Result<T, AtmosError>)
    requires
        reg.wf(),
        forall|m: &GasMixture| m.wf() ==> #[trigger] f.requires((m,)),
    ensures
        id < reg.pool().len() ==> f.ensures((&reg.pool()[id as int],), r),
        id >= reg.pool().len() ==> r == Result::<T, AtmosError>::Err(AtmosError::InvalidHandle),
{
    if id < reg.mixtures.len() {
        let m_ref: &GasMixture = &reg.mixtures[id];
        proof {
            assert(reg.pool()[id as int].wf());
        }
        f(m_ref)
    } else {
        Err(AtmosError::InvalidHandle)
    }
}

/// Runs a mutating callback against the mixture registered at `id`: the
/// callback takes the mixture by value and returns its replacement along
/// with a result. The callback must leave the mixture valid. An
/// out-of-pool handle is an invalid mixture reference.
pub fn with_mix_mut<T, F: FnOnce(GasMixture) -> (GasMixture, Result<T, AtmosError>)>(
    reg: &mut GasMixtures,
    id: usize,
    f: F,
) -> (r: Result<T, AtmosError>)
    requires
        old(reg).wf(),
        forall|m: GasMixture| m.wf() ==> #[trigger] f.requires((m,)),
        forall|m: GasMixture, out: (GasMixture, Result<T, AtmosError>)|
            #[trigger] f.ensures((m,), out) ==> out.0.wf(),
    ensures
        final(reg).wf(),
        final(reg).free_list() == old(reg).free_list(),
        id >= old(reg).pool().len() ==> r == Result::<T, AtmosError>::Err(
            AtmosError::InvalidHandle,
        ) && final(reg).pool() == old(reg).pool(),
        id < old(reg).pool().len() ==> exists|out: (GasMixture, Result<T, AtmosError>)|
            {
                &&& #[trigger] f.ensures((old(reg).pool()[id as int],), out)
                &&& final(reg).pool() == old(reg).pool().update(id as int, out.0)
                &&& r == out.1
            },
{
    if id >= reg.mixtures.len() {
        return Err(AtmosError::InvalidHandle);
    }
    let mut taken: GasMixture = GasMixture::new();
    let slot: &mut GasMixture = vstd::std_specs::vec::vec_index_mut(&mut reg.mixtures, id);
    core::mem::swap(&mut taken, slot);
    let (replacement, res) = f(taken);
    reg.mixtures[id] = replacement;
    proof {
        assert(reg.pool() =~= old(reg).pool().update(id as int, reg.pool()[id as int]));
        assert(f.ensures((old(reg).pool()[id as int],), (reg.pool()[id as int], res)));
        assert forall|j: int| 0 <= j < reg.pool().len() implies (#[trigger] reg.pool()[j]).wf() by {
            if j != id {
                assert(old(reg).pool()[j].wf());
            }
        }
        assert(reg.free_list() == old(reg).free_list());
        assert(reg.pool().len() == old(reg).pool().len());
        assert forall|i: int|
            0 <= i < reg.free_list().len() implies (#[trigger] reg.free_list()[i])
            < reg.pool().len() by {
            assert(old(reg).free_list()[i] < old(reg).pool().len());
        }
        assert(reg.wf());
    }
    res
}

/// Runs a read-only callback against two registered mixtures at once. An
/// out-of-pool handle on either side is an invalid mixture reference.
pub fn with_mixes<T, F: FnOnce(&GasMixture, &GasMixture) -> Result<T, AtmosError>>(
    reg: &GasMixtures,
    id1: usize,
    id2: usize,
    f: F,
) -> (r: Result<T, AtmosError>)
    requires
        reg.wf(),
        forall|m1: &GasMixture, m2: &GasMixture|
            m1.wf() && m2.wf() ==> #[trigger] f.requires((m1, m2)),
    ensures
        id1 < reg.pool().len() && id2 < reg.pool().len() ==> f.ensures(
            (&reg.pool()[id1 as int], &reg.pool()[id2 as int]),
            r,
        ),
        id1 >= reg.pool().len() || id2 >= reg.pool().len() ==> r == Result::<T, AtmosError>::Err(
            AtmosError::InvalidHandle,
        ),
{
    if id1 < reg.mixtures.len() && id2 < reg.mixtures.len() {
        let m1: &GasMixture = &reg.mixtures[id1];
        let m2: &GasMixture = &reg.mixtures[id2];
        proof {
            assert(reg.pool()[id1 as int].wf());
            assert(reg.pool()[id2 as int].wf());
        }
        f(m1, m2)
    } else {
        Err(AtmosError::InvalidHandle)
    }
}

/// Runs a mutating callback against two distinct registered mixtures at
/// once: the callback takes both by value and returns their replacements
/// along with a result, and must leave both valid. Equal or out-of-pool
/// handles are an invalid mixture reference.
pub fn with_mixes_mut<
    T,
    F: FnOnce(GasMixture, GasMixture) -> (GasMixture, GasMixture, Result<T, AtmosError>),
>(
    reg: &mut GasMixtures,
    id1: usize,
    id2: usize,
    f: F,
) -> (r: Result<T, AtmosError>)
    requires
        old(reg).wf(),
        forall|m1: GasMixture, m2: GasMixture|
            m1.wf() && m2.wf() ==> #[trigger] f.requires((m1, m2)),
        forall|
            m1: GasMixture,
            m2: GasMixture,
            out: (GasMixture, GasMixture, Result<T, AtmosError>),
        |
            #[trigger] f.ensures((m1, m2), out) ==> out.0.wf() && out.1.wf(),
    ensures
        final(reg).wf(),
        final(reg).free_list() == old(reg).free_list(),
        !(id1 < old(reg).pool().len() && id2 < old(reg).pool().len() && id1 != id2) ==> r
            == Result::<T, AtmosError>::Err(AtmosError::InvalidHandle) && final(reg).pool() == old(
            reg,
        ).pool(),
        id1 < old(reg).pool().len() && id2 < old(reg).pool().len() && id1 != id2 ==> exists|
            out: (GasMixture, GasMixture, Result<T, AtmosError>),
        |
            {
                &&& #[trigger] f.ensures(
                    (old(reg).pool()[id1 as int], old(reg).pool()[id2 as int]),
                    out,
                )
                &&& final(reg).pool() == old(reg).pool().update(id1 as int, out.0).update(
                    id2 as int,
                    out.1,
                )
                &&& r == out.2
            },
{
    if !(id1 < reg.mixtures.len() && id2 < reg.mixtures.len() && id1 != id2) {
        return Err(AtmosError::InvalidHandle);
    }
    let mut taken1: GasMixture = GasMixture::new();
    let slot1: &mut GasMixture = vstd::std_specs::vec::vec_index_mut(&mut reg.mixtures, id1);
    core::mem::swap(&mut taken1, slot1);
    let mut taken2: GasMixture = GasMixture::new();
    let slot2: &mut GasMixture = vstd::std_specs::vec::vec_index_mut(&mut reg.mixtures, id2);
    core::mem::swap(&mut taken2, slot2);
    let (rep1, rep2, res) = f(taken1, taken2);
    reg.mixtures[id1] = rep1;
    reg.mixtures[id2] = rep2;
    proof {
        assert(reg.pool() =~= old(reg).pool().update(id1 as int, reg.pool()[id1 as int]).update(
            id2 as int,
            reg.pool()[id2 as int],
        ));
        assert(f.ensures(
            (old(reg).pool()[id1 as int], old(reg).pool()[id2 as int]),
            (reg.pool()[id1 as int], reg.pool()[id2 as int], res),
        ));
        assert forall|j: int| 0 <= j < reg.pool().len() implies (#[trigger] reg.pool()[j]).wf() by {
            if j != id1 && j != id2 {
                assert(old(reg).pool()[j].wf());
            }
        }
        assert(reg.free_list() == old(reg).free_list());
        assert(reg.pool().len() == old(reg).pool().len());
        assert forall|i: int|
            0 <= i < reg.free_list().len() implies (#[trigger] reg.free_list()[i])
            < reg.pool().len() by {
            assert(old(reg).free_list()[i] < old(reg).pool().len());
        }
        assert(reg.wf());
    }
    res
}

} // verus!
