//! The world's turf grid: its dimensions and tile-id arithmetic.
//!
//! The host world is a box of tiles ("turfs") addressed by 1-based
//! coordinates; the engine flattens a coordinate triple into a dense tile
//! id. The dimensions are refreshed from the host whenever the world
//! resizes; a refresh that would make the id space overflow the host's
//! signed 32-bit ids is rejected.

use vstd::arithmetic::mul::lemma_mul_upper_bound;
use vstd::prelude::*;

use crate::runtime::AtmosError;

verus! {

/// A resolved tile reference: the dense id the host maps back to a turf.
pub struct TurfRef {
    pub id: u32,
}

/// The grid dimensions of the host world.
pub struct TurfGrid {
    max_x: i32,
    max_y: i32,
    max_z: i32,
}

impl TurfGrid {
    /// The world's extent along x.
    pub closed spec fn x_view(&self) -> i32 {
        self.max_x
    }

    /// The world's extent along y.
    pub closed spec fn y_view(&self) -> i32 {
        self.max_y
    }

    /// The world's extent along z.
    pub closed spec fn z_view(&self) -> i32 {
        self.max_z
    }

    /// Grid validity: non-negative extents whose id space fits the host's
    /// signed 32-bit tile ids.
    pub open spec fn wf(&self) -> bool {
        &&& 0 <= self.x_view()
        &&& 0 <= self.y_view()
        &&& 0 <= self.z_view()
        &&& self.x_view() * self.y_view() <= i32::MAX
        &&& self.x_view() * self.y_view() * self.z_view() <= i32::MAX
    }

    /// A grid at the host's default dimensions.
    pub fn new() -> (r: Self)
        ensures
            r.wf(),
            r.x_view() == 255,
            r.y_view() == 255,
            r.z_view() == 1,
    {
        TurfGrid { max_x: 255, max_y: 255, max_z: 1 }
    }

    /// Takes over the world dimensions reported by the host. Rejects a
    /// negative extent, and an id space too large for the host's tile ids,
    /// leaving the grid unchanged.
    pub fn refresh_grid(&mut self, new_x: i32, new_y: i32, new_z: i32) -> (r: Result<
        (),
        AtmosError,
    >)
        requires
            old(self).wf(),
        ensures
            final(self).wf(),
            ({
                &&& 0 <= new_x
                &&& 0 <= new_y
                &&& 0 <= new_z
                &&& new_x * new_y <= i32::MAX
                &&& new_x * new_y * new_z <= i32::MAX
            }) <==> r is Ok,
            r is Ok ==> {
                &&& final(self).x_view() == new_x
                &&& final(self).y_view() == new_y
                &&& final(self).z_view() == new_z
            },
            r matches Err(e) ==> e == AtmosError::InvalidNumericInput && *final(self) == *old(self),
    {
        if new_x < 0 || new_y < 0 || new_z < 0 {
            return Err(AtmosError::InvalidNumericInput);
        }
        proof {
            lemma_mul_upper_bound(new_x as int, 2_147_483_647, new_y as int, 2_147_483_647);
            lemma_mul_upper_bound(
                new_x as int * new_y as int,
                4_611_686_014_132_420_609,
                new_z as int,
                2_147_483_647,
            );
        }
        let xy: i128 = (new_x as i128) * (new_y as i128);
        let xyz: i128 = xy * (new_z as i128);
        if xy > i32::MAX as i128 || xyz > i32::MAX as i128 {
            return Err(AtmosError::InvalidNumericInput);
        }
        self.max_x = new_x;
        self.max_y = new_y;
        self.max_z = new_z;
        Ok(())
    }

    /// The world's extent along x.
    pub fn max_x(&self) -> (r: i32)
        ensures
            r == self.x_view(),
    {
        self.max_x
    }

    /// The world's extent along y.
    pub fn max_y(&self) -> (r: i32)
        ensures
            r == self.y_view(),
    {
        self.max_y
    }

    /// The world's extent along z.
    pub fn max_z(&self) -> (r: i32)
        ensures
            r == self.z_view(),
    {
        self.max_z
    }

    /// How many tile ids the world spans.
    pub fn max_id(&self) -> (r: i32)
        requires
            self.wf(),
        ensures
            r == self.x_view() * self.y_view() * self.z_view(),
    {
        proof {
            vstd::arithmetic::mul::lemma_mul_nonnegative(self.x_view() as int, self.y_view() as int);
            vstd::arithmetic::mul::lemma_mul_nonnegative(
                self.x_view() as int * self.y_view() as int,
                self.z_view() as int,
            );
        }
        let xy: i32 = self.max_x * self.max_y;
        xy * self.max_z
    }

    /// Flattens 1-based world coordinates into a dense tile id; coordinates
    /// outside the world are an out-of-range tile.
    pub fn to_id(&self, x: i32, y: i32, z: i32) -> (r: Result<u32, AtmosError>)
        requires
            self.wf(),
        ensures
            (1 <= x <= self.x_view() && 1 <= y <= self.y_view() && 1 <= z <= self.z_view()) <==> r
                is Ok,
            r matches Ok(id) ==> id == (x - 1) + (y - 1) * self.x_view() + (z - 1) * self.x_view()
                * self.y_view(),
            r matches Err(e) ==> e == AtmosError::OutOfRangeIndex,
    {
        if x < 1 || x > self.max_x || y < 1 || y > self.max_y || z < 1 || z > self.max_z {
            return Err(AtmosError::OutOfRangeIndex);
        }
        let xw: i64 = (x - 1) as i64;
        let yw: i64 = (y - 1) as i64;
        let zw: i64 = (z - 1) as i64;
        let mx: i64 = self.max_x as i64;
        let my: i64 = self.max_y as i64;
        proof {
            assert(0 <= xw + yw * mx + zw * mx * my <= self.x_view() * self.y_view()
                * self.z_view() - 1) by (nonlinear_arith)
                requires
                    0 <= xw < mx,
                    0 <= yw < my,
                    0 <= zw < self.z_view(),
                    mx == self.x_view(),
                    my == self.y_view(),
            ;
            lemma_mul_upper_bound(yw as int, 2_147_483_647, mx as int, 2_147_483_647);
            lemma_mul_upper_bound(zw as int, 2_147_483_647, mx as int, 2_147_483_647);
            lemma_mul_upper_bound(
                zw as int * mx as int,
                4_611_686_014_132_420_609,
                my as int,
                2_147_483_647,
            );
        }
        let id: i64 = xw + yw * mx + zw * mx * my;
        Ok(id as u32)
    }

    /// Resolves 1-based world coordinates to a tile reference.
    pub fn turf_ref(&self, x: i32, y: i32, z: i32) -> (r: Result<TurfRef, AtmosError>)
        requires
            self.wf(),
        ensures
            (1 <= x <= self.x_view() && 1 <= y <= self.y_view() && 1 <= z <= self.z_view()) <==> r
                is Ok,
            r matches Ok(t) ==> t.id == (x - 1) + (y - 1) * self.x_view() + (z - 1) * self.x_view()
                * self.y_view(),
            r matches Err(e) ==> e == AtmosError::OutOfRangeIndex,
    {
        match self.to_id(x, y, z) {
            Ok(id) => Ok(TurfRef { id }),
            Err(e) => Err(e),
        }
    }
}

} // verus!
