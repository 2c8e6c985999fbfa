//! Value types: the scalar types, and SIMD vectors of them.

use vstd::prelude::*;

verus! {

/// The largest number of lanes a vector type can have.
pub const MAX_LANES: u16 = 256;

/// A scalar type: what one lane of a value holds.
#[derive(Debug, Clone, Copy, PartialEq, Eq, Structural)]
pub enum LaneType {
    B1,
    B8,
    B16,
    B32,
    B64,
    I8,
    I16,
    I32,
    I64,
    F32,
    F64,
}

/// A lane count that a type can have: a power of two, at most `MAX_LANES`.
pub open spec fn is_lane_count(n: int) -> bool {
    n == 1 || n == 2 || n == 4 || n == 8 || n == 16 || n == 32 || n == 64 || n == 128 || n
        == 256
}

/// Tells whether a type can have `n` lanes.
pub fn lane_count_ok(n: u32) -> (b: bool)
    ensures
        b == is_lane_count(n as int),
{
    n == 1 || n == 2 || n == 4 || n == 8 || n == 16 || n == 32 || n == 64 || n == 128 || n
        == 256
}

/// The type of a value: a lane type, repeated over a number of lanes. With one lane it is
/// the scalar type itself.
#[derive(Debug, Clone, Copy, PartialEq, Eq, Structural)]
pub struct Type {
    pub lane: LaneType,
    pub lanes: u16,
}

impl Type {
    /// A type is well formed when its lane count is one that a type can have.
    pub open spec fn wf(self) -> bool {
        is_lane_count(self.lanes as int)
    }

    /// The scalar type with the given lane type.
    pub open spec fn spec_scalar(lane: LaneType) -> Type {
        Type { lane, lanes: 1 }
    }

    /// This type with `n` times as many lanes, where such a type exists.
    pub open spec fn spec_by_lanes(self, n: u16) -> Option<Type> {
        if is_lane_count(self.lanes * n) {
            Some(Type { lane: self.lane, lanes: (self.lanes * n) as u16 })
        } else {
            None
        }
    }

    /// The scalar type with the given lane type.
    pub fn scalar(lane: LaneType) -> (t: Type)
        ensures
            t == Type::spec_scalar(lane),
            t.wf(),
    {
        Type { lane, lanes: 1 }
    }

    /// The vector type with `n` times as many lanes as this one, or `None` when there is
    /// no such type: the lane count of a type is a power of two, and at most `MAX_LANES`.
    pub fn by_lanes(self, n: u16) -> (r: Option<Type>)
        ensures
            r == self.spec_by_lanes(n),
            r is Some ==> r->0.wf(),
    {
        assert(self.lanes * n <= 0xffff * 0xffff) by (nonlinear_arith)
            requires
                self.lanes <= 0xffff,
                n <= 0xffff,
        ;
        let total: u32 = self.lanes as u32 * n as u32;
        if lane_count_ok(total) {
            Some(Type { lane: self.lane, lanes: total as u16 })
        } else {
            None
        }
    }
}

} // verus!
