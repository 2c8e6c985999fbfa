//! References to the numbered entities of a function: values and extended basic blocks.
//!
//! Each kind of reference has its own largest number. A number beyond it names nothing,
//! and the constructors here refuse it.

use vstd::prelude::*;

verus! {

/// Value numbers are below this limit, in the direct and in the table numbering alike: a
/// value reference packs its number and its numbering into 32 bits together.
pub const VALUE_NUMBER_LIMIT: u32 = 0x7fff_ffff;

/// Block numbers are below this limit: the last 32-bit number is kept for "no block".
pub const EBB_NUMBER_LIMIT: u32 = 0xffff_ffff;

/// A reference to an SSA value.
///
/// Values are numbered in two separate spaces. A direct value, written `v12`, is the
/// first result of an instruction; a table value, written `vx7`, lives in the extended
/// value table. `v3` and `vx3` are different values.
#[derive(Debug, Clone, Copy, PartialEq, Eq, Structural)]
pub enum Value {
    Direct(u32),
    Table(u32),
}

impl Value {
    /// The number of this value within its own numbering.
    pub open spec fn spec_number(self) -> u32 {
        match self {
            Value::Direct(n) => n,
            Value::Table(n) => n,
        }
    }

    /// A value reference is well formed when its number is below `VALUE_NUMBER_LIMIT`.
    pub open spec fn wf(self) -> bool {
        self.spec_number() < VALUE_NUMBER_LIMIT
    }

    /// The direct value with number `n`, if `n` is in range.
    pub open spec fn spec_direct(n: u32) -> Option<Value> {
        if n < VALUE_NUMBER_LIMIT {
            Some(Value::Direct(n))
        } else {
            None
        }
    }

    /// The table value with number `n`, if `n` is in range.
    pub open spec fn spec_table(n: u32) -> Option<Value> {
        if n < VALUE_NUMBER_LIMIT {
            Some(Value::Table(n))
        } else {
            None
        }
    }

    /// The direct value written `v` followed by `n`, or `None` when `n` is out of range.
    pub fn direct_with_number(n: u32) -> (r: Option<Value>)
        ensures
            r == Value::spec_direct(n),
            r is Some ==> r->0.wf(),
    {
        if n < VALUE_NUMBER_LIMIT {
            Some(Value::Direct(n))
        } else {
            None
        }
    }

    /// The table value written `vx` followed by `n`, or `None` when `n` is out of range.
    pub fn table_with_number(n: u32) -> (r: Option<Value>)
        ensures
            r == Value::spec_table(n),
            r is Some ==> r->0.wf(),
    {
        if n < VALUE_NUMBER_LIMIT {
            Some(Value::Table(n))
        } else {
            None
        }
    }

    /// The number of this value within its own numbering.
    pub fn number(self) -> (n: u32)
        ensures
            n == self.spec_number(),
    {
        match self {
            Value::Direct(n) => n,
            Value::Table(n) => n,
        }
    }
}

/// A reference to an extended basic block, written `ebb3`.
#[derive(Debug, Clone, Copy, PartialEq, Eq, Structural)]
pub struct Ebb {
    pub number: u32,
}

impl Ebb {
    /// A block reference is well formed when its number is below `EBB_NUMBER_LIMIT`.
    pub open spec fn wf(self) -> bool {
        self.number < EBB_NUMBER_LIMIT
    }

    /// The block with number `n`, if `n` is in range.
    pub open spec fn spec_with_number(n: u32) -> Option<Ebb> {
        if n < EBB_NUMBER_LIMIT {
            Some(Ebb { number: n })
        } else {
            None
        }
    }

    /// The block written `ebb` followed by `n`, or `None` when `n` is out of range.
    pub fn with_number(n: u32) -> (r: Option<Ebb>)
        ensures
            r == Ebb::spec_with_number(n),
            r is Some ==> r->0.wf(),
    {
        if n < EBB_NUMBER_LIMIT {
            Some(Ebb { number: n })
        } else {
            None
        }
    }
}

} // verus!
