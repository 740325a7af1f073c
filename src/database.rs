use vstd::prelude::*;

verus! {

/// An identifier as the relational store keeps it: a `u64` held in a signed 64-bit column.
#[derive(Debug, Clone, Copy, PartialEq, Eq, Structural)]
pub struct U64Wrapper(pub u64);

/// The signed column value that stands for `x`: the same 64 bits read as two's complement.
pub open spec fn signed_of(x: u64) -> int {
    if x < 0x8000_0000_0000_0000 {
        x as int
    } else {
        x as int - 0x1_0000_0000_0000_0000
    }
}

/// The identifier that a signed column value stands for.
pub open spec fn unsigned_of(x: i64) -> int {
    if x >= 0 {
        x as int
    } else {
        x as int + 0x1_0000_0000_0000_0000
    }
}

impl U64Wrapper {
    /// The value written to the store.
    pub fn to_sql(&self) -> (r: i64)
        ensures
            r as int == signed_of(self.0),
    {
        if self.0 < 0x8000_0000_0000_0000 {
            self.0 as i64
        } else {
            let low = self.0 - 0x8000_0000_0000_0000;
            (low as i64) - 0x7fff_ffff_ffff_ffff - 1
        }
    }

    /// The identifier read back from the store.
    pub fn from_sql(v: i64) -> (r: U64Wrapper)
        ensures
            r.0 as int == unsigned_of(v),
    {
        if v >= 0 {
            U64Wrapper(v as u64)
        } else {
            let shifted = (v + 0x7fff_ffff_ffff_ffff + 1) as u64;
            U64Wrapper(shifted + 0x8000_0000_0000_0000)
        }
    }
}

/// Writing an identifier to the store and reading it back gives the identifier again.
pub proof fn lemma_sql_round_trip(x: u64, v: i64)
    requires
        v as int == signed_of(x),
    ensures
        unsigned_of(v) == x as int,
{
}

impl From<u64> for U64Wrapper {
    fn from(c: u64) -> (r: U64Wrapper) {
        U64Wrapper(c)
    }
}

impl vstd::std_specs::convert::FromSpecImpl<u64> for U64Wrapper {
    open spec fn obeys_from_spec() -> bool {
        true
    }

    open spec fn from_spec(c: u64) -> U64Wrapper {
        U64Wrapper(c)
    }
}

impl From<U64Wrapper> for u64 {
    fn from(w: U64Wrapper) -> (r: u64) {
        w.0
    }
}

impl vstd::std_specs::convert::FromSpecImpl<U64Wrapper> for u64 {
    open spec fn obeys_from_spec() -> bool {
        true
    }

    open spec fn from_spec(w: U64Wrapper) -> u64 {
        w.0
    }
}

} // verus!
