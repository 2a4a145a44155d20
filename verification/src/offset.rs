//! Offsets into the value stack and into a procedure's captures.

use vstd::prelude::*;

verus! {

/// An offset on a procedure's captures vector.
#[derive(Clone, Copy, Debug, PartialEq, Eq)]
pub struct CaptureOffset(pub usize);

/// An offset on the stack.
#[derive(Clone, Copy, Debug, PartialEq, Eq)]
pub struct StackOffset(pub usize);

impl std::ops::Add for StackOffset {
    type Output = Self;

    fn add(self, other: Self) -> Self {
        StackOffset(self.0 + other.0)
    }
}

/// `a + b` adds the two offsets; the sum has to fit the machine word.
impl vstd::std_specs::ops::AddSpecImpl for StackOffset {
    open spec fn obeys_add_spec() -> bool {
        true
    }

    open spec fn add_req(self, other: Self) -> bool {
        self.0 + other.0 <= usize::MAX
    }

    open spec fn add_spec(self, other: Self) -> Self {
        StackOffset((self.0 + other.0) as usize)
    }
}

impl std::ops::AddAssign for StackOffset {
    fn add_assign(&mut self, other: Self)
        requires
            old(self).0 + other.0 <= usize::MAX,
        ensures
            final(self).0 == old(self).0 + other.0,
    {
        self.0 += other.0;
    }
}

impl std::ops::Sub for StackOffset {
    type Output = Self;

    fn sub(self, other: Self) -> Self {
        StackOffset(self.0 - other.0)
    }
}

/// `a - b` is the distance from `b` up to `a`; `b` must not lie above `a`.
impl vstd::std_specs::ops::SubSpecImpl for StackOffset {
    open spec fn obeys_sub_spec() -> bool {
        true
    }

    open spec fn sub_req(self, other: Self) -> bool {
        other.0 <= self.0
    }

    open spec fn sub_spec(self, other: Self) -> Self {
        StackOffset((self.0 - other.0) as usize)
    }
}

impl std::ops::SubAssign for StackOffset {
    fn sub_assign(&mut self, other: Self)
        requires
            other.0 <= old(self).0,
        ensures
            final(self).0 == old(self).0 - other.0,
    {
        self.0 -= other.0;
    }
}

/// Where a procedure finds a value that it captures when it is made.
#[derive(Clone, Copy, Debug, PartialEq, Eq)]
pub enum Capture {
    /// A slot of the enclosing frame, counted from that frame's base.
    Local(StackOffset),
    /// A slot of the enclosing procedure's own captures.
    Capture(CaptureOffset),
}

} // verus!
