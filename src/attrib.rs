//! Resolved attributes of a field or of an enum variant.
use vstd::prelude::*;

verus! {

/// The wrap depth as reported to callers: absent and zero both read as
/// `None`.
pub open spec fn reported_depth(w: Option<u32>) -> Option<u32> {
    match w {
        Some(n) => if n == 0 {
            None
        } else {
            Some(n)
        },
        None => None,
    }
}

/// The bound handed to the chain builder: one layer when no depth is given,
/// no bound for depth zero, else the depth given.
pub open spec fn depth_bound(w: Option<u32>) -> Option<u32> {
    match w {
        Some(n) => if n == 0 {
            None
        } else {
            Some(n)
        },
        None => Some(1),
    }
}

/// Attributes of the field of a single-field struct.
#[derive(Debug, Clone, Copy, PartialEq, Eq, Default)]
pub struct StructAttributes {
    /// `wrapDepth`: how many layers of the field's type get a conversion.
    pub wrap_depth: Option<u32>,
}

impl StructAttributes {
    /// The wrap depth given, or `None` where it is absent or zero.
    pub fn wrap_depth(&self) -> (r: Option<u32>)
        ensures
            r == reported_depth(self.wrap_depth),
    {
        match self.wrap_depth {
            None => None,
            Some(n) => if n == 0 {
                None
            } else {
                Some(n)
            },
        }
    }

    /// The bound on the chain of the field's type.
    pub fn chain_depth(&self) -> (r: Option<u32>)
        ensures
            r == depth_bound(self.wrap_depth),
    {
        match self.wrap_depth {
            None => Some(1),
            Some(n) => if n == 0 {
                None
            } else {
                Some(n)
            },
        }
    }
}

/// Attributes of an enum variant.
#[derive(Debug, Clone, Copy, PartialEq, Eq, Default)]
pub struct VariantAttributes {
    /// `wrapDepth`: how many layers of the variant's field type get a
    /// conversion.
    pub wrap_depth: Option<u32>,
    /// `noWrap`: the variant gets no conversion into the enum.
    pub no_wrap: bool,
    /// `noUnwrap`: the variant never converts out of the enum.
    pub no_unwrap: bool,
}

impl VariantAttributes {
    /// The wrap depth given, or `None` where it is absent or zero.
    pub fn wrap_depth(&self) -> (r: Option<u32>)
        ensures
            r == reported_depth(self.wrap_depth),
    {
        match self.wrap_depth {
            None => None,
            Some(n) => if n == 0 {
                None
            } else {
                Some(n)
            },
        }
    }

    /// The bound on the chain of the variant's field type.
    pub fn chain_depth(&self) -> (r: Option<u32>)
        ensures
            r == depth_bound(self.wrap_depth),
    {
        match self.wrap_depth {
            None => Some(1),
            Some(n) => if n == 0 {
                None
            } else {
                Some(n)
            },
        }
    }
}

} // verus!
