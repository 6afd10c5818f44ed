//! The role byte carried by every wire frame.

use vstd::prelude::*;

verus! {

/// Identifies which party originated, or is addressed by, a frame.
/// On the wire a role is a single byte; every byte outside the three
/// assigned values decodes to `Unknown`.
#[derive(PartialEq, Eq, Structural, Debug, Clone, Copy)]
pub enum Kind {
    Unknown,
    Frontend,
    Backend,
    Stun,
}

impl Kind {
    /// The byte this role serializes to.
    pub open spec fn spec_byte(self) -> u8 {
        match self {
            Kind::Unknown => 0,
            Kind::Frontend => 1,
            Kind::Backend => 2,
            Kind::Stun => 3,
        }
    }

    /// The role a byte decodes to.
    pub open spec fn spec_from(i: u8) -> Kind {
        if i == 1 {
            Kind::Frontend
        } else if i == 2 {
            Kind::Backend
        } else if i == 3 {
            Kind::Stun
        } else {
            Kind::Unknown
        }
    }

    pub fn byte(self) -> (b: u8)
        ensures
            b == self.spec_byte(),
    {
        match self {
            Kind::Unknown => 0,
            Kind::Frontend => 1,
            Kind::Backend => 2,
            Kind::Stun => 3,
        }
    }

    pub fn from(i: u8) -> (k: Kind)
        ensures
            k == Kind::spec_from(i),
    {
        match i {
            1 => Kind::Frontend,
            2 => Kind::Backend,
            3 => Kind::Stun,
            _ => Kind::Unknown,
        }
    }

    pub fn to_string(self) -> (s: String)
        ensures
            self == Kind::Backend ==> s@ == "Backend"@,
            self == Kind::Frontend ==> s@ == "Frontend"@,
            self == Kind::Stun ==> s@ == "Stun"@,
            self == Kind::Unknown ==> s@ == "Unknown"@,
    {
        match self {
            Kind::Backend => String::from_str("Backend"),
            Kind::Frontend => String::from_str("Frontend"),
            Kind::Stun => String::from_str("Stun"),
            Kind::Unknown => String::from_str("Unknown"),
        }
    }
}

/// Decoding inverts encoding on every role, the unassigned one included.
pub proof fn lemma_kind_byte_round_trip(k: Kind)
    ensures
        Kind::spec_from(k.spec_byte()) == k,
{
}

} // verus!
