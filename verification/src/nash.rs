//! Name hashes: the short form of a socket's name.

use vstd::prelude::*;

verus! {

/// The hash of a socket's name. Zero stands for "no name" on the wire, so no
/// name hashes to it.
#[derive(Clone, Copy, Debug, PartialEq, Eq, Structural)]
pub struct NameHash {
    hash: u32,
}

impl NameHash {
    /// The hash as a number.
    pub closed spec fn value(self) -> u32 {
        self.hash
    }

    /// No name has the hash zero.
    pub open spec fn wf(self) -> bool {
        self.value() != 0
    }

    #[verifier::type_invariant]
    spec fn nonzero(self) -> bool {
        self.hash != 0
    }

    /// The name hash with the given number; zero stands for no name at all.
    pub fn from_u32(hash: u32) -> (r: Option<NameHash>)
        ensures
            r == name_hash_of(hash),
            r matches Some(n) ==> n.wf(),
    {
        if hash == 0 {
            None
        } else {
            let n = NameHash { hash };
            proof {
                value_injective(n, name_hash_with(hash));
            }
            Some(n)
        }
    }

    /// The hash as a number, which is never zero.
    pub fn to_u32(&self) -> (r: u32)
        ensures
            r == self.value(),
            self.wf(),
    {
        proof {
            use_type_invariant(self);
        }
        self.hash
    }
}

/// The name hash whose number is `hash`.
pub closed spec fn name_hash_with(hash: u32) -> NameHash {
    NameHash { hash }
}

/// What a number on the wire stands for: a name, or none where it is zero.
pub open spec fn name_hash_of(hash: u32) -> Option<NameHash> {
    if hash == 0 {
        None
    } else {
        Some(name_hash_with(hash))
    }
}

/// The number that stands for a name, or for none, on the wire.
pub open spec fn name_hash_number(nash: Option<NameHash>) -> u32 {
    match nash {
        Some(n) => n.value(),
        None => 0,
    }
}

/// A name hash is determined by its number.
pub proof fn value_injective(a: NameHash, b: NameHash)
    requires
        a.value() == b.value(),
    ensures
        a == b,
{
}

/// Going to the wire number and back gives the same name, and a number
/// determines the name it stands for.
pub proof fn name_hash_round_trip(nash: Option<NameHash>, hash: u32)
    requires
        nash matches Some(n) ==> n.wf(),
    ensures
        name_hash_of(name_hash_number(nash)) == nash,
        name_hash_number(name_hash_of(hash)) == hash,
{
}

} // verus!
