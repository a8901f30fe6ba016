//! Realm identifiers.

use vstd::prelude::*;

verus! {

/// Identifies one of the DELPHOS realms.
#[derive(Debug, Clone, Copy, PartialEq, Eq, Structural, Hash, PartialOrd, Ord)]
pub enum RealmId {
    /// Execution realm.
    Telum,
    /// Causal realm.
    Causa,
    /// Event provider realm.
    Styx,
    /// Observation and projection realm.
    Katoptron,
    /// Persistence realm.
    Mensa,
    /// Policy and memory realm.
    Anamnesis,
}

/// The realm's name, in lowercase.
pub open spec fn realm_name(r: RealmId) -> Seq<char> {
    match r {
        RealmId::Telum => "telum"@,
        RealmId::Causa => "causa"@,
        RealmId::Styx => "styx"@,
        RealmId::Katoptron => "katoptron"@,
        RealmId::Mensa => "mensa"@,
        RealmId::Anamnesis => "anamnesis"@,
    }
}

impl RealmId {
    /// The realm's name, in lowercase.
    pub fn as_str(self) -> (r: &'static str)
        ensures
            r@ == realm_name(self),
    {
        match self {
            RealmId::Telum => "telum",
            RealmId::Causa => "causa",
            RealmId::Styx => "styx",
            RealmId::Katoptron => "katoptron",
            RealmId::Mensa => "mensa",
            RealmId::Anamnesis => "anamnesis",
        }
    }
}

} // verus!
