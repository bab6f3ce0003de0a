use vstd::prelude::*;

use crate::names::{NameSet, least_of};
use crate::parts::{SecretParts, lemma_first_in_order_is_least, lemma_least_unique, lemma_parts_map_at, parts_sorted};
use crate::time::{Timestamp, current_time, spec_is_before};

verus! {

/// The declared target shape of a secret.
#[derive(Debug)]
pub struct Expectations {
    /// Hosts that must be able to decrypt the secret.
    pub owners: NameSet,
    /// Fingerprint of the declaration's inputs, as JSON text.
    pub generation_data: String,
    pub public_parts: NameSet,
    pub private_parts: NameSet,
}

impl Expectations {
    /// Every part name that is expected, public or private.
    pub open spec fn expected_parts(&self) -> Set<Seq<char>> {
        self.public_parts@.union(self.private_parts@)
    }
}

/// What is stored of a secret.
#[derive(Debug)]
pub struct FleetSecretData {
    pub created_at: Timestamp,
    pub expires_at: Option<Timestamp>,
    pub parts: SecretParts,
    /// The fingerprint that the secret was generated for, as JSON text.
    pub generation_data: String,
}

/// A host's own secret.
#[derive(Debug)]
pub struct FleetHostSecret {
    /// Produced by a generator, rather than inserted by hand.
    pub managed: Option<bool>,
    pub secret: FleetSecretData,
}

/// A secret stored once and encrypted for several hosts.
#[derive(Debug)]
pub struct FleetSharedSecret {
    pub managed: Option<bool>,
    pub owners: NameSet,
    pub secret: FleetSecretData,
}

/// Why a stored secret no longer matches its declaration.
#[derive(Debug)]
pub enum RegenerationReason {
    OwnersAdded(NameSet),
    OwnersRemoved(NameSet),
    GenerationData { expected: String, found: String },
    PartList { expected: NameSet, found: NameSet },
    ExpectedPrivate(String),
    ExpectedPublic(String),
    Expired(Timestamp),
}

/// The mathematical content of a `RegenerationReason`.
pub enum ReasonModel {
    OwnersAdded(Set<Seq<char>>),
    OwnersRemoved(Set<Seq<char>>),
    GenerationData { expected: Seq<char>, found: Seq<char> },
    PartList { expected: Set<Seq<char>>, found: Set<Seq<char>> },
    ExpectedPrivate(Seq<char>),
    ExpectedPublic(Seq<char>),
    Expired(Timestamp),
}

impl View for RegenerationReason {
    type V = ReasonModel;

    open spec fn view(&self) -> ReasonModel {
        match self {
            RegenerationReason::OwnersAdded(s) => ReasonModel::OwnersAdded(s@),
            RegenerationReason::OwnersRemoved(s) => ReasonModel::OwnersRemoved(s@),
            RegenerationReason::GenerationData { expected, found } => ReasonModel::GenerationData {
                expected: expected@,
                found: found@,
            },
            RegenerationReason::PartList { expected, found } => ReasonModel::PartList {
                expected: expected@,
                found: found@,
            },
            RegenerationReason::ExpectedPrivate(n) => ReasonModel::ExpectedPrivate(n@),
            RegenerationReason::ExpectedPublic(n) => ReasonModel::ExpectedPublic(n@),
            RegenerationReason::Expired(t) => ReasonModel::Expired(*t),
        }
    }
}

pub open spec fn reason_view(r: Option<RegenerationReason>) -> Option<ReasonModel> {
    match r {
        Some(x) => Some(x@),
        None => None,
    }
}

/// A stored part whose encryption flag disagrees with the declaration.
pub open spec fn part_mismatch(
    name: Seq<char>,
    encrypted: bool,
    expectations: &Expectations,
) -> bool {
    if encrypted {
        !expectations.private_parts@.contains(name)
    } else {
        !expectations.public_parts@.contains(name)
    }
}

pub open spec fn mismatched_parts(
    parts: Map<Seq<char>, (Seq<u8>, bool)>,
    expectations: &Expectations,
) -> Set<Seq<char>> {
    parts.dom().filter(|n: Seq<char>| part_mismatch(n, parts[n].1, expectations))
}

/// The first mismatch in the fixed order: owners added, owners removed, generation
/// data, part list, encryption of the parts in name order, expiry. The owner checks
/// are skipped when `owners` is empty, and the part checks when no part is expected.
pub open spec fn regeneration_reason(
    secret: &FleetSecretData,
    owners: Set<Seq<char>>,
    expectations: &Expectations,
    now: Timestamp,
) -> Option<ReasonModel> {
    let added = expectations.owners@.difference(owners);
    let removed = owners.difference(expectations.owners@);
    let expected = expectations.expected_parts();
    let found = secret.parts@.dom();
    let bad = mismatched_parts(secret.parts@, expectations);
    let no_names = Set::<Seq<char>>::empty();
    if owners != no_names && added != no_names {
        Some(ReasonModel::OwnersAdded(added))
    } else if owners != no_names && removed != no_names {
        Some(ReasonModel::OwnersRemoved(removed))
    } else if secret.generation_data@ != expectations.generation_data@ {
        Some(
            ReasonModel::GenerationData {
                expected: expectations.generation_data@,
                found: secret.generation_data@,
            },
        )
    } else if expected != no_names && found != expected {
        Some(ReasonModel::PartList { expected, found })
    } else if expected != no_names && bad != no_names {
        let n = least_of(bad);
        if secret.parts@[n].1 {
            Some(ReasonModel::ExpectedPrivate(n))
        } else {
            Some(ReasonModel::ExpectedPublic(n))
        }
    } else {
        match secret.expires_at {
            Some(e) => if spec_is_before(e, now) {
                Some(ReasonModel::Expired(e))
            } else {
                None
            },
            None => None,
        }
    }
}

/// Tells why `secret`, stored for `owners`, must be regenerated at time `now`, or
/// `None` when it matches `expectations`. An empty `owners` skips the owner checks.
pub fn needs_regeneration_at(
    secret: &FleetSecretData,
    owners: &NameSet,
    expectations: &Expectations,
    now: Timestamp,
) -> (r: Option<RegenerationReason>)
    ensures
        reason_view(r) == regeneration_reason(secret, owners@, expectations, now),
{
    let ghost no_names = Set::<Seq<char>>::empty();
    if !owners.is_empty() {
        let added = expectations.owners.difference(owners);
        if !added.is_empty() {
            return Some(RegenerationReason::OwnersAdded(added));
        }
        let removed = owners.difference(&expectations.owners);
        if !removed.is_empty() {
            return Some(RegenerationReason::OwnersRemoved(removed));
        }
    }
    if secret.generation_data != expectations.generation_data {
        return Some(
            RegenerationReason::GenerationData {
                expected: expectations.generation_data.clone(),
                found: secret.generation_data.clone(),
            },
        );
    }
    if !expectations.public_parts.is_empty() || !expectations.private_parts.is_empty() {
        let expected = expectations.public_parts.union(&expectations.private_parts);
        proof {
            if expectations.public_parts@ != no_names {
                assert(!(expectations.public_parts@ =~= no_names));
                let t = choose|t: Seq<char>| expectations.public_parts@.contains(t);
                assert(expected@.contains(t));
            } else {
                assert(!(expectations.private_parts@ =~= no_names));
                let t = choose|t: Seq<char>| expectations.private_parts@.contains(t);
                assert(expected@.contains(t));
            }
            assert(expected@ != no_names);
        }
        let found = secret.parts.names();
        if !found.same(&expected) {
            return Some(RegenerationReason::PartList { expected, found });
        }
        let entries = secret.parts.entries();
        let ghost bad = mismatched_parts(secret.parts@, expectations);
        let mut i: usize = 0;
        while i < entries.len()
            invariant
                i <= entries@.len(),
                parts_sorted(entries@),
                crate::parts::parts_map(entries@) == secret.parts@,
                bad == mismatched_parts(secret.parts@, expectations),
                forall|k: int| 0 <= k < i ==> !bad.contains(#[trigger] entries@[k].name@),
                no_names == Set::<Seq<char>>::empty(),
                secret.generation_data@ == expectations.generation_data@,
                secret.parts@.dom() == expectations.expected_parts(),
                expectations.expected_parts() != no_names,
                owners@ != no_names ==> expectations.owners@.difference(owners@) == no_names
                    && owners@.difference(expectations.owners@) == no_names,
            decreases entries@.len() - i,
        {
            let part = &entries[i];
            let mismatch = if part.raw.encrypted {
                !expectations.private_parts.contains(part.name.as_str())
            } else {
                !expectations.public_parts.contains(part.name.as_str())
            };
            proof {
                lemma_parts_map_at(entries@, i as int);
            }
            if mismatch {
                proof {
                    let n = entries@[i as int].name@;
                    assert(bad.contains(n));
                    assert forall|t: Seq<char>| #[trigger] bad.contains(t) implies exists|k: int|
                        0 <= k < entries@.len() && entries@[k].name@ == t by {
                    }
                    lemma_first_in_order_is_least(entries@, i as int, bad);
                    let c = least_of(bad);
                    lemma_least_unique(c, n, bad);
                    assert(bad != no_names);
                }
                if part.raw.encrypted {
                    return Some(RegenerationReason::ExpectedPrivate(part.name.clone()));
                } else {
                    return Some(RegenerationReason::ExpectedPublic(part.name.clone()));
                }
            }
            i = i + 1;
        }
        proof {
            assert forall|t: Seq<char>| !bad.contains(t) by {
                if bad.contains(t) {
                    let k = choose|k: int| 0 <= k < entries@.len() && entries@[k].name@ == t;
                }
            }
            assert(bad =~= no_names);
        }
    }
    proof {
        if expectations.public_parts@ == no_names && expectations.private_parts@ == no_names {
            assert(expectations.expected_parts() =~= no_names);
        }
    }
    if let Some(expiration) = secret.expires_at {
        if expiration.is_before(&now) {
            return Some(RegenerationReason::Expired(expiration));
        }
    }
    None
}

/// As `needs_regeneration_at`, at the current time of the system clock.
pub fn secret_needs_regeneration(
    secret: &FleetSecretData,
    owners: &NameSet,
    expectations: &Expectations,
) -> (r: Option<RegenerationReason>)
    ensures
        exists|now: Timestamp| reason_view(r) == regeneration_reason(secret, owners@, expectations, now),
{
    let now = current_time();
    needs_regeneration_at(secret, owners, expectations, now)
}

/// The owner check comes first: a secret that misses an expected owner is reported
/// for the added owners, whatever else is stale, its fingerprint included.
pub proof fn lemma_owners_checked_first(
    secret: &FleetSecretData,
    owners: Set<Seq<char>>,
    expectations: &Expectations,
    now: Timestamp,
    missing: Seq<char>,
)
    requires
        owners != Set::<Seq<char>>::empty(),
        expectations.owners@.contains(missing),
        !owners.contains(missing),
    ensures
        regeneration_reason(secret, owners, expectations, now) == Some(
            ReasonModel::OwnersAdded(expectations.owners@.difference(owners)),
        ),
{
    assert(expectations.owners@.difference(owners).contains(missing));
}

} // verus!
