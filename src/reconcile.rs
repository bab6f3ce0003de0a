use vstd::prelude::*;
use vstd::string::StringExecFns;

use crate::names::{NameSet, is_least, names_of};
use crate::parts::{SecretData, SecretPart, SecretParts};
use crate::secret::{
    Expectations, FleetHostSecret, FleetSecretData, FleetSharedSecret, ReasonModel, RegenerationReason,
    mismatched_parts, needs_regeneration_at, reason_view, regeneration_reason,
};
use crate::time::Timestamp;

verus! {

/// What becomes of a stored shared secret.
#[derive(Clone, Copy, Debug, PartialEq, Eq, Structural)]
pub enum SharedSecretAction {
    /// Produce fresh material for the expected owners.
    Regenerate,
    /// Re-wrap the encrypted parts for the expected owners, and record them as owners.
    Reencrypt,
    /// Leave the secret as it is.
    Keep,
}

/// The policy for a shared secret: added owners always need a re-encryption, and a
/// regeneration only where the declaration asks for it; removed owners need nothing,
/// or a regeneration where the declaration asks for it; any other reason needs a
/// regeneration.
pub open spec fn spec_shared_action(
    reason: Option<ReasonModel>,
    regenerate_on_owner_added: bool,
    regenerate_on_owner_removed: bool,
) -> SharedSecretAction {
    match reason {
        None => SharedSecretAction::Keep,
        Some(ReasonModel::OwnersAdded(_)) => if regenerate_on_owner_added {
            SharedSecretAction::Regenerate
        } else {
            SharedSecretAction::Reencrypt
        },
        Some(ReasonModel::OwnersRemoved(_)) => if regenerate_on_owner_removed {
            SharedSecretAction::Regenerate
        } else {
            SharedSecretAction::Keep
        },
        Some(_) => SharedSecretAction::Regenerate,
    }
}

/// Applies the policy of `spec_shared_action` to a regeneration reason.
pub fn shared_secret_action(
    reason: &Option<RegenerationReason>,
    regenerate_on_owner_added: bool,
    regenerate_on_owner_removed: bool,
) -> (r: SharedSecretAction)
    ensures
        r == spec_shared_action(reason_view(*reason), regenerate_on_owner_added, regenerate_on_owner_removed),
{
    match reason {
        None => SharedSecretAction::Keep,
        Some(RegenerationReason::OwnersAdded(_)) => if regenerate_on_owner_added {
            SharedSecretAction::Regenerate
        } else {
            SharedSecretAction::Reencrypt
        },
        Some(RegenerationReason::OwnersRemoved(_)) => if regenerate_on_owner_removed {
            SharedSecretAction::Regenerate
        } else {
            SharedSecretAction::Keep
        },
        Some(_) => SharedSecretAction::Regenerate,
    }
}

/// Decides, at time `now`, what becomes of a stored shared secret.
pub fn decide_shared_secret(
    secret: &FleetSharedSecret,
    expectations: &Expectations,
    regenerate_on_owner_added: bool,
    regenerate_on_owner_removed: bool,
    now: Timestamp,
) -> (r: SharedSecretAction)
    ensures
        r == spec_shared_action(
            regeneration_reason(&secret.secret, secret.owners@, expectations, now),
            regenerate_on_owner_added,
            regenerate_on_owner_removed,
        ),
{
    let reason = needs_regeneration_at(&secret.secret, &secret.owners, expectations, now);
    shared_secret_action(&reason, regenerate_on_owner_added, regenerate_on_owner_removed)
}

/// The host that decrypts a shared secret: the first preferred identity that owns
/// it, or, with no preference given, the least owner.
pub fn select_identity_holder(prefer: &Vec<String>, owners: &NameSet) -> (r: Option<String>)
    ensures
        prefer@.len() > 0 ==> match r {
            Some(h) => exists|i: int|
                0 <= i < prefer@.len() && prefer@[i]@ == h@ && owners@.contains(h@) && forall|
                    k: int,
                | 0 <= k < i ==> !owners@.contains(#[trigger] prefer@[k]@),
            None => forall|k: int| 0 <= k < prefer@.len() ==> !owners@.contains(#[trigger] prefer@[k]@),
        },
        prefer@.len() == 0 ==> match r {
            Some(h) => is_least(h@, owners@),
            None => owners@ == Set::<Seq<char>>::empty(),
        },
{
    if prefer.len() > 0 {
        let mut i: usize = 0;
        while i < prefer.len()
            invariant
                i <= prefer@.len(),
                forall|k: int| 0 <= k < i ==> !owners@.contains(#[trigger] prefer@[k]@),
            decreases prefer@.len() - i,
        {
            if owners.contains(prefer[i].as_str()) {
                return Some(prefer[i].clone());
            }
            i = i + 1;
        }
        None
    } else {
        match owners.first() {
            Some(h) => Some(h.clone()),
            None => None,
        }
    }
}

/// `parts` with each replacement of `s` put in place of the encrypted part of its name;
/// other replacements are ignored.
pub open spec fn overlay_encrypted(
    parts: Map<Seq<char>, (Seq<u8>, bool)>,
    s: Seq<SecretPart>,
) -> Map<Seq<char>, (Seq<u8>, bool)>
    decreases s.len(),
{
    if s.len() == 0 {
        parts
    } else {
        let rest = overlay_encrypted(parts, s.drop_last());
        let p = s.last();
        if rest.dom().contains(p.name@) && rest[p.name@].1 {
            rest.insert(p.name@, p.raw@)
        } else {
            rest
        }
    }
}

/// The names of the encrypted parts.
pub open spec fn encrypted_names(parts: Map<Seq<char>, (Seq<u8>, bool)>) -> Set<Seq<char>> {
    parts.dom().filter(|n: Seq<char>| parts[n].1)
}

/// The names of the encrypted parts, in increasing order: the parts to re-wrap.
pub fn encrypted_part_names(parts: &SecretParts) -> (r: Vec<String>)
    ensures
        names_of(r@) == encrypted_names(parts@),
{
    let entries = parts.entries();
    let mut r: Vec<String> = Vec::new();
    let mut i: usize = 0;
    while i < entries.len()
        invariant
            i <= entries@.len(),
            crate::parts::parts_sorted(entries@),
            crate::parts::parts_map(entries@) == parts@,
            names_of(r@) == Set::new(|n: Seq<char>| exists|k: int| 0 <= k < i && entries@[k].name@ == n && entries@[k].raw.encrypted),
        decreases entries@.len() - i,
    {
        proof {
            crate::parts::lemma_parts_map_at(entries@, i as int);
        }
        let ghost before = r@;
        if entries[i].raw.encrypted {
            r.push(entries[i].name.clone());
        }
        proof {
            let a = Set::new(|n: Seq<char>| exists|k: int| 0 <= k < i + 1 && entries@[k].name@ == n && entries@[k].raw.encrypted);
            assert forall|n: Seq<char>| names_of(r@).contains(n) <==> a.contains(n) by {
                if names_of(r@).contains(n) {
                    let j = choose|j: int| 0 <= j < r@.len() && r@[j]@ == n;
                    if j < before.len() {
                        assert(names_of(before).contains(n));
                        let k = choose|k: int| 0 <= k < i && entries@[k].name@ == n && entries@[k].raw.encrypted;
                        assert(a.contains(n));
                    } else {
                        assert(a.contains(n));
                    }
                }
                if a.contains(n) {
                    let k = choose|k: int| 0 <= k < i + 1 && entries@[k].name@ == n && entries@[k].raw.encrypted;
                    if k < i {
                        assert(names_of(before).contains(n));
                        let j = choose|j: int| 0 <= j < before.len() && before[j]@ == n;
                        assert(r@[j]@ == n);
                    } else {
                        assert(r@[r@.len() - 1]@ == n);
                    }
                }
            }
            assert(names_of(r@) =~= a);
        }
        i = i + 1;
    }
    proof {
        let target = encrypted_names(parts@);
        assert forall|n: Seq<char>| names_of(r@).contains(n) <==> target.contains(n) by {
            if names_of(r@).contains(n) {
                let k = choose|k: int| 0 <= k < i && entries@[k].name@ == n && entries@[k].raw.encrypted;
                crate::parts::lemma_parts_map_at(entries@, k);
            }
            if target.contains(n) {
                let k = crate::parts::part_index(entries@, n);
                crate::parts::lemma_parts_map_at(entries@, k);
            }
        }
        assert(names_of(r@) =~= target);
    }
    r
}

/// Puts the re-wrapped parts in place of the encrypted parts of the same names, leaves
/// the unencrypted parts as they are, and records `owners` as the secret's owners.
pub fn apply_reencryption(secret: &mut FleetSharedSecret, reencrypted: Vec<SecretPart>, owners: &NameSet)
    ensures
        final(secret).owners@ == owners@,
        final(secret).secret.parts@ == overlay_encrypted(old(secret).secret.parts@, reencrypted@),
        final(secret).secret.generation_data == old(secret).secret.generation_data,
        final(secret).secret.created_at == old(secret).secret.created_at,
        final(secret).secret.expires_at == old(secret).secret.expires_at,
        final(secret).managed == old(secret).managed,
{
    let ghost start = secret.secret.parts@;
    let mut i: usize = 0;
    let n = reencrypted.len();
    let mut rest = reencrypted;
    let ghost all = rest@;
    assert(all.take(0) =~= Seq::<SecretPart>::empty());
    while i < n
        invariant
            n == all.len(),
            i <= all.len(),
            rest@ == all.skip(i as int),
            secret.secret.parts@ == overlay_encrypted(start, all.take(i as int)),
            secret.secret.generation_data == old(secret).secret.generation_data,
            secret.secret.created_at == old(secret).secret.created_at,
            secret.secret.expires_at == old(secret).secret.expires_at,
            secret.managed == old(secret).managed,
            secret.owners@ == old(secret).owners@,
        decreases n - i,
    {
        let ghost before_rest = rest@;
        let part = rest.remove(0);
        proof {
            assert(part == all[i as int]);
            assert(rest@ =~= all.skip(i + 1));
            assert(all.take(i + 1).drop_last() =~= all.take(i as int));
            assert(all.take(i + 1).last() == part);
        }
        let replace = match secret.secret.parts.get(part.name.as_str()) {
            Some(old_part) => old_part.encrypted,
            None => false,
        };
        if replace {
            secret.secret.parts.insert(part.name, part.raw);
        }
        i = i + 1;
    }
    assert(all.take(i as int) =~= all);
    secret.owners = owners.clone_set();
}

/// Why an owner edit was refused.
#[derive(Clone, Copy, Debug, PartialEq, Eq, Structural)]
pub enum OwnerEditError {
    /// Neither a full owner list nor names to add or remove were given.
    NoOperation,
    /// A full owner list was given together with names to add or remove.
    ConflictingOptions,
    /// The secret has no encrypted part, so owners mean nothing to it.
    NoEncryptedPart,
}

/// The owners after an edit: a full list replaces them; otherwise the names to remove
/// are taken out, then the names to add are put in.
pub open spec fn edited_owners(
    initial: Set<Seq<char>>,
    machines: Option<Seq<String>>,
    add: Seq<String>,
    remove: Seq<String>,
) -> Set<Seq<char>> {
    match machines {
        Some(m) => names_of(m),
        None => initial.difference(names_of(remove)).union(names_of(add)),
    }
}

/// Computes the owner set that an edit asks for. Adding a present owner or removing
/// an absent one is not an error.
pub fn parse_machines(
    initial: NameSet,
    machines: Option<Vec<String>>,
    add_machines: Vec<String>,
    remove_machines: Vec<String>,
) -> (r: Result<NameSet, OwnerEditError>)
    ensures
        machines is None && add_machines@.len() == 0 && remove_machines@.len() == 0 <==> r
            == Err::<NameSet, _>(OwnerEditError::NoOperation),
        machines is Some && (add_machines@.len() > 0 || remove_machines@.len() > 0) <==> r
            == Err::<NameSet, _>(OwnerEditError::ConflictingOptions),
        r != Err::<NameSet, _>(OwnerEditError::NoEncryptedPart),
        r matches Ok(s) ==> s@ == edited_owners(
            initial@,
            match machines {
                Some(m) => Some(m@),
                None => None,
            },
            add_machines@,
            remove_machines@,
        ),
{
    if machines.is_none() && add_machines.len() == 0 && remove_machines.len() == 0 {
        return Err(OwnerEditError::NoOperation);
    }
    match machines {
        Some(m) => {
            if add_machines.len() > 0 || remove_machines.len() > 0 {
                return Err(OwnerEditError::ConflictingOptions);
            }
            Ok(NameSet::from_vec(m))
        },
        None => {
            let mut target = initial;
            let mut i: usize = 0;
            assert(names_of(remove_machines@.take(0)) =~= Set::<Seq<char>>::empty());
            assert(target@.difference(Set::<Seq<char>>::empty()) =~= target@);
            let ghost init = target@;
            while i < remove_machines.len()
                invariant
                    i <= remove_machines@.len(),
                    target@ == init.difference(names_of(remove_machines@.take(i as int))),
                decreases remove_machines@.len() - i,
            {
                target.remove(remove_machines[i].as_str());
                proof {
                    crate::names::lemma_names_of_take_next(remove_machines@, i as int);
                    assert(init.difference(names_of(remove_machines@.take(i as int))).remove(remove_machines@[i as int]@)
                        =~= init.difference(names_of(remove_machines@.take(i + 1))));
                }
                i = i + 1;
            }
            assert(remove_machines@.take(i as int) =~= remove_machines@);
            let ghost mid = target@;
            let mut j: usize = 0;
            assert(names_of(add_machines@.take(0)) =~= Set::<Seq<char>>::empty());
            assert(mid.union(Set::<Seq<char>>::empty()) =~= mid);
            while j < add_machines.len()
                invariant
                    j <= add_machines@.len(),
                    target@ == mid.union(names_of(add_machines@.take(j as int))),
                decreases add_machines@.len() - j,
            {
                target.insert(add_machines[j].clone());
                proof {
                    crate::names::lemma_names_of_take_next(add_machines@, j as int);
                    assert(mid.union(names_of(add_machines@.take(j as int))).insert(add_machines@[j as int]@)
                        =~= mid.union(names_of(add_machines@.take(j + 1))));
                }
                j = j + 1;
            }
            assert(add_machines@.take(j as int) =~= add_machines@);
            Ok(target)
        },
    }
}

/// What an owner edit does to a stored shared secret.
#[derive(Debug)]
pub enum OwnerUpdate {
    /// No owner is left: the secret is deleted.
    Remove,
    /// The secret is reconciled for these owners.
    Update(NameSet),
}

/// Plans an owner edit of a stored shared secret: it must hold an encrypted part; an
/// edit that leaves no owner deletes the secret.
pub fn plan_owner_update(
    secret: &FleetSharedSecret,
    machines: Option<Vec<String>>,
    add_machines: Vec<String>,
    remove_machines: Vec<String>,
) -> (r: Result<OwnerUpdate, OwnerEditError>)
    ensures
        encrypted_names(secret.secret.parts@) == Set::<Seq<char>>::empty()
            <==> r == Err::<OwnerUpdate, _>(OwnerEditError::NoEncryptedPart),
        r matches Ok(u) ==> {
            let target = edited_owners(
                secret.owners@,
                match machines {
                    Some(m) => Some(m@),
                    None => None,
                },
                add_machines@,
                remove_machines@,
            );
            match u {
                OwnerUpdate::Remove => target == Set::<Seq<char>>::empty(),
                OwnerUpdate::Update(s) => s@ == target && target != Set::<Seq<char>>::empty(),
            }
        },
        encrypted_names(secret.secret.parts@) != Set::<Seq<char>>::empty() ==> {
            &&& machines is None && add_machines@.len() == 0 && remove_machines@.len() == 0 <==> r
                == Err::<OwnerUpdate, _>(OwnerEditError::NoOperation)
            &&& machines is Some && (add_machines@.len() > 0 || remove_machines@.len() > 0) <==> r
                == Err::<OwnerUpdate, _>(OwnerEditError::ConflictingOptions)
            &&& !(machines is None && add_machines@.len() == 0 && remove_machines@.len() == 0)
                && !(machines is Some && (add_machines@.len() > 0 || remove_machines@.len() > 0))
                ==> r is Ok
        },
{
    let encrypted = encrypted_part_names(&secret.secret.parts);
    if encrypted.len() == 0 {
        proof {
            assert(names_of(encrypted@) =~= Set::<Seq<char>>::empty());
        }
        return Err(OwnerEditError::NoEncryptedPart);
    }
    proof {
        assert(names_of(encrypted@).contains(encrypted@[0]@));
        assert(encrypted_names(secret.secret.parts@).contains(encrypted@[0]@));
        assert(!Set::<Seq<char>>::empty().contains(encrypted@[0]@));
        assert(encrypted_names(secret.secret.parts@) != Set::<Seq<char>>::empty());
    }
    let target = parse_machines(secret.owners.clone_set(), machines, add_machines, remove_machines);
    match target {
        Ok(t) => if t.is_empty() {
            Ok(OwnerUpdate::Remove)
        } else {
            Ok(OwnerUpdate::Update(t))
        },
        Err(e) => Err(e),
    }
}

/// What becomes of one of a host's own secrets in a reconciliation pass.
#[derive(Clone, Copy, Debug, PartialEq, Eq, Structural)]
pub enum HostSecretAction {
    /// Declared but not stored: generate it.
    Generate,
    /// Stored, but no longer matching its declaration: generate it anew.
    Regenerate,
    /// Stored but no longer declared: remove it.
    Remove,
    /// Nothing to do.
    Keep,
}

/// A host secret is checked without owners: it belongs to its host alone.
pub open spec fn spec_host_action(
    stored: Option<&FleetHostSecret>,
    declared: Option<&Expectations>,
    now: Timestamp,
) -> HostSecretAction {
    match (declared, stored) {
        (Some(_), None) => HostSecretAction::Generate,
        (Some(e), Some(s)) => if regeneration_reason(&s.secret, Set::<Seq<char>>::empty(), e, now) is Some {
            HostSecretAction::Regenerate
        } else {
            HostSecretAction::Keep
        },
        (None, Some(_)) => HostSecretAction::Remove,
        (None, None) => HostSecretAction::Keep,
    }
}

/// Decides what becomes of a host secret, given what is stored and what is declared
/// of it (its expectations), at time `now`.
pub fn decide_host_secret(
    stored: Option<&FleetHostSecret>,
    declared: Option<&Expectations>,
    now: Timestamp,
) -> (r: HostSecretAction)
    ensures
        r == spec_host_action(stored, declared, now),
{
    match (declared, stored) {
        (Some(_), None) => HostSecretAction::Generate,
        (Some(e), Some(s)) => {
            let no_owners = NameSet::new();
            if needs_regeneration_at(&s.secret, &no_owners, e, now).is_some() {
                HostSecretAction::Regenerate
            } else {
                HostSecretAction::Keep
            }
        },
        (None, Some(_)) => HostSecretAction::Remove,
        (None, None) => HostSecretAction::Keep,
    }
}

/// What the generation pipeline hands back: a secret that meets its own
/// expectations, checked with the expected owners.
pub open spec fn meets_expectations(data: &FleetSecretData, expectations: &Expectations, now: Timestamp) -> bool {
    regeneration_reason(data, expectations.owners@, expectations, now) is None
}

/// A secret that meets its expectations for their owners meets them without an owner
/// check too.
pub proof fn lemma_meets_without_owners(data: &FleetSecretData, expectations: &Expectations, now: Timestamp)
    requires
        meets_expectations(data, expectations, now),
    ensures
        regeneration_reason(data, Set::<Seq<char>>::empty(), expectations, now) is None,
{
}

/// A freshly generated host secret, checked again at once against the expectations it
/// was generated for, needs nothing.
pub proof fn lemma_generated_host_secret_is_kept(
    generated: &FleetHostSecret,
    expectations: &Expectations,
    now: Timestamp,
)
    requires
        meets_expectations(&generated.secret, expectations, now),
    ensures
        spec_host_action(Some(generated), Some(expectations), now) == HostSecretAction::Keep,
{
    lemma_meets_without_owners(&generated.secret, expectations, now);
}

/// What is stored of a host secret after a pass has applied `action`, with
/// `generated` the secret that the pipeline produced.
pub open spec fn host_after<'a>(
    stored: Option<&'a FleetHostSecret>,
    action: HostSecretAction,
    generated: &'a FleetHostSecret,
) -> Option<&'a FleetHostSecret> {
    match action {
        HostSecretAction::Generate | HostSecretAction::Regenerate => Some(generated),
        HostSecretAction::Remove => None,
        HostSecretAction::Keep => stored,
    }
}

/// A second reconciliation pass over a host secret, with nothing changed in between,
/// neither generates nor removes anything.
pub proof fn lemma_host_reconcile_idempotent(
    stored: Option<&FleetHostSecret>,
    declared: Option<&Expectations>,
    generated: &FleetHostSecret,
    now: Timestamp,
)
    requires
        declared matches Some(e) ==> meets_expectations(&generated.secret, e, now),
    ensures
        spec_host_action(
            host_after(stored, spec_host_action(stored, declared, now), generated),
            declared,
            now,
        ) == HostSecretAction::Keep,
{
    if let Some(e) = declared {
        lemma_meets_without_owners(&generated.secret, e, now);
    }
}

/// A second pass over a stored shared secret, with nothing changed in between, calls
/// neither the generator nor the re-encryption. `after` is the secret as the first
/// pass left it: generated anew for the expected owners, re-encrypted for them (each
/// re-wrapped part encrypted), or untouched. Left out: a secret re-encrypted for added
/// owners while it also mismatches otherwise, which the owner check hid on the first
/// pass.
pub proof fn lemma_shared_reconcile_idempotent(
    stored: &FleetSharedSecret,
    expectations: &Expectations,
    regenerate_on_owner_added: bool,
    regenerate_on_owner_removed: bool,
    now: Timestamp,
    reencrypted: Seq<SecretPart>,
    after: &FleetSharedSecret,
)
    requires
        match spec_shared_action(
            regeneration_reason(&stored.secret, stored.owners@, expectations, now),
            regenerate_on_owner_added,
            regenerate_on_owner_removed,
        ) {
            SharedSecretAction::Regenerate => after.owners@ == expectations.owners@
                && meets_expectations(&after.secret, expectations, now),
            SharedSecretAction::Reencrypt => {
                &&& meets_expectations(&stored.secret, expectations, now)
                &&& forall|i: int| 0 <= i < reencrypted.len() ==> (#[trigger] reencrypted[i]).raw.encrypted
                &&& after.owners@ == expectations.owners@
                &&& after.secret.parts@ == overlay_encrypted(stored.secret.parts@, reencrypted)
                &&& after.secret.generation_data@ == stored.secret.generation_data@
                &&& after.secret.expires_at == stored.secret.expires_at
            },
            SharedSecretAction::Keep => {
                &&& after.owners@ == stored.owners@
                &&& after.secret.parts@ == stored.secret.parts@
                &&& after.secret.generation_data@ == stored.secret.generation_data@
                &&& after.secret.expires_at == stored.secret.expires_at
            },
        },
    ensures
        spec_shared_action(
            regeneration_reason(&after.secret, after.owners@, expectations, now),
            regenerate_on_owner_added,
            regenerate_on_owner_removed,
        ) == SharedSecretAction::Keep,
{
    let action = spec_shared_action(
        regeneration_reason(&stored.secret, stored.owners@, expectations, now),
        regenerate_on_owner_added,
        regenerate_on_owner_removed,
    );
    if action == SharedSecretAction::Reencrypt {
        lemma_overlay_keeps_flags(stored.secret.parts@, reencrypted);
        assert(after.secret.parts@.dom() == stored.secret.parts@.dom());
        assert(mismatched_parts(after.secret.parts@, expectations) =~= mismatched_parts(
            stored.secret.parts@,
            expectations,
        ));
    }
}

/// Re-wrapping encrypted parts into encrypted parts keeps every part's name and flag.
pub proof fn lemma_overlay_keeps_flags(parts: Map<Seq<char>, (Seq<u8>, bool)>, s: Seq<SecretPart>)
    requires
        forall|i: int| 0 <= i < s.len() ==> (#[trigger] s[i]).raw.encrypted,
    ensures
        overlay_encrypted(parts, s).dom() == parts.dom(),
        forall|n: Seq<char>| #[trigger] parts.dom().contains(n) ==> overlay_encrypted(parts, s)[n].1 == parts[n].1,
    decreases s.len(),
{
    if s.len() > 0 {
        lemma_overlay_keeps_flags(parts, s.drop_last());
        let rest = overlay_encrypted(parts, s.drop_last());
        let p = s.last();
        assert(p.raw.encrypted);
        if rest.dom().contains(p.name@) && rest[p.name@].1 {
            assert(rest.insert(p.name@, p.raw@).dom() =~= rest.dom());
        }
    }
}

/// The secrets that a reconciliation pass visits.
#[derive(Debug)]
pub struct PassPlan {
    /// Declared but not stored: to generate.
    pub missing: NameSet,
    /// Declared and stored: to check.
    pub existing: NameSet,
    /// Stored but no longer declared: to remove.
    pub removed: NameSet,
}

/// Splits the declared and stored secret names into the three passes.
pub fn plan_passes(declared: &NameSet, stored: &NameSet) -> (r: PassPlan)
    ensures
        r.missing@ == declared@.difference(stored@),
        r.existing@ == stored@.intersect(declared@),
        r.removed@ == stored@.difference(declared@),
{
    let removed = stored.difference(declared);
    let existing = stored.difference(&removed);
    assert(existing@ =~= stored@.intersect(declared@));
    PassPlan { missing: declared.difference(stored), existing, removed }
}

/// Why a secret could not be added by hand.
#[derive(Debug)]
pub enum AddSecretError {
    /// The secret exists, and neither replacing nor merging was asked for.
    AlreadyDefined,
    /// The secret is made by a generator and is not edited by hand.
    Managed,
    /// A part of this name exists, and replacing was not asked for.
    PartAlreadyDefined(String),
    /// Merging into a secret that does not exist.
    NothingToMerge,
    /// Re-adding a shared secret that does not exist.
    SecretMissing,
    /// Forcing and re-adding were both asked for.
    ForceWithReadd,
    /// Owners were given for a re-added shared secret, which keeps its owners.
    OwnersWithReadd,
    /// The public part was given both inline and as a file.
    PublicTwice,
}

/// Takes the public part from exactly one of its sources.
pub fn choose_public(inline: Option<Vec<u8>>, from_file: Option<Vec<u8>>) -> (r: Result<Option<SecretData>, AddSecretError>)
    ensures
        inline is Some && from_file is Some <==> r matches Err(AddSecretError::PublicTwice),
        r is Err ==> r matches Err(AddSecretError::PublicTwice),
        inline is None && from_file is None ==> r matches Ok(None),
        inline is Some && from_file is None ==> (r matches Ok(Some(d)) && d@ == (inline->Some_0@, false)),
        inline is None && from_file is Some ==> (r matches Ok(Some(d)) && d@ == (from_file->Some_0@, false)),
{
    match (inline, from_file) {
        (Some(v), None) => Ok(Some(SecretData { data: v, encrypted: false })),
        (None, Some(v)) => Ok(Some(SecretData { data: v, encrypted: false })),
        (Some(_), Some(_)) => Err(AddSecretError::PublicTwice),
        (None, None) => Ok(None),
    }
}

/// Puts a part into a secret being added by hand; an existing part of that name is
/// replaced only where `replace` was asked for.
fn add_part(
    parts: &mut SecretParts,
    name: String,
    raw: SecretData,
    replace: bool,
) -> (r: Result<(), AddSecretError>)
    ensures
        r is Ok <==> (replace || !old(parts)@.dom().contains(name@)),
        r matches Err(AddSecretError::PartAlreadyDefined(n)) ==> n@ == name@,
        r is Err ==> r matches Err(AddSecretError::PartAlreadyDefined(_)),
        final(parts)@ == old(parts)@.insert(name@, raw@),
{
    let n = name.clone();
    if parts.insert(name, raw) && !replace {
        return Err(AddSecretError::PartAlreadyDefined(n));
    }
    Ok(())
}

/// Adds a host secret by hand. An existing secret is kept and extended where
/// `merge` is asked for without `replace`, and started afresh otherwise; the private
/// part (already encrypted for the host) and the public part are put in, each
/// replacing a part of its name only where `replace` is asked for.
pub fn add_host_secret(
    existing: Option<FleetHostSecret>,
    replace: bool,
    merge: bool,
    private_part: Option<SecretPart>,
    public_part: Option<SecretPart>,
    now: Timestamp,
) -> (r: Result<FleetHostSecret, AddSecretError>)
    ensures
        ({
            let merging = merge && !replace;
            let base = if merging && existing is Some {
                existing->Some_0.secret.parts@
            } else {
                Map::<Seq<char>, (Seq<u8>, bool)>::empty()
            };
            let with_private = match private_part {
                Some(p) => base.insert(p.name@, p.raw@),
                None => base,
            };
            let all = match public_part {
                Some(p) => with_private.insert(p.name@, p.raw@),
                None => with_private,
            };
            if existing is Some && !replace && !merge {
                r matches Err(AddSecretError::AlreadyDefined)
            } else if existing is None && merging {
                r matches Err(AddSecretError::NothingToMerge)
            } else if merging && existing->Some_0.managed == Some(true) {
                r matches Err(AddSecretError::Managed)
            } else if !replace && private_part is Some && base.dom().contains(private_part->Some_0.name@) {
                (r matches Err(AddSecretError::PartAlreadyDefined(n)) && n@ == private_part->Some_0.name@)
            } else if !replace && public_part is Some && with_private.dom().contains(public_part->Some_0.name@) {
                (r matches Err(AddSecretError::PartAlreadyDefined(n)) && n@ == public_part->Some_0.name@)
            } else {
                (r matches Ok(s) && s.managed == Some(false) && s.secret.parts@ == all)
            }
        }),
{
    if existing.is_some() && !replace && !merge {
        return Err(AddSecretError::AlreadyDefined);
    }
    let mut out = if merge && !replace {
        match existing {
            Some(e) => e,
            None => {
                return Err(AddSecretError::NothingToMerge);
            },
        }
    } else {
        FleetHostSecret {
            managed: Some(false),
            secret: FleetSecretData {
                created_at: now,
                expires_at: None,
                parts: SecretParts::new(),
                generation_data: String::from_str("null"),
            },
        }
    };
    if out.managed == Some(true) {
        return Err(AddSecretError::Managed);
    }
    out.managed = Some(false);
    if let Some(p) = private_part {
        add_part(&mut out.secret.parts, p.name, p.raw, replace)?;
    }
    if let Some(p) = public_part {
        add_part(&mut out.secret.parts, p.name, p.raw, replace)?;
    }
    Ok(out)
}

/// The owners that a shared secret added by hand is encrypted for: those given, or,
/// when re-adding, the owners it already has.
pub fn shared_secret_owners(
    existing: Option<&FleetSharedSecret>,
    machines: NameSet,
    force: bool,
    re_add: bool,
) -> (r: Result<NameSet, AddSecretError>)
    ensures
        match existing {
            None => if re_add {
                r matches Err(AddSecretError::SecretMissing)
            } else {
                (r matches Ok(o) && o@ == machines@)
            },
            Some(e) => if !force && !re_add {
                r matches Err(AddSecretError::AlreadyDefined)
            } else if e.managed == Some(true) {
                r matches Err(AddSecretError::Managed)
            } else if re_add && force {
                r matches Err(AddSecretError::ForceWithReadd)
            } else if re_add && machines@ != Set::<Seq<char>>::empty() {
                r matches Err(AddSecretError::OwnersWithReadd)
            } else if re_add {
                (r matches Ok(o) && o@ == e.owners@)
            } else {
                (r matches Ok(o) && o@ == machines@)
            },
        },
{
    match existing {
        Some(old) => {
            if !force && !re_add {
                return Err(AddSecretError::AlreadyDefined);
            }
            if old.managed == Some(true) {
                return Err(AddSecretError::Managed);
            }
            if re_add {
                if force {
                    return Err(AddSecretError::ForceWithReadd);
                }
                if !machines.is_empty() {
                    return Err(AddSecretError::OwnersWithReadd);
                }
                return Ok(old.owners.clone_set());
            }
            Ok(machines)
        },
        None => {
            if re_add {
                return Err(AddSecretError::SecretMissing);
            }
            Ok(machines)
        },
    }
}

/// The host-secret passes of one host: secrets that its declaration flags as shared
/// are left to the shared passes, in all three.
#[derive(Debug)]
pub struct HostPassPlan {
    /// Declared, not shared, and not stored: to generate.
    pub generate: NameSet,
    /// Declared, not shared, and stored: to check.
    pub check: NameSet,
    /// Stored, not shared, and no longer declared: to remove.
    pub remove: NameSet,
}

/// Plans a host's passes from its declared secret names, those of them flagged as
/// shared, and its stored secret names.
pub fn plan_host_passes(declared: &NameSet, shared: &NameSet, stored: &NameSet) -> (r: HostPassPlan)
    ensures
        r.generate@ == declared@.difference(stored@).difference(shared@),
        r.check@ == stored@.intersect(declared@).difference(shared@),
        r.remove@ == stored@.difference(declared@).difference(shared@),
{
    let p = plan_passes(declared, stored);
    HostPassPlan {
        generate: p.missing.difference(shared),
        check: p.existing.difference(shared),
        remove: p.removed.difference(shared),
    }
}

/// The shared-secret passes.
#[derive(Debug)]
pub struct SharedPassPlan {
    /// Declared, managed and not stored: to generate.
    pub generate: NameSet,
    /// Declared by hand and not stored: skipped, never created automatically.
    pub skip: NameSet,
    /// Declared and stored: to check against the policy.
    pub check: NameSet,
    /// Stored and no longer declared: to remove.
    pub remove: NameSet,
}

/// Plans the shared passes from the declared names, those of them that are managed,
/// and the stored names.
pub fn plan_shared_passes(declared: &NameSet, managed: &NameSet, stored: &NameSet) -> (r: SharedPassPlan)
    ensures
        r.generate@ == declared@.difference(stored@).intersect(managed@),
        r.skip@ == declared@.difference(stored@).difference(managed@),
        r.check@ == stored@.intersect(declared@),
        r.remove@ == stored@.difference(declared@),
{
    let p = plan_passes(declared, stored);
    let skip = p.missing.difference(managed);
    let generate = p.missing.difference(&skip);
    assert(generate@ =~= declared@.difference(stored@).intersect(managed@));
    SharedPassPlan { generate, skip, check: p.existing, remove: p.removed }
}

/// A host secret as the generator made it: managed.
pub fn generated_host_secret(secret: FleetSecretData) -> (r: FleetHostSecret)
    ensures
        r.managed == Some(true),
        r.secret == secret,
{
    FleetHostSecret { managed: Some(true), secret }
}

/// A shared secret as the generator made it: managed, and owned by the expected owners.
pub fn generated_shared_secret(secret: FleetSecretData, expectations: &Expectations) -> (r: FleetSharedSecret)
    ensures
        r.managed == Some(true),
        r.owners@ == expectations.owners@,
        r.secret == secret,
{
    FleetSharedSecret { managed: Some(true), owners: expectations.owners.clone_set(), secret }
}

} // verus!
