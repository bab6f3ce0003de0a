use vstd::prelude::*;

use crate::names::{NameSet, names_of};
use crate::secret::Expectations;

verus! {

/// A part that a host secret declares, and whether it is encrypted.
#[derive(Debug)]
pub struct PartDeclaration {
    pub name: String,
    pub encrypted: bool,
}

/// What the configuration declares of a host's secret.
#[derive(Debug)]
pub struct HostSecretDeclaration {
    /// A generator is set (not null).
    pub has_generator: bool,
    /// The secret is one of the shared secrets, reconciled once for all hosts.
    pub shared: bool,
    pub parts: Vec<PartDeclaration>,
    /// Fingerprint of the declaration's inputs, as JSON text.
    pub expected_generation_data: String,
}

/// A host's secret declaration, with the name of its host.
#[derive(Debug)]
pub struct HostSecretDefinition(pub String, pub HostSecretDeclaration);

/// The names of the declared parts whose encryption flag is `encrypted`.
pub open spec fn declared_parts(parts: Seq<PartDeclaration>, encrypted: bool) -> Set<Seq<char>> {
    Set::new(|n: Seq<char>| exists|i: int| 0 <= i < parts.len() && parts[i].name@ == n && parts[i].encrypted == encrypted)
}

/// The names of the first `n` declared parts whose encryption flag is `encrypted`.
pub open spec fn declared_prefix(parts: Seq<PartDeclaration>, n: int, encrypted: bool) -> Set<Seq<char>> {
    Set::new(|m: Seq<char>| exists|i: int| 0 <= i < n && #[trigger] parts[i].name@ == m && parts[i].encrypted == encrypted)
}

fn collect_declared(parts: &Vec<PartDeclaration>, encrypted: bool) -> (r: NameSet)
    ensures
        r@ == declared_parts(parts@, encrypted),
{
    let mut r = NameSet::new();
    let mut i: usize = 0;
    assert(declared_prefix(parts@, 0, encrypted) =~= Set::<Seq<char>>::empty());
    while i < parts.len()
        invariant
            i <= parts@.len(),
            r@ == declared_prefix(parts@, i as int, encrypted),
        decreases parts@.len() - i,
    {
        if parts[i].encrypted == encrypted {
            r.insert(parts[i].name.clone());
        }
        proof {
            let a = declared_prefix(parts@, i + 1, encrypted);
            let b = declared_prefix(parts@, i as int, encrypted);
            assert forall|n: Seq<char>| a.contains(n) <==> r@.contains(n) by {
                if a.contains(n) {
                    let k = choose|k: int| 0 <= k < i + 1 && #[trigger] parts@[k].name@ == n && parts@[k].encrypted == encrypted;
                    if k < i {
                        assert(b.contains(n));
                    }
                }
                if b.contains(n) {
                    let k = choose|k: int| 0 <= k < i && #[trigger] parts@[k].name@ == n && parts@[k].encrypted == encrypted;
                    assert(a.contains(n));
                }
            }
            assert(a =~= r@);
        }
        i = i + 1;
    }
    assert(declared_prefix(parts@, i as int, encrypted) =~= declared_parts(parts@, encrypted));
    r
}

impl HostSecretDefinition {
    /// Managed secrets are made by a generator.
    pub fn is_managed(&self) -> (r: bool)
        ensures
            r == self.1.has_generator,
    {
        self.1.has_generator
    }

    pub fn is_shared(&self) -> (r: bool)
        ensures
            r == self.1.shared,
    {
        self.1.shared
    }

    /// The host is the one owner; each declared part is expected public or private by
    /// its encryption flag.
    pub fn expectations(&self) -> (r: Expectations)
        ensures
            r.owners@ == Set::<Seq<char>>::empty().insert(self.0@),
            r.generation_data@ == self.1.expected_generation_data@,
            r.public_parts@ == declared_parts(self.1.parts@, false),
            r.private_parts@ == declared_parts(self.1.parts@, true),
    {
        let mut owners = NameSet::new();
        owners.insert(self.0.clone());
        Expectations {
            owners,
            generation_data: self.1.expected_generation_data.clone(),
            public_parts: collect_declared(&self.1.parts, false),
            private_parts: collect_declared(&self.1.parts, true),
        }
    }

    pub fn definition_value(&self) -> (r: &HostSecretDeclaration)
        ensures
            r == &self.1,
    {
        &self.1
    }
}

/// What the configuration declares of a shared secret.
#[derive(Debug)]
pub struct SharedSecretDeclaration {
    /// A generator is set (not null).
    pub has_generator: bool,
    pub expected_owners: Vec<String>,
    /// Fingerprint of the declaration's inputs, as JSON text.
    pub expected_generation_data: String,
    pub expected_public_parts: Vec<String>,
    pub expected_private_parts: Vec<String>,
    /// An added owner makes the secret be regenerated, not only re-encrypted.
    pub regenerate_on_owner_added: bool,
    /// A removed owner makes the secret be regenerated.
    pub regenerate_on_owner_removed: bool,
}

/// A shared secret's declaration.
#[derive(Debug)]
pub struct SharedSecretDefinition(pub SharedSecretDeclaration);

impl SharedSecretDefinition {
    /// Managed secrets are made by a generator.
    pub fn is_managed(&self) -> (r: bool)
        ensures
            r == self.0.has_generator,
    {
        self.0.has_generator
    }

    pub fn expectations(&self) -> (r: Expectations)
        ensures
            r.owners@ == names_of(self.0.expected_owners@),
            r.generation_data@ == self.0.expected_generation_data@,
            r.public_parts@ == names_of(self.0.expected_public_parts@),
            r.private_parts@ == names_of(self.0.expected_private_parts@),
    {
        Expectations {
            owners: NameSet::from_vec(self.0.expected_owners.clone()),
            generation_data: self.0.expected_generation_data.clone(),
            public_parts: NameSet::from_vec(self.0.expected_public_parts.clone()),
            private_parts: NameSet::from_vec(self.0.expected_private_parts.clone()),
        }
    }

    pub fn definition_value(&self) -> (r: &SharedSecretDeclaration)
        ensures
            r == &self.0,
    {
        &self.0
    }
}

} // verus!
