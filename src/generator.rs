use vstd::prelude::*;

use crate::names::str_eq;
use crate::parts::{SecretPart, SecretParts};
use crate::secret::{
    Expectations, FleetSecretData, RegenerationReason, needs_regeneration_at, reason_view,
    regeneration_reason,
};
use crate::time::Timestamp;

verus! {

/// The type of a value of the configuration language.
#[derive(Clone, Copy, Debug, PartialEq, Eq, Structural)]
pub enum NixType {
    Thunk,
    Int,
    Float,
    Bool,
    String,
    Path,
    Null,
    Attrs,
    List,
    Function,
    External,
}

impl NixType {
    /// The type of the evaluator's type code.
    pub fn from_int(c: u32) -> (r: NixType)
        requires
            c <= 10,
        ensures
            c == 0 ==> r == NixType::Thunk,
            c == 1 ==> r == NixType::Int,
            c == 2 ==> r == NixType::Float,
            c == 3 ==> r == NixType::Bool,
            c == 4 ==> r == NixType::String,
            c == 5 ==> r == NixType::Path,
            c == 6 ==> r == NixType::Null,
            c == 7 ==> r == NixType::Attrs,
            c == 8 ==> r == NixType::List,
            c == 9 ==> r == NixType::Function,
            c == 10 ==> r == NixType::External,
    {
        match c {
            0 => NixType::Thunk,
            1 => NixType::Int,
            2 => NixType::Float,
            3 => NixType::Bool,
            4 => NixType::String,
            5 => NixType::Path,
            6 => NixType::Null,
            7 => NixType::Attrs,
            8 => NixType::List,
            9 => NixType::Function,
            _ => NixType::External,
        }
    }
}

/// The kind of error that the evaluator reports.
#[derive(Clone, Copy, Debug, PartialEq, Eq, Structural)]
pub enum NixErrorKind {
    Unknown,
    Overflow,
    Key,
    Generic,
}

impl NixErrorKind {
    /// The error of the evaluator's error code; `None` for success. An unexpected
    /// code counts as an unknown error.
    pub fn from_int(v: i32) -> (r: Option<NixErrorKind>)
        ensures
            v == 0 <==> r is None,
            v == -2 ==> r == Some(NixErrorKind::Overflow),
            v == -3 ==> r == Some(NixErrorKind::Key),
            v == -4 ==> r == Some(NixErrorKind::Generic),
            v != 0 && v != -2 && v != -3 && v != -4 ==> r == Some(NixErrorKind::Unknown),
    {
        match v {
            0 => None,
            -2 => Some(NixErrorKind::Overflow),
            -3 => Some(NixErrorKind::Key),
            -4 => Some(NixErrorKind::Generic),
            _ => Some(NixErrorKind::Unknown),
        }
    }
}

/// How a generator produces its secret.
#[derive(Clone, Copy, Debug, PartialEq, Eq, Structural)]
pub enum GeneratorKind {
    /// Runs a program that writes the parts as files.
    Impure,
    /// Evaluated within the configuration; not supported in this version.
    Pure,
}

/// Why a secret could not be generated.
#[derive(Debug)]
pub enum GenerateError {
    /// The declaration has no generator.
    NoGenerator,
    /// The generator is neither a function nor a record with `__functor`.
    NotFunctor(NixType),
    /// The generator's kind is neither `impure` nor `pure`.
    UnknownKind,
    /// Pure generators are not supported.
    PureUnsupported,
    /// The generator did not leave the success marker.
    NotSucceeded,
    /// The generated secret does not itself meet its expectations.
    StillNeedsRegeneration(RegenerationReason),
}

/// Checks that a generator, of type `ty`, can be called: a function, or a record that
/// holds `__functor` (which `has_functor` tells). Null means that there is none; any
/// other value is refused.
pub fn check_generator(ty: NixType, has_functor: bool) -> (r: Result<(), GenerateError>)
    ensures
        ty is Function || (ty is Attrs && has_functor) <==> r is Ok,
        ty is Null <==> r matches Err(GenerateError::NoGenerator),
        r is Err && !(ty is Null) ==> r == Err::<(), _>(GenerateError::NotFunctor(ty)),
{
    match ty {
        NixType::Null => Err(GenerateError::NoGenerator),
        NixType::Function => Ok(()),
        NixType::Attrs => if has_functor {
            Ok(())
        } else {
            Err(GenerateError::NotFunctor(ty))
        },
        _ => Err(GenerateError::NotFunctor(ty)),
    }
}

/// Reads a generator kind as the configuration writes it.
pub fn parse_generator_kind(s: &str) -> (r: Result<GeneratorKind, GenerateError>)
    ensures
        s@ == "impure"@ <==> r matches Ok(GeneratorKind::Impure),
        s@ == "pure"@ <==> r matches Ok(GeneratorKind::Pure),
        r is Err ==> r matches Err(GenerateError::UnknownKind),
{
    proof {
        reveal_strlit("impure");
        reveal_strlit("pure");
        assert("impure"@.len() != "pure"@.len());
    }
    if str_eq(s, "impure") {
        Ok(GeneratorKind::Impure)
    } else if str_eq(s, "pure") {
        Ok(GeneratorKind::Pure)
    } else {
        Err(GenerateError::UnknownKind)
    }
}

/// Only impure generators can run; a pure one is refused.
pub fn check_generator_kind(kind: GeneratorKind) -> (r: Result<(), GenerateError>)
    ensures
        kind is Impure <==> r is Ok,
        r is Err ==> r matches Err(GenerateError::PureUnsupported),
{
    match kind {
        GeneratorKind::Impure => Ok(()),
        GeneratorKind::Pure => Err(GenerateError::PureUnsupported),
    }
}

/// The content that the success marker file must hold.
pub open spec fn success_token() -> Seq<char> {
    "SUCCESS"@
}

/// Checks the marker file that a generator writes when it succeeds.
pub fn check_marker(marker: &str) -> (r: Result<(), GenerateError>)
    ensures
        marker@ == success_token() <==> r is Ok,
        r is Err ==> r matches Err(GenerateError::NotSucceeded),
{
    if str_eq(marker, "SUCCESS") {
        Ok(())
    } else {
        Err(GenerateError::NotSucceeded)
    }
}

/// Output files that are not parts of the secret.
pub open spec fn is_reserved(name: Seq<char>) -> bool {
    name == "created_at"@ || name == "expires_at"@ || name == "marker"@
}

/// Whether an output file is one of the files that are not parts.
pub fn is_reserved_output(name: &str) -> (r: bool)
    ensures
        r == is_reserved(name@),
{
    str_eq(name, "created_at") || str_eq(name, "expires_at") || str_eq(name, "marker")
}

/// The parts that the output files give: each file that is not reserved, by its name;
/// a later file of the same name wins.
pub open spec fn output_parts(files: Seq<SecretPart>) -> Map<Seq<char>, (Seq<u8>, bool)>
    decreases files.len(),
{
    if files.len() == 0 {
        Map::empty()
    } else {
        let rest = output_parts(files.drop_last());
        let f = files.last();
        if is_reserved(f.name@) {
            rest
        } else {
            rest.insert(f.name@, f.raw@)
        }
    }
}

/// Gathers the parts from a generator's output files.
pub fn collect_parts(files: Vec<SecretPart>) -> (r: SecretParts)
    ensures
        r@ == output_parts(files@),
{
    let mut parts = SecretParts::new();
    let n = files.len();
    let mut rest = files;
    let ghost all = rest@;
    let mut i: usize = 0;
    assert(all.take(0) =~= Seq::<SecretPart>::empty());
    while i < n
        invariant
            n == all.len(),
            i <= n,
            rest@ == all.skip(i as int),
            parts@ == output_parts(all.take(i as int)),
        decreases n - i,
    {
        let f = rest.remove(0);
        proof {
            assert(f == all[i as int]);
            assert(rest@ =~= all.skip(i + 1));
            assert(all.take(i + 1).drop_last() =~= all.take(i as int));
            assert(all.take(i + 1).last() == f);
        }
        if !is_reserved_output(f.name.as_str()) {
            parts.insert(f.name, f.raw);
        }
        i = i + 1;
    }
    assert(all.take(i as int) =~= all);
    parts
}

/// Assembles a freshly generated secret from the generator's output, with the
/// fingerprint that the expectations hold, and refuses it where it would itself need
/// to be regenerated at `now`.
pub fn finish_generation(
    created_at: Timestamp,
    expires_at: Option<Timestamp>,
    files: Vec<SecretPart>,
    expectations: &Expectations,
    now: Timestamp,
) -> (r: Result<FleetSecretData, GenerateError>)
    ensures
        match r {
            Ok(d) => {
                &&& d.created_at == created_at
                &&& d.expires_at == expires_at
                &&& d.parts@ == output_parts(files@)
                &&& d.generation_data@ == expectations.generation_data@
                &&& regeneration_reason(&d, expectations.owners@, expectations, now) is None
            },
            Err(GenerateError::StillNeedsRegeneration(reason)) => exists|d: FleetSecretData|
                {
                    &&& d.created_at == created_at
                    &&& d.expires_at == expires_at
                    &&& d.parts@ == output_parts(files@)
                    &&& d.generation_data@ == expectations.generation_data@
                    &&& regeneration_reason(&d, expectations.owners@, expectations, now)
                        == Some(reason@)
                },
            Err(_) => false,
        },
{
    let data = FleetSecretData {
        created_at,
        expires_at,
        parts: collect_parts(files),
        generation_data: expectations.generation_data.clone(),
    };
    match needs_regeneration_at(&data, &expectations.owners, expectations, now) {
        Some(reason) => {
            assert(reason_view(Some(reason)) == Some(reason@));
            Err(GenerateError::StillNeedsRegeneration(reason))
        },
        None => Ok(data),
    }
}

/// How a value of the configuration language is called.
#[derive(Clone, Copy, Debug, PartialEq, Eq, Structural)]
pub enum FunctorKind {
    /// A function, called directly.
    Function,
    /// A record whose `__functor` field is called.
    Functor,
}

/// How a value of type `ty` is called, where it can be: a function directly, and a
/// record through its `__functor` (which `has_functor` tells).
pub fn functor_kind(ty: NixType, has_functor: bool) -> (r: Option<FunctorKind>)
    ensures
        ty is Function ==> r == Some(FunctorKind::Function),
        ty is Attrs ==> r == (if has_functor { Some(FunctorKind::Functor) } else { None }),
        !(ty is Function) && !(ty is Attrs) ==> r is None,
{
    match ty {
        NixType::Attrs => if has_functor {
            Some(FunctorKind::Functor)
        } else {
            None
        },
        NixType::Function => Some(FunctorKind::Function),
        _ => None,
    }
}

/// Whether a value of type `ty` can be called.
pub fn is_function(ty: NixType, has_functor: bool) -> (r: bool)
    ensures
        r == (ty is Function || (ty is Attrs && has_functor)),
{
    functor_kind(ty, has_functor).is_some()
}

} // verus!
