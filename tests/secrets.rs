use fleet::declaration::{
    HostSecretDeclaration, HostSecretDefinition, PartDeclaration, SharedSecretDeclaration,
    SharedSecretDefinition,
};
use fleet::generator::{
    FunctorKind, functor_kind, is_function,
    GenerateError, GeneratorKind, NixErrorKind, NixType, check_generator, check_generator_kind,
    check_marker, collect_parts, finish_generation, is_reserved_output, parse_generator_kind,
};
use fleet::logging::{
    classify_result, ResultReport, ResultType, describe_activity, ends_with, starts_with, trim_end_matches, trim_start_matches,
    ActivityType, FieldValue, LogLevel, Verbosity, log_message, new_error_info, new_start_activity,
    parse_drv, parse_host, parse_path, strip_prefix_suffix,
};
use fleet::names::{NameSet, str_lt};
use fleet::parts::{SecretData, SecretPart, SecretParts};
use fleet::reconcile::{
    generated_host_secret, generated_shared_secret, plan_host_passes, plan_shared_passes,
    AddSecretError, add_host_secret, choose_public, plan_passes, shared_secret_owners,
    HostSecretAction, OwnerEditError, OwnerUpdate, SharedSecretAction, apply_reencryption,
    decide_host_secret, decide_shared_secret, encrypted_part_names, parse_machines,
    plan_owner_update, select_identity_holder, shared_secret_action,
};
use fleet::secret::{
    Expectations, FleetHostSecret, FleetSecretData, FleetSharedSecret, RegenerationReason,
    needs_regeneration_at, secret_needs_regeneration,
};
use fleet::time::Timestamp;

fn names(v: &[&str]) -> NameSet {
    NameSet::from_vec(v.iter().map(|s| s.to_string()).collect())
}

fn list(s: &NameSet) -> Vec<String> {
    s.as_vec().clone()
}

fn strings(v: &[&str]) -> Vec<String> {
    v.iter().map(|s| s.to_string()).collect()
}

fn data(bytes: &[u8], encrypted: bool) -> SecretData {
    SecretData { data: bytes.to_vec(), encrypted }
}

fn part(name: &str, bytes: &[u8], encrypted: bool) -> SecretPart {
    SecretPart { name: name.to_string(), raw: data(bytes, encrypted) }
}

fn at(secs: i64) -> Timestamp {
    Timestamp { secs, nanos: 0 }
}

fn expectations(owners: &[&str], generation: &str, public: &[&str], private: &[&str]) -> Expectations {
    Expectations {
        owners: names(owners),
        generation_data: generation.to_string(),
        public_parts: names(public),
        private_parts: names(private),
    }
}

fn stored(parts: Vec<SecretPart>, generation: &str, expires_at: Option<Timestamp>) -> FleetSecretData {
    let mut p = SecretParts::new();
    for x in parts {
        p.insert(x.name, x.raw);
    }
    FleetSecretData { created_at: at(0), expires_at, parts: p, generation_data: generation.to_string() }
}

fn standard_secret() -> FleetSecretData {
    stored(vec![part("secret", b"cipher", true), part("public", b"key", false)], "{\"v\":1}", None)
}

#[test]
fn name_set_orders_and_dedups() {
    let s = names(&["b", "a", "b", "ab"]);
    assert_eq!(list(&s), strings(&["a", "ab", "b"]));
    assert_eq!(s.len(), 3);
    assert_eq!(s.first().unwrap(), "a");
    assert!(s.contains("ab"));
    assert!(!s.contains("c"));
    let mut t = names(&["a"]);
    assert!(t.insert("c".to_string()));
    assert!(!t.insert("a".to_string()));
    assert!(t.remove("a"));
    assert!(!t.remove("a"));
    assert_eq!(list(&t), strings(&["c"]));
    assert_eq!(list(&s.difference(&names(&["a"]))), strings(&["ab", "b"]));
    assert_eq!(list(&s.union(&names(&["c"]))), strings(&["a", "ab", "b", "c"]));
    assert!(names(&[]).is_empty());
    assert!(str_lt("B", "a"));
    assert!(!str_lt("a", "a"));
}

#[test]
fn matching_secret_needs_nothing() {
    let e = expectations(&["a"], "{\"v\":1}", &["public"], &["secret"]);
    let s = standard_secret();
    assert!(needs_regeneration_at(&s, &names(&["a"]), &e, at(10)).is_none());
    assert!(needs_regeneration_at(&s, &names(&[]), &e, at(10)).is_none());
}

#[test]
fn owners_added_comes_before_generation_data() {
    let e = expectations(&["a", "b"], "{\"v\":2}", &["public"], &["secret"]);
    let s = standard_secret();
    match needs_regeneration_at(&s, &names(&["a"]), &e, at(10)) {
        Some(RegenerationReason::OwnersAdded(added)) => assert_eq!(list(&added), strings(&["b"])),
        other => panic!("unexpected {other:?}"),
    }
}

#[test]
fn each_regeneration_reason() {
    let s = standard_secret();
    let e = expectations(&["a"], "{\"v\":1}", &["public"], &["secret"]);
    match needs_regeneration_at(&s, &names(&["a", "c"]), &e, at(10)) {
        Some(RegenerationReason::OwnersRemoved(removed)) => assert_eq!(list(&removed), strings(&["c"])),
        other => panic!("unexpected {other:?}"),
    }
    let e = expectations(&["a"], "{\"v\":2}", &["public"], &["secret"]);
    match needs_regeneration_at(&s, &names(&["a"]), &e, at(10)) {
        Some(RegenerationReason::GenerationData { expected, found }) => {
            assert_eq!(expected, "{\"v\":2}");
            assert_eq!(found, "{\"v\":1}");
        },
        other => panic!("unexpected {other:?}"),
    }
    let e = expectations(&["a"], "{\"v\":1}", &["public"], &["secret", "extra"]);
    match needs_regeneration_at(&s, &names(&["a"]), &e, at(10)) {
        Some(RegenerationReason::PartList { expected, found }) => {
            assert_eq!(list(&expected), strings(&["extra", "public", "secret"]));
            assert_eq!(list(&found), strings(&["public", "secret"]));
        },
        other => panic!("unexpected {other:?}"),
    }
    let e = expectations(&["a"], "{\"v\":1}", &["secret"], &["public"]);
    match needs_regeneration_at(&s, &names(&["a"]), &e, at(10)) {
        Some(RegenerationReason::ExpectedPublic(n)) => assert_eq!(n, "public"),
        other => panic!("unexpected {other:?}"),
    }
    let e = expectations(&["a"], "{\"v\":1}", &["public", "secret"], &[]);
    match needs_regeneration_at(&s, &names(&["a"]), &e, at(10)) {
        Some(RegenerationReason::ExpectedPrivate(n)) => assert_eq!(n, "secret"),
        other => panic!("unexpected {other:?}"),
    }
    let e = expectations(&["a"], "{\"v\":1}", &["public"], &["secret"]);
    let expiring = stored(vec![part("secret", b"c", true), part("public", b"k", false)], "{\"v\":1}", Some(at(100)));
    assert!(needs_regeneration_at(&expiring, &names(&["a"]), &e, at(100)).is_none());
    match needs_regeneration_at(&expiring, &names(&["a"]), &e, Timestamp { secs: 100, nanos: 1 }) {
        Some(RegenerationReason::Expired(t)) => assert_eq!(t, at(100)),
        other => panic!("unexpected {other:?}"),
    }
}

#[test]
fn part_checks_skipped_without_expected_parts() {
    let s = standard_secret();
    let e = expectations(&["a"], "{\"v\":1}", &[], &[]);
    assert!(needs_regeneration_at(&s, &names(&["a"]), &e, at(10)).is_none());
}

#[test]
fn expiry_against_the_clock() {
    let e = expectations(&["a"], "{\"v\":1}", &["public"], &["secret"]);
    let expired = stored(vec![part("secret", b"c", true), part("public", b"k", false)], "{\"v\":1}", Some(at(1)));
    assert!(matches!(secret_needs_regeneration(&expired, &names(&["a"]), &e), Some(RegenerationReason::Expired(_))));
    let fresh = stored(vec![part("secret", b"c", true), part("public", b"k", false)], "{\"v\":1}", Some(at(i64::MAX)));
    assert!(secret_needs_regeneration(&fresh, &names(&["a"]), &e).is_none());
}

fn shared(owners: &[&str]) -> FleetSharedSecret {
    FleetSharedSecret { managed: Some(true), owners: names(owners), secret: standard_secret() }
}

#[test]
fn added_owner_regenerates_when_asked() {
    let e = expectations(&["a", "b"], "{\"v\":1}", &["public"], &["secret"]);
    assert_eq!(decide_shared_secret(&shared(&["a"]), &e, true, false, at(10)), SharedSecretAction::Regenerate);
}

#[test]
fn added_owner_reencrypts_otherwise() {
    let e = expectations(&["a", "b"], "{\"v\":1}", &["public"], &["secret"]);
    let mut secret = shared(&["a"]);
    assert_eq!(decide_shared_secret(&secret, &e, false, false, at(10)), SharedSecretAction::Reencrypt);
    let holder = select_identity_holder(&Vec::new(), &secret.owners).unwrap();
    assert_eq!(holder, "a");
    let to_wrap = encrypted_part_names(&secret.secret.parts);
    assert_eq!(to_wrap, strings(&["secret"]));
    let rewrapped: Vec<SecretPart> = to_wrap.iter().map(|n| part(n, b"cipher-for-a-b", true)).collect();
    apply_reencryption(&mut secret, rewrapped, &e.owners);
    assert_eq!(list(&secret.owners), strings(&["a", "b"]));
    assert_eq!(secret.secret.parts.get("secret").unwrap().data, b"cipher-for-a-b".to_vec());
    assert_eq!(secret.secret.parts.get("public").unwrap().data, b"key".to_vec());
    assert!(!secret.secret.parts.get("public").unwrap().encrypted);
    assert_eq!(decide_shared_secret(&secret, &e, false, false, at(10)), SharedSecretAction::Keep);
}

#[test]
fn reencryption_ignores_unencrypted_parts() {
    let mut secret = shared(&["a"]);
    apply_reencryption(&mut secret, vec![part("public", b"other", true)], &names(&["a", "b"]));
    assert_eq!(secret.secret.parts.get("public").unwrap().data, b"key".to_vec());
    assert!(!secret.secret.parts.get("public").unwrap().encrypted);
}

#[test]
fn removed_owner_policy() {
    let e = expectations(&["a"], "{\"v\":1}", &["public"], &["secret"]);
    assert_eq!(decide_shared_secret(&shared(&["a", "b"]), &e, false, false, at(10)), SharedSecretAction::Keep);
    assert_eq!(decide_shared_secret(&shared(&["a", "b"]), &e, false, true, at(10)), SharedSecretAction::Regenerate);
    assert_eq!(shared_secret_action(&None, true, true), SharedSecretAction::Keep);
    let reason = Some(RegenerationReason::ExpectedPublic("x".to_string()));
    assert_eq!(shared_secret_action(&reason, false, false), SharedSecretAction::Regenerate);
}

#[test]
fn identity_holder_prefers_listed_owner() {
    let owners = names(&["b", "c"]);
    assert_eq!(select_identity_holder(&strings(&["a", "c", "b"]), &owners), Some("c".to_string()));
    assert_eq!(select_identity_holder(&strings(&["a"]), &owners), None);
    assert_eq!(select_identity_holder(&Vec::new(), &owners), Some("b".to_string()));
    assert_eq!(select_identity_holder(&Vec::new(), &names(&[])), None);
}

#[test]
fn owner_edit_refuses_full_list_with_additions() {
    let secret = shared(&["a"]);
    let r = plan_owner_update(&secret, Some(strings(&["a", "b"])), strings(&["c"]), Vec::new());
    assert!(matches!(r, Err(OwnerEditError::ConflictingOptions)));
    assert_eq!(list(&secret.owners), strings(&["a"]));
    let r = parse_machines(names(&["a"]), Some(strings(&["a"])), Vec::new(), strings(&["a"]));
    assert!(matches!(r, Err(OwnerEditError::ConflictingOptions)));
}

#[test]
fn owner_edits() {
    let r = parse_machines(names(&["a", "b"]), None, Vec::new(), Vec::new());
    assert!(matches!(r, Err(OwnerEditError::NoOperation)));
    let r = parse_machines(names(&["a", "b"]), Some(strings(&["b", "c"])), Vec::new(), Vec::new()).unwrap();
    assert_eq!(list(&r), strings(&["b", "c"]));
    let r = parse_machines(names(&["a", "b"]), None, strings(&["c", "a"]), strings(&["b", "x"])).unwrap();
    assert_eq!(list(&r), strings(&["a", "c"]));
    let r = parse_machines(names(&["a"]), None, strings(&["a"]), strings(&["a"])).unwrap();
    assert_eq!(list(&r), strings(&["a"]));
}

#[test]
fn owner_edit_to_nobody_removes_secret() {
    let secret = shared(&["a"]);
    let r = plan_owner_update(&secret, None, Vec::new(), strings(&["a"]));
    assert!(matches!(r, Ok(OwnerUpdate::Remove)));
    match plan_owner_update(&secret, None, strings(&["b"]), Vec::new()) {
        Ok(OwnerUpdate::Update(owners)) => assert_eq!(list(&owners), strings(&["a", "b"])),
        other => panic!("unexpected {other:?}"),
    }
    let public_only = FleetSharedSecret {
        managed: Some(false),
        owners: names(&["a"]),
        secret: stored(vec![part("public", b"k", false)], "null", None),
    };
    assert!(matches!(plan_owner_update(&public_only, None, strings(&["b"]), Vec::new()), Err(OwnerEditError::NoEncryptedPart)));
}

#[test]
fn host_secret_passes() {
    let e = expectations(&["h"], "{\"v\":1}", &["public"], &["secret"]);
    let host_secret = FleetHostSecret { managed: Some(true), secret: standard_secret() };
    assert_eq!(decide_host_secret(None, Some(&e), at(1)), HostSecretAction::Generate);
    assert_eq!(decide_host_secret(Some(&host_secret), Some(&e), at(1)), HostSecretAction::Keep);
    assert_eq!(decide_host_secret(Some(&host_secret), None, at(1)), HostSecretAction::Remove);
    assert_eq!(decide_host_secret(None, None, at(1)), HostSecretAction::Keep);
    let stale = expectations(&["h"], "{\"v\":2}", &["public"], &["secret"]);
    assert_eq!(decide_host_secret(Some(&host_secret), Some(&stale), at(1)), HostSecretAction::Regenerate);
}

#[test]
fn second_pass_does_nothing() {
    let e = expectations(&["h"], "{\"v\":3}", &["public"], &["secret"]);
    assert_eq!(decide_host_secret(None, Some(&e), at(5)), HostSecretAction::Generate);
    let generated = finish_generation(
        at(5),
        None,
        vec![part("marker", b"SUCCESS", false), part("secret", b"s", true), part("public", b"p", false), part("created_at", b"0", false)],
        &e,
        at(5),
    )
    .unwrap();
    let host_secret = FleetHostSecret { managed: Some(true), secret: generated };
    assert_eq!(decide_host_secret(Some(&host_secret), Some(&e), at(5)), HostSecretAction::Keep);
}

#[test]
fn generated_secret_meets_its_expectations() {
    let e = expectations(&["a", "b"], "{\"seed\":7}", &["public"], &["secret"]);
    let generated = finish_generation(at(1), Some(at(1000)), vec![part("secret", b"s", true), part("public", b"p", false)], &e, at(2)).unwrap();
    assert_eq!(generated.generation_data, "{\"seed\":7}");
    assert_eq!(generated.expires_at, Some(at(1000)));
    assert!(needs_regeneration_at(&generated, &e.owners, &e, at(2)).is_none());
}

#[test]
fn generated_secret_of_wrong_shape_is_refused() {
    let e = expectations(&["a"], "{}", &["public"], &["secret"]);
    let r = finish_generation(at(1), None, vec![part("secret", b"s", false), part("public", b"p", false)], &e, at(2));
    assert!(matches!(r, Err(GenerateError::StillNeedsRegeneration(RegenerationReason::ExpectedPublic(n))) if n == "secret"));
    let r = finish_generation(at(1), Some(at(1)), vec![part("secret", b"s", true), part("public", b"p", false)], &e, at(2));
    assert!(matches!(r, Err(GenerateError::StillNeedsRegeneration(RegenerationReason::Expired(_)))));
}

#[test]
fn generator_output_files() {
    assert!(check_marker("SUCCESS").is_ok());
    assert!(matches!(check_marker("FAILED"), Err(GenerateError::NotSucceeded)));
    assert!(matches!(check_marker("SUCCESS\n"), Err(GenerateError::NotSucceeded)));
    assert!(is_reserved_output("created_at"));
    assert!(is_reserved_output("expires_at"));
    assert!(is_reserved_output("marker"));
    assert!(!is_reserved_output("secret"));
    let parts = collect_parts(vec![part("marker", b"SUCCESS", false), part("a", b"1", true), part("a", b"2", false)]);
    assert_eq!(parts.len(), 1);
    assert_eq!(parts.get("a").unwrap().data, b"2".to_vec());
    assert!(parts.get("marker").is_none());
}

#[test]
fn generator_checks() {
    assert!(matches!(check_generator(NixType::Null, false), Err(GenerateError::NoGenerator)));
    assert!(matches!(check_generator(NixType::Attrs, false), Err(GenerateError::NotFunctor(NixType::Attrs))));
    assert!(check_generator(NixType::Function, false).is_ok());
    assert!(check_generator(NixType::Attrs, true).is_ok());
    assert!(matches!(check_generator(NixType::Int, false), Err(GenerateError::NotFunctor(NixType::Int))));
    assert!(matches!(check_generator(NixType::String, true), Err(GenerateError::NotFunctor(NixType::String))));
    assert!(matches!(parse_generator_kind("impure"), Ok(GeneratorKind::Impure)));
    assert!(matches!(parse_generator_kind("pure"), Ok(GeneratorKind::Pure)));
    assert!(matches!(parse_generator_kind("other"), Err(GenerateError::UnknownKind)));
    assert!(check_generator_kind(GeneratorKind::Impure).is_ok());
    assert!(matches!(check_generator_kind(GeneratorKind::Pure), Err(GenerateError::PureUnsupported)));
    assert_eq!(NixType::from_int(7), NixType::Attrs);
    assert_eq!(NixType::from_int(0), NixType::Thunk);
    assert_eq!(NixType::from_int(10), NixType::External);
    assert_eq!(NixErrorKind::from_int(0), None);
    assert_eq!(NixErrorKind::from_int(-3), Some(NixErrorKind::Key));
    assert_eq!(NixErrorKind::from_int(-1), Some(NixErrorKind::Unknown));
    assert_eq!(NixErrorKind::from_int(-9), Some(NixErrorKind::Unknown));
}

#[test]
fn declarations_give_expectations() {
    let host = HostSecretDefinition(
        "web".to_string(),
        HostSecretDeclaration {
            has_generator: true,
            shared: false,
            parts: vec![
                PartDeclaration { name: "key".to_string(), encrypted: true },
                PartDeclaration { name: "cert".to_string(), encrypted: false },
            ],
            expected_generation_data: "null".to_string(),
        },
    );
    assert!(host.is_managed());
    assert!(!host.is_shared());
    let e = host.expectations();
    assert_eq!(list(&e.owners), strings(&["web"]));
    assert_eq!(list(&e.private_parts), strings(&["key"]));
    assert_eq!(list(&e.public_parts), strings(&["cert"]));
    assert_eq!(host.definition_value().parts.len(), 2);

    let shared = SharedSecretDefinition(SharedSecretDeclaration {
        has_generator: false,
        expected_owners: strings(&["b", "a"]),
        expected_generation_data: "1".to_string(),
        expected_public_parts: strings(&["pub"]),
        expected_private_parts: strings(&["priv"]),
        regenerate_on_owner_added: true,
        regenerate_on_owner_removed: false,
    });
    assert!(!shared.is_managed());
    let e = shared.expectations();
    assert_eq!(list(&e.owners), strings(&["a", "b"]));
    assert_eq!(e.generation_data, "1");
    assert!(shared.definition_value().regenerate_on_owner_added);
}

#[test]
fn evaluator_log_details() {
    assert_eq!(Verbosity::from_int(2), Verbosity::Notice);
    assert_eq!(Verbosity::from_int(42), Verbosity::Vomit);
    assert_eq!(Verbosity::Notice.level(), LogLevel::Warn);
    assert_eq!(Verbosity::Chatty.level(), LogLevel::Debug);
    assert_eq!(ActivityType::from_int(105), ActivityType::Build);
    assert_eq!(ActivityType::from_int(7), ActivityType::Unknown);
    assert_eq!(ActivityType::from_int(108).name(), "nix::substitute");
    assert_eq!(parse_host(""), "local");
    assert_eq!(parse_host("local"), "local");
    assert_eq!(parse_host("https://cache.nixos.org"), "cache.nixos.org");
    assert_eq!(parse_host("ssh://builder"), "ssh://builder");
    assert_eq!(parse_path("\x1b[35;1m/nix/store/x\x1b[0m"), "/nix/store/x");
    assert_eq!(parse_path("/nix/store/x"), "/nix/store/x");
    assert_eq!(strip_prefix_suffix("<a>", "<", ">"), Some("a".to_string()));
    assert_eq!(strip_prefix_suffix("<", "<", ">"), None);
}

#[test]
fn error_info_lines() {
    let mut info = new_error_info(0, b"boom \xff");
    assert_eq!(info.level, LogLevel::Error);
    assert_eq!(info.msg, "boom \u{fffd}");
    info.push_stack_frame(b"while evaluating", b"/a.nix:1:2");
    assert_eq!(info.stack_frames[0].pos, "/a.nix:1:2");
    assert_eq!(info.error_lines(), strings(&["boom \u{fffd}", "  while evaluating at /a.nix:1:2"]));
}

#[test]
fn passes_split_names() {
    let plan = plan_passes(&names(&["a", "b", "c"]), &names(&["b", "c", "d"]));
    assert_eq!(list(&plan.missing), strings(&["a"]));
    assert_eq!(list(&plan.existing), strings(&["b", "c"]));
    assert_eq!(list(&plan.removed), strings(&["d"]));
}

#[test]
fn adding_host_secrets_by_hand() {
    let existing = || FleetHostSecret { managed: Some(false), secret: standard_secret() };
    let r = add_host_secret(Some(existing()), false, false, Some(part("secret", b"x", true)), None, at(1));
    assert!(matches!(r, Err(AddSecretError::AlreadyDefined)));
    let r = add_host_secret(Some(existing()), false, true, Some(part("secret", b"x", true)), None, at(1));
    assert!(matches!(r, Err(AddSecretError::PartAlreadyDefined(n)) if n == "secret"));
    let r = add_host_secret(Some(existing()), false, true, Some(part("other", b"x", true)), None, at(1)).unwrap();
    assert_eq!(r.secret.parts.len(), 3);
    let r = add_host_secret(Some(existing()), true, false, Some(part("secret", b"x", true)), Some(part("public", b"p", false)), at(1)).unwrap();
    assert_eq!(r.secret.parts.len(), 2);
    assert_eq!(r.secret.parts.get("secret").unwrap().data, b"x".to_vec());
    assert_eq!(r.managed, Some(false));
    let managed = FleetHostSecret { managed: Some(true), secret: standard_secret() };
    assert!(matches!(add_host_secret(Some(managed), false, true, None, None, at(1)), Err(AddSecretError::Managed)));
    assert!(matches!(add_host_secret(None, false, true, None, None, at(1)), Err(AddSecretError::NothingToMerge)));
    let r = add_host_secret(None, false, false, None, Some(part("public", b"p", false)), at(7)).unwrap();
    assert_eq!(r.secret.created_at, at(7));
    assert_eq!(r.secret.generation_data, "null");
    assert!(matches!(choose_public(Some(b"a".to_vec()), Some(b"b".to_vec())), Err(AddSecretError::PublicTwice)));
    assert!(matches!(choose_public(None, None), Ok(None)));
    let p = choose_public(None, Some(b"f".to_vec())).unwrap().unwrap();
    assert_eq!(p.data, b"f".to_vec());
    assert!(!p.encrypted);
}

#[test]
fn adding_shared_secrets_by_hand() {
    let old = FleetSharedSecret { managed: Some(false), owners: names(&["a", "b"]), secret: standard_secret() };
    assert!(matches!(shared_secret_owners(Some(&old), names(&["c"]), false, false), Err(AddSecretError::AlreadyDefined)));
    assert_eq!(list(&shared_secret_owners(Some(&old), names(&["c"]), true, false).unwrap()), strings(&["c"]));
    assert_eq!(list(&shared_secret_owners(Some(&old), names(&[]), false, true).unwrap()), strings(&["a", "b"]));
    assert!(matches!(shared_secret_owners(Some(&old), names(&[]), true, true), Err(AddSecretError::ForceWithReadd)));
    assert!(matches!(shared_secret_owners(Some(&old), names(&["c"]), false, true), Err(AddSecretError::OwnersWithReadd)));
    assert!(matches!(shared_secret_owners(None, names(&[]), false, true), Err(AddSecretError::SecretMissing)));
    assert_eq!(list(&shared_secret_owners(None, names(&["x"]), false, false).unwrap()), strings(&["x"]));
    let managed = FleetSharedSecret { managed: Some(true), owners: names(&["a"]), secret: standard_secret() };
    assert!(matches!(shared_secret_owners(Some(&managed), names(&["c"]), true, false), Err(AddSecretError::Managed)));
}

#[test]
fn evaluator_activities() {
    assert_eq!(parse_drv("/nix/store/abc123-hello-2.12"), "hello-2.12");
    assert_eq!(parse_drv("\x1b[35;1m/nix/store/abc-pkg\x1b[0m"), "pkg");
    assert_eq!(parse_drv("/nix/store/nodash"), "/nix/store/nodash");
    assert_eq!(parse_drv("/tmp/x-y"), "/tmp/x-y");
    let mut b = new_start_activity(9, 3, 105);
    assert_eq!(b.verbosity, Verbosity::Info);
    assert_eq!(b.typ, ActivityType::Build);
    b.add_string_field(b"/nix/store/a-b");
    b.add_int_field(4);
    assert!(matches!(&b.fields[0], FieldValue::Str(s) if s == "/nix/store/a-b"));
    assert!(matches!(b.fields[1], FieldValue::Int(4)));
    assert_eq!(log_message(1, b"careful"), (LogLevel::Warn, "careful".to_string()));
}

#[test]
fn activity_descriptions() {
    let d = describe_activity(
        ActivityType::Substitute,
        &vec![FieldValue::Str("/nix/store/h-pkg".to_string()), FieldValue::Str("https://cache.nixos.org".to_string())],
        "",
    )
    .unwrap();
    assert_eq!((d.target, d.label, d.level), ("nix::substitute", "substituting", LogLevel::Debug));
    assert_eq!(d.fields, vec![("drv", "pkg".to_string()), ("host", "cache.nixos.org".to_string())]);
    let d = describe_activity(
        ActivityType::Build,
        &vec![FieldValue::Str("/nix/store/h-sys".to_string()), FieldValue::Str("".to_string()), FieldValue::Int(1), FieldValue::Int(2)],
        "",
    )
    .unwrap();
    assert_eq!((d.target, d.label, d.level), ("nix::build", "building", LogLevel::Info));
    assert_eq!(d.fields, vec![("drv", "sys".to_string()), ("host", "local".to_string())]);
    let d = describe_activity(ActivityType::Unknown, &Vec::new(), "copying '/src' to the store").unwrap();
    assert_eq!((d.target, d.label), ("nix::trees", "copying"));
    assert_eq!(d.fields, vec![("tree", "/src".to_string())]);
    let d = describe_activity(ActivityType::Unknown, &Vec::new(), "connecting to 'builder'").unwrap();
    assert_eq!(d.fields, vec![("host", "builder".to_string())]);
    let d = describe_activity(ActivityType::BuildWaiting, &Vec::new(), "waiting for a machine to build '/nix/store/x-y.drv'").unwrap();
    assert_eq!(d.fields, vec![("drv", "y.drv".to_string())]);
    let d = describe_activity(ActivityType::Unknown, &Vec::new(), "querying info about missing paths").unwrap();
    assert_eq!((d.target, d.label), ("nix::remote", "querying"));
    assert!(describe_activity(ActivityType::Unknown, &Vec::new(), "something else").is_none());
    assert!(describe_activity(ActivityType::Builds, &Vec::new(), "").is_none());
    assert!(describe_activity(ActivityType::FileTransfer, &vec![FieldValue::Int(1)], "").is_none());
    assert_eq!(trim_start_matches("ababc", "ab"), "c");
    assert_eq!(trim_end_matches("c''", "'"), "c");
    assert!(starts_with("hello", "he"));
    assert!(ends_with("hello", "lo"));
    assert!(!ends_with("lo", "hello"));
}

#[test]
fn evaluator_results() {
    assert_eq!(ResultType::from_int(101), ResultType::BuildLogLine);
    assert_eq!(ResultType::from_int(999), ResultType::Unknown);
    assert_eq!(
        classify_result(ResultType::BuildLogLine, &vec![FieldValue::Str("make: ok".to_string())]),
        ResultReport::LogLine("make: ok".to_string())
    );
    assert_eq!(
        classify_result(ResultType::SetPhase, &vec![FieldValue::Str("buildPhase".to_string())]),
        ResultReport::Phase("buildPhase".to_string())
    );
    assert_eq!(
        classify_result(ResultType::Progress, &vec![FieldValue::Int(3), FieldValue::Int(10), FieldValue::Int(0), FieldValue::Int(0)]),
        ResultReport::Progress { done: 3, expected: 10 }
    );
    assert_eq!(classify_result(ResultType::SetExpected, &vec![FieldValue::Int(1), FieldValue::Int(2)]), ResultReport::Expected);
    assert_eq!(classify_result(ResultType::Progress, &vec![FieldValue::Int(3)]), ResultReport::Unrecognised);
    assert_eq!(classify_result(ResultType::FileLinked, &Vec::new()), ResultReport::Unrecognised);
}

#[test]
fn callable_values() {
    assert_eq!(functor_kind(NixType::Function, false), Some(FunctorKind::Function));
    assert_eq!(functor_kind(NixType::Attrs, true), Some(FunctorKind::Functor));
    assert_eq!(functor_kind(NixType::Attrs, false), None);
    assert_eq!(functor_kind(NixType::String, true), None);
    assert!(is_function(NixType::Attrs, true));
    assert!(!is_function(NixType::List, false));
}

#[test]
fn host_passes_skip_shared_secrets() {
    let plan = plan_host_passes(&names(&["a", "b", "s"]), &names(&["s", "t"]), &names(&["b", "c", "t"]));
    assert_eq!(list(&plan.generate), strings(&["a"]));
    assert_eq!(list(&plan.check), strings(&["b"]));
    assert_eq!(list(&plan.remove), strings(&["c"]));
}

#[test]
fn shared_passes_skip_unmanaged_missing() {
    let plan = plan_shared_passes(&names(&["m", "u", "k"]), &names(&["m", "k"]), &names(&["k", "old"]));
    assert_eq!(list(&plan.generate), strings(&["m"]));
    assert_eq!(list(&plan.skip), strings(&["u"]));
    assert_eq!(list(&plan.check), strings(&["k"]));
    assert_eq!(list(&plan.remove), strings(&["old"]));
}

#[test]
fn generated_secrets_are_managed() {
    let e = expectations(&["b", "a"], "{}", &[], &[]);
    let shared = generated_shared_secret(standard_secret(), &e);
    assert_eq!(shared.managed, Some(true));
    assert_eq!(list(&shared.owners), strings(&["a", "b"]));
    assert_eq!(shared.secret.parts.len(), 2);
    let host = generated_host_secret(standard_secret());
    assert_eq!(host.managed, Some(true));
}

#[test]
fn adding_part_twice_without_replace() {
    let r = add_host_secret(None, false, false, Some(part("x", b"1", true)), Some(part("x", b"2", false)), at(1));
    assert!(matches!(r, Err(AddSecretError::PartAlreadyDefined(n)) if n == "x"));
    let r = add_host_secret(None, true, false, Some(part("x", b"1", true)), Some(part("x", b"2", false)), at(1)).unwrap();
    assert_eq!(r.secret.parts.get("x").unwrap().data, b"2".to_vec());
}
