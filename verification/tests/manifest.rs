use stormlight_mod::manifest::{abi_version, accept_parsed, Dependency, Manifest, ManifestError, ModKind, Version};

fn manifest() -> Manifest {
    Manifest {
        id: "arena_core".to_string(),
        name: "Arena Core".to_string(),
        version: Version::new(1, 2, 3),
        kind: ModKind::Server,
        entry: "arena_core.wasm".to_string(),
        abi: abi_version(),
        deps: Vec::new(),
        assets: Vec::new(),
    }
}

#[test]
fn a_well_formed_manifest_validates() {
    assert_eq!(manifest().validate(), Ok(()));
}

#[test]
fn each_defect_is_named() {
    let mut m = manifest();
    m.id = String::new();
    assert_eq!(m.validate(), Err(ManifestError::EmptyId));

    let mut m = manifest();
    m.id = "Arena".to_string();
    assert_eq!(m.validate(), Err(ManifestError::InvalidId));
    m.id = "arena-core".to_string();
    assert_eq!(m.validate(), Err(ManifestError::InvalidId));
    m.id = "9lives".to_string();
    assert_eq!(m.validate(), Err(ManifestError::InvalidId));

    let mut m = manifest();
    m.name = String::new();
    assert_eq!(m.validate(), Err(ManifestError::EmptyName));

    let mut m = manifest();
    m.entry = String::new();
    assert_eq!(m.validate(), Err(ManifestError::EmptyEntry));

    for bad in [".wasm", "arena.wsm", "dir/arena.wasm", "dir\\arena.wasm", "arena"] {
        let mut m = manifest();
        m.entry = bad.to_string();
        assert_eq!(m.validate(), Err(ManifestError::InvalidEntry), "{bad}");
    }

    let mut m = manifest();
    m.deps.push(Dependency { id: "Bad".to_string(), version: Version::new(0, 1, 0) });
    assert_eq!(m.validate(), Err(ManifestError::InvalidId));

    let mut m = manifest();
    m.abi = Version::new(abi_version().major + 1, 0, 0);
    assert_eq!(
        m.validate(),
        Err(ManifestError::AbiMismatch { found: abi_version().major + 1, expected: abi_version().major })
    );
}

#[test]
fn the_first_defect_is_the_one_reported() {
    let mut m = manifest();
    m.name = String::new();
    m.entry = "x".to_string();
    assert_eq!(m.validate(), Err(ManifestError::EmptyName));
}

#[test]
fn minor_and_patch_differences_are_compatible() {
    let mut m = manifest();
    m.abi = Version::new(abi_version().major, 99, 7);
    assert_eq!(m.check_abi(), Ok(()));
}

#[test]
fn versions_parse_and_print() {
    assert_eq!(Version::parse("1.2.3"), Ok(Version::new(1, 2, 3)));
    assert_eq!(Version::parse("+4.0.10"), Ok(Version::new(4, 0, 10)));
    assert_eq!(Version::parse("4294967295.0.0"), Ok(Version::new(u32::MAX, 0, 0)));
    assert!(Version::parse("4294967296.0.0").is_err());
    assert!(Version::parse("1.2").is_err());
    assert!(Version::parse("1.2.3.4").is_err());
    assert!(Version::parse("1..3").is_err());
    assert!(Version::parse("a.b.c").is_err());
    assert_eq!(Version::new(10, 0, 7).to_text(), "10.0.7");
    assert_eq!(Version::parse(&Version::new(3, 14, 15).to_text()), Ok(Version::new(3, 14, 15)));
}

#[test]
fn manifest_errors_read_as_sentences() {
    assert_eq!(ManifestError::EmptyId.message(), "manifest id is empty");
    assert_eq!(
        ManifestError::AbiMismatch { found: 2, expected: 0 }.message(),
        "abi major mismatch: mod=2, engine=0"
    );
    assert_eq!(ManifestError::Toml("bad key".to_string()).message(), "manifest parse error: bad key");
}

#[test]
fn a_parsed_manifest_is_accepted_exactly_when_it_validates() {
    assert_eq!(accept_parsed(Ok(manifest())), Ok(manifest()));
    let mut bad = manifest();
    bad.entry = "arena_core.dll".to_string();
    assert_eq!(accept_parsed(Ok(bad)), Err(ManifestError::InvalidEntry));
    let mut old = manifest();
    old.abi = Version::new(abi_version().major + 1, 0, 0);
    assert_eq!(
        accept_parsed(Ok(old)),
        Err(ManifestError::AbiMismatch { found: abi_version().major + 1, expected: abi_version().major })
    );
}

#[test]
fn a_toml_refusal_keeps_the_readers_message() {
    let msg = "expected `=`, found newline at line 2".to_string();
    assert_eq!(accept_parsed(Err(msg.clone())), Err(ManifestError::Toml(msg)));
}
