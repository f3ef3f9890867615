//! The mod manifest — the load-time contract a mod declares to the engine.
//!
//! Pure data like the rest of the ABI. A mod's staged folder carries a
//! `manifest.toml` whose `id` equals the folder name; assets flatten to the
//! package root and load via `mod://<id>/<path>`. The host reads and validates
//! this before it will instantiate the wasm entry.

use vstd::prelude::*;

use crate::text::{chars_of, decimal, decimal_string, digit_char, owned, push_str};

verus! {

/// A semantic version (`major.minor.patch`).
///
/// Kept as three integers with a string wire form so it is portable to guest
/// wasm without a semver dependency.
#[derive(Clone, Copy, PartialEq, Eq, PartialOrd, Ord, Hash, Debug)]
pub struct Version {
    pub major: u32,
    pub minor: u32,
    pub patch: u32,
}

/// The major component of the ABI version both the engine and every mod are
/// built against. The host rejects a mod whose declared `abi` major differs from
/// this (see [`Manifest::check_abi`]); minor/patch bumps stay backward compatible.
pub const ABI_MAJOR: u32 = 0;

/// The minor component of the ABI version.
pub const ABI_MINOR: u32 = 1;

/// The patch component of the ABI version.
pub const ABI_PATCH: u32 = 0;

/// The ABI version both the engine and every mod are built against.
pub open spec fn abi_version_spec() -> Version {
    Version { major: ABI_MAJOR, minor: ABI_MINOR, patch: ABI_PATCH }
}

/// The ABI version both the engine and every mod are built against.
pub fn abi_version() -> (v: Version)
    ensures
        v == abi_version_spec(),
{
    Version { major: ABI_MAJOR, minor: ABI_MINOR, patch: ABI_PATCH }
}

/// Why a version string failed to parse (wrong part count or a non-numeric part).
#[derive(Clone, Copy, PartialEq, Eq, Debug)]
pub struct VersionParseError;

/// An ASCII decimal digit.
pub open spec fn is_digit(c: char) -> bool {
    '0' <= c && c <= '9'
}

/// The number a run of decimal digits spells.
pub open spec fn digits_value(d: Seq<char>) -> int
    decreases d.len(),
{
    if d.len() == 0 {
        0
    } else {
        digits_value(d.drop_last()) * 10 + (d.last() as int - '0' as int)
    }
}

/// `s` with one leading `+` dropped, if it has one.
pub open spec fn unsigned_digits(s: Seq<char>) -> Seq<char> {
    if s.len() > 0 && s[0] == '+' {
        s.drop_first()
    } else {
        s
    }
}

/// Every character of `d` is a decimal digit.
pub open spec fn all_digits(d: Seq<char>) -> bool {
    forall|i: int| 0 <= i < d.len() ==> is_digit(#[trigger] d[i])
}

/// What `u32::from_str` makes of `s`: an optional `+`, then at least one decimal
/// digit, spelling a number that fits.
pub open spec fn parse_u32_spec(s: Seq<char>) -> Option<u32> {
    let d = unsigned_digits(s);
    if d.len() > 0 && all_digits(d) && digits_value(d) <= u32::MAX {
        Some(digits_value(d) as u32)
    } else {
        None
    }
}

/// `s` cut at every `sep`, as `str::split` cuts it: `n` separators make `n + 1`
/// pieces, empty ones included.
pub open spec fn split_on(s: Seq<char>, sep: char) -> Seq<Seq<char>>
    decreases s.len(),
{
    if s.len() == 0 {
        seq![Seq::<char>::empty()]
    } else {
        let before = split_on(s.drop_last(), sep);
        if s.last() == sep {
            before.push(Seq::<char>::empty())
        } else {
            before.update(before.len() - 1, before.last().push(s.last()))
        }
    }
}

/// What `"major.minor.patch"` parses to: exactly three `.`-separated parts, each a
/// `u32`.
pub open spec fn parse_version_spec(s: Seq<char>) -> Result<Version, VersionParseError> {
    let parts = split_on(s, '.');
    if parts.len() == 3 && parse_u32_spec(parts[0]) is Some && parse_u32_spec(parts[1]) is Some
        && parse_u32_spec(parts[2]) is Some {
        Ok(
            Version {
                major: parse_u32_spec(parts[0])->0,
                minor: parse_u32_spec(parts[1])->0,
                patch: parse_u32_spec(parts[2])->0,
            },
        )
    } else {
        Err(VersionParseError)
    }
}

/// `split_on` never yields an empty list of pieces.
proof fn lemma_split_nonempty(s: Seq<char>, sep: char)
    ensures
        split_on(s, sep).len() >= 1,
    decreases s.len(),
{
    if s.len() > 0 {
        lemma_split_nonempty(s.drop_last(), sep);
    }
}

/// A run of digits is worth nothing negative.
proof fn lemma_digits_nonneg(d: Seq<char>)
    requires
        forall|i: int| 0 <= i < d.len() ==> is_digit(#[trigger] d[i]),
    ensures
        digits_value(d) >= 0,
    decreases d.len(),
{
    if d.len() > 0 {
        lemma_digits_nonneg(d.drop_last());
    }
}

/// A longer run of digits is worth at least as much as its prefix.
proof fn lemma_digits_grow(d: Seq<char>, k: int)
    requires
        0 <= k <= d.len(),
        forall|i: int| 0 <= i < d.len() ==> is_digit(#[trigger] d[i]),
    ensures
        digits_value(d.take(k)) <= digits_value(d),
    decreases d.len() - k,
{
    if k < d.len() {
        lemma_digits_grow(d, k + 1);
        assert(d.take(k + 1).drop_last() =~= d.take(k));
        lemma_digits_nonneg(d.take(k));
    } else {
        assert(d.take(k) =~= d);
    }
}

/// Parse one part of a version: an optional `+` and decimal digits that fit a `u32`.
fn parse_u32_part(s: &Vec<char>) -> (r: Option<u32>)
    ensures
        r == parse_u32_spec(s@),
{
    let n = s.len();
    let start: usize = if n > 0 && s[0] == '+' { 1 } else { 0 };
    let ghost d = unsigned_digits(s@);
    assert(d =~= s@.skip(start as int));
    if start >= n {
        return None;
    }
    let mut value: u64 = 0;
    let mut i: usize = start;
    while i < n
        invariant
            start <= i <= n,
            n == s@.len(),
            d =~= s@.skip(start as int),
            d == unsigned_digits(s@),
            forall|j: int| 0 <= j < i - start ==> is_digit(#[trigger] d[j]),
            value as int == digits_value(d.take(i - start)),
            value <= u32::MAX,
        decreases n - i,
    {
        let c = s[i];
        proof {
            assert(d[i - start] == c);
        }
        if !('0' <= c && c <= '9') {
            proof {
                assert(!is_digit(d[i - start]));
                assert(!all_digits(d));
                assert(parse_u32_spec(s@) is None);
            }
            return None;
        }
        let digit = (c as u32 - '0' as u32) as u64;
        proof {
            assert(d.take(i - start + 1).drop_last() =~= d.take(i - start));
            assert(d.take(i - start + 1).last() == c);
        }
        value = value * 10 + digit;
        if value > 0xffff_ffffu64 {
            proof {
                // The digits so far already overflow; the remaining ones cannot help.
                if all_digits(d) {
                    lemma_digits_grow(d, i - start + 1);
                }
                assert(parse_u32_spec(s@) is None);
            }
            return None;
        }
        i = i + 1;
    }
    proof {
        assert(d.take(n - start) =~= d);
    }
    Some(value as u32)
}

impl Version {
    /// A version from explicit components.
    pub fn new(major: u32, minor: u32, patch: u32) -> (v: Self)
        ensures
            v == (Version { major, minor, patch }),
    {
        Version { major, minor, patch }
    }

    /// Parse `"major.minor.patch"`. Total: any malformed string is an `Err`,
    /// never a panic. Exactly three integer components are required, each
    /// written the way `u32::from_str` reads one.
    pub fn parse(s: &str) -> (r: Result<Version, VersionParseError>)
        ensures
            r == parse_version_spec(s@),
    {
        let chars = chars_of(s);
        let n = chars.len();
        let mut parts: Vec<Vec<char>> = Vec::new();
        parts.push(Vec::new());
        let mut i: usize = 0;
        while i < n
            invariant
                i <= n,
                n == chars@.len(),
                chars@ == s@,
                parts@.len() >= 1,
                parts@.map_values(|p: Vec<char>| p@) == split_on(chars@.take(i as int), '.'),
            decreases n - i,
        {
            let c = chars[i];
            let ghost before = parts@.map_values(|p: Vec<char>| p@);
            proof {
                assert(chars@.take(i + 1).drop_last() =~= chars@.take(i as int));
                assert(chars@.take(i + 1).last() == c);
            }
            if c == '.' {
                parts.push(Vec::new());
                proof {
                    assert(parts@.map_values(|p: Vec<char>| p@) =~= before.push(Seq::<char>::empty()));
                }
            } else {
                let last = parts.len() - 1;
                parts[last].push(c);
                proof {
                    assert(parts@.map_values(|p: Vec<char>| p@) =~= before.update(
                        before.len() - 1,
                        before.last().push(c),
                    ));
                }
            }
            i = i + 1;
        }
        proof {
            assert(chars@.take(n as int) =~= chars@);
        }
        let ghost pv = parts@.map_values(|p: Vec<char>| p@);
        if parts.len() != 3 {
            return Err(VersionParseError);
        }
        let major = parse_u32_part(&parts[0]);
        let minor = parse_u32_part(&parts[1]);
        let patch = parse_u32_part(&parts[2]);
        proof {
            assert(pv[0] == parts@[0]@);
            assert(pv[1] == parts@[1]@);
            assert(pv[2] == parts@[2]@);
        }
        match (major, minor, patch) {
            (Some(major), Some(minor), Some(patch)) => Ok(Version { major, minor, patch }),
            _ => Err(VersionParseError),
        }
    }
}

/// Which side of the engine a mod runs on.
#[derive(Clone, Copy, PartialEq, Eq, Hash, Debug)]
pub enum ModKind {
    /// Authoritative gameplay content, loaded by the server.
    Server,
    /// Cosmetic-only content, loaded by the client's wasm runtime.
    Client,
}

/// A declared dependency on another mod, with the minimum version required.
#[derive(Clone, PartialEq, Eq, Debug)]
pub struct Dependency {
    pub id: String,
    pub version: Version,
}

/// A mod's `manifest.toml`, deserialized.
#[derive(Clone, PartialEq, Eq, Debug)]
pub struct Manifest {
    /// Stable lowercase id; equals the staged folder name and the `mod://` root.
    pub id: String,
    /// Human-readable display name.
    pub name: String,
    /// The mod's own semantic version.
    pub version: Version,
    /// Server-side gameplay or client-side cosmetic.
    pub kind: ModKind,
    /// Filename of the wasm entry within the package (e.g. `foo.wasm`).
    pub entry: String,
    /// The ABI version the mod was built against; gated on load.
    pub abi: Version,
    /// Other mods this one depends on. Absent in TOML means none.
    pub deps: Vec<Dependency>,
    /// Declared asset paths relative to the package root. Absent means none.
    pub assets: Vec<String>,
}

/// Why a manifest was rejected. Distinct variants so callers (and tests) can
/// react to the specific defect rather than an opaque failure.
#[derive(Clone, PartialEq, Eq, Debug)]
pub enum ManifestError {
    /// `id` was empty.
    EmptyId,
    /// `id` (or a dependency id) had a character outside `[a-z0-9_]` or did not
    /// start with a lowercase letter.
    InvalidId,
    /// `name` was empty.
    EmptyName,
    /// `entry` was empty.
    EmptyEntry,
    /// `entry` was not a bare `*.wasm` filename (missing extension or a path).
    InvalidEntry,
    /// The mod's `abi` major differs from the engine's ABI version.
    AbiMismatch { found: u32, expected: u32 },
    /// The TOML source could not be deserialized into a [`Manifest`].
    Toml(String),
}

/// A lowercase ASCII letter.
pub open spec fn is_lower(c: char) -> bool {
    'a' <= c && c <= 'z'
}

/// A character an id may hold after its first: `[a-z0-9_]`.
pub open spec fn is_id_char(c: char) -> bool {
    is_lower(c) || is_digit(c) || c == '_'
}

/// The verdict on an id: non-empty, first char a lowercase ASCII letter, the
/// rest in `[a-z0-9_]`.
pub open spec fn id_check(id: Seq<char>) -> Result<(), ManifestError> {
    if id.len() == 0 {
        Err(ManifestError::EmptyId)
    } else if !is_lower(id[0]) {
        Err(ManifestError::InvalidId)
    } else if forall|i: int| 0 <= i < id.len() ==> is_id_char(#[trigger] id[i]) {
        Ok(())
    } else {
        Err(ManifestError::InvalidId)
    }
}

/// The extension a wasm entry must carry.
pub open spec fn wasm_suffix() -> Seq<char> {
    seq!['.', 'w', 'a', 's', 'm']
}

/// Whether `entry` is a bare `*.wasm` filename: it ends in `.wasm`, something
/// comes before the extension, and that stem holds no path separator.
pub open spec fn entry_ok(entry: Seq<char>) -> bool {
    let n = entry.len();
    &&& n > 5
    &&& entry.subrange(n - 5, n as int) == wasm_suffix()
    &&& forall|i: int| 0 <= i < n - 5 ==> #[trigger] entry[i] != '/' && entry[i] != '\\'
}

/// The first invalid id among the dependencies, or `Ok`.
pub open spec fn deps_check(deps: Seq<Dependency>) -> Result<(), ManifestError>
    decreases deps.len(),
{
    if deps.len() == 0 {
        Ok(())
    } else {
        match deps_check(deps.drop_last()) {
            Err(e) => Err(e),
            Ok(()) => id_check(deps.last().id@),
        }
    }
}

/// The ABI gate: only the major component is compared.
pub open spec fn abi_check(abi: Version) -> Result<(), ManifestError> {
    if abi.major == ABI_MAJOR {
        Ok(())
    } else {
        Err(ManifestError::AbiMismatch { found: abi.major, expected: ABI_MAJOR })
    }
}

/// The full structural verdict on a manifest, checks in order: the id, the
/// name, the entry (present, then a bare `*.wasm`), every dependency id, the ABI.
pub open spec fn manifest_check(m: Manifest) -> Result<(), ManifestError> {
    if id_check(m.id@) is Err {
        id_check(m.id@)
    } else if m.name@.len() == 0 {
        Err(ManifestError::EmptyName)
    } else if m.entry@.len() == 0 {
        Err(ManifestError::EmptyEntry)
    } else if !entry_ok(m.entry@) {
        Err(ManifestError::InvalidEntry)
    } else if deps_check(m.deps@) is Err {
        deps_check(m.deps@)
    } else {
        abi_check(m.abi)
    }
}

/// Whether `id` is a valid id: non-empty, a lowercase letter first, and only
/// `[a-z0-9_]` throughout.
pub open spec fn valid_id(id: Seq<char>) -> bool {
    id.len() > 0 && is_lower(id[0]) && forall|i: int| 0 <= i < id.len() ==> is_id_char(#[trigger] id[i])
}

proof fn lemma_deps_check_ok(deps: Seq<Dependency>)
    ensures
        deps_check(deps) is Ok <==> forall|i: int| 0 <= i < deps.len() ==> valid_id((#[trigger] deps[i]).id@),
    decreases deps.len(),
{
    if deps.len() > 0 {
        lemma_deps_check_ok(deps.drop_last());
        assert forall|i: int| 0 <= i < deps.len() - 1 implies #[trigger] deps.drop_last()[i] == deps[i] by {}
        if forall|i: int| 0 <= i < deps.len() ==> valid_id((#[trigger] deps[i]).id@) {
            assert forall|i: int| 0 <= i < deps.drop_last().len() implies valid_id((#[trigger] deps.drop_last()[i]).id@) by {
                assert(valid_id(deps[i].id@));
            }
            assert(valid_id(deps[deps.len() - 1].id@));
        }
        if deps_check(deps) is Ok {
            assert forall|i: int| 0 <= i < deps.len() implies valid_id((#[trigger] deps[i]).id@) by {
                if i < deps.len() - 1 {
                    assert(valid_id(deps.drop_last()[i].id@));
                }
            }
        }
    }
}

/// A manifest passes [`Manifest::validate`] exactly when its id is valid, its
/// name and entry are not empty, the entry is a bare `*.wasm` filename, every
/// dependency id is valid, and its ABI major is the engine's.
pub proof fn law_a_valid_manifest(m: Manifest)
    ensures
        manifest_check(m) is Ok <==> {
            &&& valid_id(m.id@)
            &&& m.name@.len() > 0
            &&& entry_ok(m.entry@)
            &&& forall|i: int| 0 <= i < m.deps@.len() ==> valid_id((#[trigger] m.deps@[i]).id@)
            &&& m.abi.major == ABI_MAJOR
        },
{
    lemma_deps_check_ok(m.deps@);
}

/// A well-formed id: non-empty, first char a lowercase ASCII letter, the rest
/// in `[a-z0-9_]`.
fn is_valid_id(id: &str) -> (r: Result<(), ManifestError>)
    ensures
        r == id_check(id@),
{
    let chars = chars_of(id);
    let n = chars.len();
    if n == 0 {
        return Err(ManifestError::EmptyId);
    }
    let first = chars[0];
    if !('a' <= first && first <= 'z') {
        return Err(ManifestError::InvalidId);
    }
    let mut i: usize = 0;
    while i < n
        invariant
            i <= n,
            n == chars@.len(),
            chars@ == id@,
            forall|j: int| 0 <= j < i ==> is_id_char(#[trigger] chars@[j]),
        decreases n - i,
    {
        let c = chars[i];
        if !(('a' <= c && c <= 'z') || ('0' <= c && c <= '9') || c == '_') {
            proof {
                assert(!is_id_char(chars@[i as int]));
            }
            return Err(ManifestError::InvalidId);
        }
        i = i + 1;
    }
    Ok(())
}

/// Whether `entry` is a bare `*.wasm` filename.
fn is_wasm_entry(entry: &str) -> (r: bool)
    ensures
        r == entry_ok(entry@),
{
    let chars = chars_of(entry);
    let n = chars.len();
    if n <= 5 {
        return false;
    }
    let stem = n - 5;
    if !(chars[stem] == '.' && chars[stem + 1] == 'w' && chars[stem + 2] == 'a'
        && chars[stem + 3] == 's' && chars[stem + 4] == 'm') {
        proof {
            assert(chars@.subrange(stem as int, n as int) != wasm_suffix()) by {
                let sub = chars@.subrange(stem as int, n as int);
                if sub == wasm_suffix() {
                    assert(sub[0] == '.' && sub[1] == 'w' && sub[2] == 'a' && sub[3] == 's' && sub[4] == 'm');
                }
            }
        }
        return false;
    }
    proof {
        assert(chars@.subrange(stem as int, n as int) =~= wasm_suffix());
    }
    let mut i: usize = 0;
    while i < stem
        invariant
            i <= stem,
            stem == n - 5,
            n == chars@.len(),
            chars@ == entry@,
            forall|j: int| 0 <= j < i ==> #[trigger] chars@[j] != '/' && chars@[j] != '\\',
        decreases stem - i,
    {
        if chars[i] == '/' || chars[i] == '\\' {
            return false;
        }
        i = i + 1;
    }
    true
}

/// The `major.minor.patch` spelling of a version.
pub open spec fn version_text(v: Version) -> Seq<char> {
    decimal(v.major as nat) + "."@ + decimal(v.minor as nat) + "."@ + decimal(v.patch as nat)
}

/// The digit character for a number below ten is a digit and spells it.
proof fn lemma_digit_char(d: nat)
    requires
        d < 10,
    ensures
        is_digit(digit_char(d)),
        digit_char(d) as int - '0' as int == d,
{
}

/// The decimal spelling of a number is a non-empty run of digits that spells it.
proof fn lemma_decimal_spells(n: nat)
    ensures
        decimal(n).len() > 0,
        all_digits(decimal(n)),
        digits_value(decimal(n)) == n,
    decreases n,
{
    if n < 10 {
        lemma_digit_char(n);
        let d = decimal(n);
        assert(d == seq![digit_char(n)]);
        assert(d.drop_last() =~= Seq::<char>::empty());
        assert(digits_value(Seq::<char>::empty()) == 0);
        assert(digits_value(d) == digits_value(d.drop_last()) * 10 + (d.last() as int - '0' as int));
    } else {
        lemma_decimal_spells(n / 10);
        lemma_digit_char(n % 10);
        let d = decimal(n);
        assert(d == decimal(n / 10).push(digit_char(n % 10)));
        assert(d.drop_last() =~= decimal(n / 10));
        assert(d.last() == digit_char(n % 10));
        assert(digits_value(d) == digits_value(d.drop_last()) * 10 + (d.last() as int - '0' as int));
        assert((n / 10) * 10 + n % 10 == n);
        assert forall|i: int| 0 <= i < d.len() implies is_digit(#[trigger] d[i]) by {
            if i < d.len() - 1 {
                assert(d[i] == decimal(n / 10)[i]);
            }
        }
    }
}

/// Cutting a run with no separator in it gives the run itself.
proof fn lemma_split_whole(s: Seq<char>, sep: char)
    requires
        forall|i: int| 0 <= i < s.len() ==> s[i] != sep,
    ensures
        split_on(s, sep) == seq![s],
    decreases s.len(),
{
    if s.len() > 0 {
        assert(s[s.len() - 1] != sep);
        assert forall|i: int| 0 <= i < s.drop_last().len() implies s.drop_last()[i] != sep by {
            assert(s[i] != sep);
        }
        lemma_split_whole(s.drop_last(), sep);
        let before = split_on(s.drop_last(), sep);
        assert(before == seq![s.drop_last()]);
        assert(s.last() != sep);
        assert(split_on(s, sep) == before.update(before.len() - 1, before.last().push(s.last())));
        assert(s.drop_last().push(s.last()) =~= s);
        assert(before.update(0, s) =~= seq![s]);
    } else {
        assert(s =~= Seq::<char>::empty());
    }
}

/// Cutting `s`, a separator and a run with no separator in it gives the pieces
/// of `s` and then that run.
proof fn lemma_split_then(s: Seq<char>, sep: char, t: Seq<char>)
    requires
        forall|i: int| 0 <= i < t.len() ==> t[i] != sep,
    ensures
        split_on(s + seq![sep] + t, sep) == split_on(s, sep).push(t),
    decreases t.len(),
{
    if t.len() == 0 {
        assert(s + seq![sep] + t =~= s.push(sep));
        assert((s.push(sep)).drop_last() =~= s);
        assert(s.push(sep).last() == sep);
        assert(split_on(s.push(sep), sep) == split_on(s, sep).push(Seq::<char>::empty()));
        assert(t =~= Seq::<char>::empty());
    } else {
        let whole = s + seq![sep] + t;
        assert(t[t.len() - 1] != sep);
        assert(whole.last() == t.last());
        assert(whole.drop_last() =~= s + seq![sep] + t.drop_last());
        assert forall|i: int| 0 <= i < t.drop_last().len() implies t.drop_last()[i] != sep by {
            assert(t[i] != sep);
        }
        assert(t.drop_last().push(t.last()) =~= t);
        lemma_split_then(s, sep, t.drop_last());
        let before = split_on(whole.drop_last(), sep);
        assert(before == split_on(s, sep).push(t.drop_last()));
        assert(split_on(whole, sep) == before.update(before.len() - 1, before.last().push(whole.last())));
        lemma_split_nonempty(s, sep);
        assert(split_on(s, sep).push(t.drop_last()).update(split_on(s, sep).len() as int, t.drop_last().push(t.last()))
            =~= split_on(s, sep).push(t));
    }
}

/// A number's decimal spelling reads back as that number.
proof fn lemma_decimal_parses(n: nat)
    requires
        n <= u32::MAX,
    ensures
        parse_u32_spec(decimal(n)) == Some(n as u32),
        forall|i: int| 0 <= i < decimal(n).len() ==> decimal(n)[i] != '.',
{
    lemma_decimal_spells(n);
    assert(is_digit(decimal(n)[0]));
    assert forall|i: int| 0 <= i < decimal(n).len() implies decimal(n)[i] != '.' by {
        assert(is_digit(decimal(n)[i]));
    }
}

/// A version's `major.minor.patch` spelling parses back to that version.
pub proof fn law_version_text_parses_back(v: Version)
    ensures
        parse_version_spec(version_text(v)) == Ok::<Version, VersionParseError>(v),
{
    reveal_strlit(".");
    let a = decimal(v.major as nat);
    let b = decimal(v.minor as nat);
    let c = decimal(v.patch as nat);
    lemma_decimal_parses(v.major as nat);
    lemma_decimal_parses(v.minor as nat);
    lemma_decimal_parses(v.patch as nat);
    assert(version_text(v) =~= (a + seq!['.'] + b) + seq!['.'] + c);
    lemma_split_then(a + seq!['.'] + b, '.', c);
    lemma_split_then(a, '.', b);
    lemma_split_whole(a, '.');
    assert(split_on(version_text(v), '.') =~= seq![a, b, c]);
}

impl Version {
    /// The `major.minor.patch` spelling of this version — its `Display` form,
    /// and what [`Version::parse`] reads back.
    pub fn to_text(&self) -> (r: String)
        ensures
            r@ == version_text(*self),
    {
        let mut s = decimal_string(self.major as u64);
        push_str(&mut s, ".");
        let b = decimal_string(self.minor as u64);
        push_str(&mut s, b.as_str());
        push_str(&mut s, ".");
        let c = decimal_string(self.patch as u64);
        push_str(&mut s, c.as_str());
        s
    }
}

impl ManifestError {
    /// The human-readable report of this refusal.
    pub open spec fn message_spec(self) -> Seq<char> {
        match self {
            ManifestError::EmptyId => "manifest id is empty"@,
            ManifestError::InvalidId => "manifest id must be `[a-z][a-z0-9_]*`"@,
            ManifestError::EmptyName => "manifest name is empty"@,
            ManifestError::EmptyEntry => "manifest entry is empty"@,
            ManifestError::InvalidEntry => "manifest entry must be a `*.wasm` filename"@,
            ManifestError::AbiMismatch { found, expected } => "abi major mismatch: mod="@ + decimal(found as nat)
                + ", engine="@ + decimal(expected as nat),
            ManifestError::Toml(e) => "manifest parse error: "@ + e@,
        }
    }

    /// The human-readable report of this refusal.
    pub fn message(&self) -> (r: String)
        ensures
            r@ == self.message_spec(),
    {
        match self {
            ManifestError::EmptyId => owned("manifest id is empty"),
            ManifestError::InvalidId => owned("manifest id must be `[a-z][a-z0-9_]*`"),
            ManifestError::EmptyName => owned("manifest name is empty"),
            ManifestError::EmptyEntry => owned("manifest entry is empty"),
            ManifestError::InvalidEntry => owned("manifest entry must be a `*.wasm` filename"),
            ManifestError::AbiMismatch { found, expected } => {
                let mut s = owned("abi major mismatch: mod=");
                let a = decimal_string(*found as u64);
                push_str(&mut s, a.as_str());
                push_str(&mut s, ", engine=");
                let b = decimal_string(*expected as u64);
                push_str(&mut s, b.as_str());
                s
            },
            ManifestError::Toml(e) => {
                let mut s = owned("manifest parse error: ");
                push_str(&mut s, e.as_str());
                s
            },
        }
    }
}

/// What a `manifest.toml` source yields once its TOML has been read into a
/// [`Manifest`] (or refused, with the reader's message): a refusal becomes
/// [`ManifestError::Toml`], and a manifest read is returned exactly when it
/// passes [`Manifest::validate`], else with the error that gave.
pub fn accept_parsed(parsed: Result<Manifest, String>) -> (r: Result<Manifest, ManifestError>)
    ensures
        match parsed {
            Err(msg) => r == Err::<Manifest, ManifestError>(ManifestError::Toml(msg)),
            Ok(m) => r == match manifest_check(m) {
                Ok(()) => Ok::<Manifest, ManifestError>(m),
                Err(e) => Err(e),
            },
        },
{
    match parsed {
        Err(msg) => Err(ManifestError::Toml(msg)),
        Ok(m) => match m.validate() {
            Ok(()) => Ok(m),
            Err(e) => Err(e),
        },
    }
}

impl Manifest {
    /// Reject a mod whose declared ABI major differs from the engine's. Minor
    /// and patch differences are compatible and accepted.
    pub fn check_abi(&self) -> (r: Result<(), ManifestError>)
        ensures
            r == abi_check(self.abi),
    {
        if self.abi.major == ABI_MAJOR {
            Ok(())
        } else {
            Err(ManifestError::AbiMismatch { found: self.abi.major, expected: ABI_MAJOR })
        }
    }

    /// Full structural validation: id charset, non-empty name/entry, a bare
    /// `*.wasm` entry, valid dependency ids, and the ABI gate. Semver validity
    /// of `version`/`abi` is already guaranteed by having parsed as [`Version`].
    pub fn validate(&self) -> (r: Result<(), ManifestError>)
        ensures
            r == manifest_check(*self),
    {
        let id = is_valid_id(self.id.as_str());
        if id.is_err() {
            return id;
        }
        if self.name.as_str().is_empty() {
            return Err(ManifestError::EmptyName);
        }
        if self.entry.as_str().is_empty() {
            return Err(ManifestError::EmptyEntry);
        }
        if !is_wasm_entry(self.entry.as_str()) {
            return Err(ManifestError::InvalidEntry);
        }
        let mut i: usize = 0;
        while i < self.deps.len()
            invariant
                i <= self.deps@.len(),
                deps_check(self.deps@.take(i as int)) is Ok,
                id_check(self.id@) is Ok,
                self.name@.len() != 0,
                self.entry@.len() != 0,
                entry_ok(self.entry@),
            decreases self.deps@.len() - i,
        {
            let r = is_valid_id(self.deps[i].id.as_str());
            proof {
                assert(self.deps@.take(i + 1).drop_last() =~= self.deps@.take(i as int));
                assert(self.deps@.take(i + 1).last() == self.deps@[i as int]);
            }
            if r.is_err() {
                proof {
                    lemma_deps_check_prefix(self.deps@, i as int + 1);
                }
                return r;
            }
            i = i + 1;
        }
        proof {
            assert(self.deps@.take(self.deps@.len() as int) =~= self.deps@);
        }
        self.check_abi()
    }
}

/// Once a prefix of the dependencies fails, the whole list fails the same way.
proof fn lemma_deps_check_prefix(deps: Seq<Dependency>, k: int)
    requires
        0 <= k <= deps.len(),
        deps_check(deps.take(k)) is Err,
    ensures
        deps_check(deps) == deps_check(deps.take(k)),
    decreases deps.len() - k,
{
    if k < deps.len() {
        assert(deps.take(k + 1).drop_last() =~= deps.take(k));
        lemma_deps_check_prefix(deps, k + 1);
    } else {
        assert(deps.take(k) =~= deps);
    }
}

} // verus!
