//! Which panel this launcher belongs to.
//!
//! One launcher is built for every client: what tells a client from another
//! (the panel's address and the client's public key) is appended to the end
//! of the installer by the panel when it is downloaded, as a fixed-size
//! block: a magic, then base64url JSON, then `.` padding. The sources are
//! tried in order: the block at the end of the executable, the
//! `provisioning.blob` the installer wrote beside it, the `provisioning.json`
//! beside a macOS bundle, then the copy persisted in the data directory.

use vstd::prelude::*;

use crate::error::{is_error, AppError};
use crate::json::{field, parsed_json, Json};
use crate::paths::{parent, path_parent};
use crate::text::{
    from_chars, spec_is_ascii_alphanumeric, spec_starts_with, starts_with, to_chars, trim,
    trim_chars, trim_end_char, trim_end_matches,
};

verus! {

/// Must stay identical to the panel's and to the installer hook's.
pub const MAGIC: &'static str = "LUUXCRAFT-PROVISIONING-V1";
/// Fixed size of the block.
pub const FOOTER_SIZE: u64 = 512;
/// The file the installer hook writes in the installation directory.
pub const BLOB_FILE: &'static str = "provisioning.blob";
/// The copy persisted in the launcher's data directory.
pub const PERSISTED_FILE: &'static str = "provisioning.json";
/// Longest client key accepted.
pub const MAX_KEY_LEN: usize = 128;

pub struct Provisioning {
    /// The panel's API base, without a trailing slash (`https://…/api`).
    pub api_url: String,
    /// The client's public key.
    pub key: String,
}

/// Where the configuration in use comes from.
#[derive(Clone, Copy, PartialEq, Eq, Debug, Structural)]
pub enum ProvisioningSource {
    /// The block at the end of the running executable.
    Executable,
    /// The file the installer wrote.
    Installer,
    /// The copy persisted in the data directory.
    Persisted,
    /// A value built into the launcher.
    BuiltIn,
}

pub struct ProvisioningModel {
    pub api_url: Seq<char>,
    pub key: Seq<char>,
}

pub open spec fn model_of(p: Provisioning) -> ProvisioningModel {
    ProvisioningModel { api_url: p.api_url@, key: p.key@ }
}

/// A key travels in a URL path (`/user/{key}/config`): letters, digits,
/// dashes and underscores only.
pub open spec fn key_ok(key: Seq<char>) -> bool {
    0 < key.len() <= MAX_KEY_LEN && forall|i: int|
        0 <= i < key.len() ==> spec_is_ascii_alphanumeric(#[trigger] key[i]) || key[i] == '-'
            || key[i] == '_'
}

/// A validated (address, key) pair: the address trimmed and without trailing
/// slashes must be `https` with a host; the key trimmed must be one.
pub open spec fn normalized(api_url: Seq<char>, key: Seq<char>) -> Option<ProvisioningModel> {
    let u = trim_end_char(trim(api_url), '/');
    let k = trim(key);
    if spec_starts_with(u, "https://"@) && u.len() >= 9 && key_ok(k) {
        Some(ProvisioningModel { api_url: u, key: k })
    } else {
        None
    }
}

fn key_chars_ok(k: &[char]) -> (r: bool)
    ensures
        r == key_ok(k@),
{
    if k.len() == 0 || k.len() > MAX_KEY_LEN {
        return false;
    }
    let mut i: usize = 0;
    while i < k.len()
        invariant
            i <= k@.len(),
            0 < k@.len() <= MAX_KEY_LEN,
            forall|j: int|
                0 <= j < i ==> spec_is_ascii_alphanumeric(#[trigger] k@[j]) || k@[j] == '-'
                    || k@[j] == '_',
        decreases k@.len() - i,
    {
        let c = k[i];
        if !(crate::text::is_ascii_alphanumeric(c) || c == '-' || c == '_') {
            return false;
        }
        i += 1;
    }
    true
}

/// Validates and normalizes an (address, key) pair. Requiring `https` is the
/// block's only real protection, as it is not signed.
pub fn normalize(api_url: &str, key: &str) -> (r: Option<Provisioning>)
    ensures
        match r {
            Some(p) => normalized(api_url@, key@) == Some(model_of(p)),
            None => normalized(api_url@, key@) is None,
        },
{
    proof {
        reveal_strlit("https://");
    }
    let u = trim_end_matches(&trim_chars(&to_chars(api_url)), '/');
    let k = trim_chars(&to_chars(key));
    if !starts_with(&u, &to_chars("https://")) || u.len() < 9 {
        return None;
    }
    if !key_chars_ok(&k) {
        return None;
    }
    Some(Provisioning { api_url: from_chars(&u), key: from_chars(&k) })
}

// ── The block ───────────────────────────────────────────────────────────────

/// The bytes other than zero, in order (a block written in UTF-16LE reads
/// as its ASCII text).
pub open spec fn nonzero(bytes: Seq<u8>) -> Seq<u8>
    decreases bytes.len(),
{
    if bytes.len() == 0 {
        bytes
    } else if bytes.last() == 0 {
        nonzero(bytes.drop_last())
    } else {
        nonzero(bytes.drop_last()).push(bytes.last())
    }
}

pub open spec fn bytes_at(hay: Seq<u8>, needle: Seq<u8>, i: int) -> bool {
    0 <= i && i + needle.len() <= hay.len() && hay.subrange(i, i + needle.len()) == needle
}

pub open spec fn first_bytes_at(hay: Seq<u8>, needle: Seq<u8>, i: int) -> bool {
    bytes_at(hay, needle, i) && forall|j: int| 0 <= j < i ==> !bytes_at(hay, needle, j)
}

/// The base64url alphabet: letters, digits, `-` and `_`.
pub open spec fn base64url_byte(b: u8) -> bool {
    (0x30 <= b <= 0x39) || (0x41 <= b <= 0x5a) || (0x61 <= b <= 0x7a) || b == 0x2d || b == 0x5f
}

/// The number of leading base64url bytes.
pub open spec fn base64url_run(s: Seq<u8>) -> nat
    decreases s.len(),
{
    if s.len() == 0 || !base64url_byte(s[0]) {
        0
    } else {
        1 + base64url_run(s.drop_first())
    }
}

/// What the base64url engine without padding reads from `text`; `None` when
/// it refuses it.
pub uninterp spec fn base64_url_decoded(text: Seq<u8>) -> Option<Seq<u8>>;

/// `base64::engine::general_purpose::URL_SAFE_NO_PAD.decode`.
#[verifier::external_body]
fn decode_url_safe(text: &[u8]) -> (r: Option<Vec<u8>>)
    ensures
        match r {
            Some(v) => base64_url_decoded(text@) == Some(v@),
            None => base64_url_decoded(text@) is None,
        },
{
    base64::Engine::decode(&base64::engine::general_purpose::URL_SAFE_NO_PAD, text).ok()
}

/// An optional string member read as the JSON derive reads `Option<String>`:
/// absent or `null` is none, a string is some, anything else is unreadable.
pub open spec fn opt_text(v: Option<Json>) -> Option<Option<Seq<char>>> {
    match v {
        None => Some(None),
        Some(Json::Null) => Some(None),
        Some(Json::String(s)) => Some(Some(s@)),
        _ => None,
    }
}

/// A `u32` member.
pub open spec fn u32_of(v: Option<Json>) -> Option<u32> {
    match v {
        Some(Json::Number(n)) => match n.uint {
            Some(x) => if x <= u32::MAX {
                Some(x as u32)
            } else {
                None
            },
            None => None,
        },
        _ => None,
    }
}

/// The payload `{v, apiUrl, key}` (or `[v, apiUrl, key]`), read as the JSON
/// derive reads it: `v` is required, the two others may be null or absent.
pub open spec fn payload_of(j: Json) -> Option<(u32, Option<Seq<char>>, Option<Seq<char>>)> {
    let parts = match j {
        Json::Object(f) => Some(
            (field(f@, "v"@), field(f@, "apiUrl"@), field(f@, "key"@)),
        ),
        Json::Array(items) => if items@.len() == 3 {
            Some((Some(items@[0]), Some(items@[1]), Some(items@[2])))
        } else {
            None
        },
        _ => None,
    };
    match parts {
        Some((v, a, k)) => match (u32_of(v), opt_text(a), opt_text(k)) {
            (Some(v), Some(a), Some(k)) => Some((v, a, k)),
            _ => None,
        },
        None => None,
    }
}

/// What a block says: after the first magic in the non-zero bytes, the
/// base64url run is decoded, read as JSON, must be version 1 and name an
/// address and a key that normalize.
pub open spec fn blob_of(bytes: Seq<u8>) -> Option<ProvisioningModel> {
    let c = nonzero(bytes);
    let magic = vstd::utf8::encode_utf8(MAGIC@);
    if exists|i: int| bytes_at(c, magic, i) {
        let i = choose|i: int| first_bytes_at(c, magic, i);
        let rest = c.skip(i + magic.len());
        let encoded = rest.take(base64url_run(rest) as int);
        if encoded.len() == 0 {
            None
        } else {
            match base64_url_decoded(encoded) {
                Some(decoded) => match parsed_json(decoded) {
                    Some(j) => match payload_of(j) {
                        Some((v, Some(a), Some(k))) => if v == 1 {
                            normalized(a, k)
                        } else {
                            None
                        },
                        _ => None,
                    },
                    None => None,
                },
                None => None,
            }
        }
    } else {
        None
    }
}

fn nonzero_bytes(bytes: &[u8]) -> (r: Vec<u8>)
    ensures
        r@ == nonzero(bytes@),
{
    let mut r: Vec<u8> = Vec::new();
    let mut i: usize = 0;
    while i < bytes.len()
        invariant
            i <= bytes@.len(),
            r@ == nonzero(bytes@.take(i as int)),
        decreases bytes@.len() - i,
    {
        assert(bytes@.take(i + 1).drop_last() =~= bytes@.take(i as int));
        if bytes[i] != 0 {
            r.push(bytes[i]);
        }
        i += 1;
    }
    assert(bytes@.take(i as int) =~= bytes@);
    r
}

fn bytes_match(hay: &[u8], needle: &[u8], at: usize) -> (r: bool)
    requires
        at + needle@.len() <= hay@.len(),
    ensures
        r == bytes_at(hay@, needle@, at as int),
{
    let hn = hay.len();
    let mut k: usize = 0;
    while k < needle.len()
        invariant
            k <= needle@.len(),
            hn == hay@.len(),
            at + needle@.len() <= hay@.len(),
            forall|j: int| 0 <= j < k ==> hay@[at + j] == needle@[j],
        decreases needle@.len() - k,
    {
        assert(at + k < hn);
        if hay[at + k] != needle[k] {
            assert(hay@.subrange(at as int, at + needle@.len())[k as int] != needle@[k as int]);
            return false;
        }
        k += 1;
    }
    assert(hay@.subrange(at as int, at + needle@.len()) =~= needle@);
    true
}

fn find_bytes(hay: &[u8], needle: &[u8]) -> (r: Option<usize>)
    ensures
        match r {
            Some(i) => first_bytes_at(hay@, needle@, i as int),
            None => forall|j: int| !bytes_at(hay@, needle@, j),
        },
{
    if needle.len() > hay.len() {
        return None;
    }
    let last = hay.len() - needle.len();
    let mut i: usize = 0;
    loop
        invariant
            last + needle@.len() == hay@.len(),
            i <= last,
            forall|j: int| 0 <= j < i ==> !bytes_at(hay@, needle@, j),
        decreases last - i,
    {
        if bytes_match(hay, needle, i) {
            return Some(i);
        }
        if i == last {
            return None;
        }
        i += 1;
    }
}

fn is_base64url(b: u8) -> (r: bool)
    ensures
        r == base64url_byte(b),
{
    (0x30 <= b && b <= 0x39) || (0x41 <= b && b <= 0x5a) || (0x61 <= b && b <= 0x7a) || b == 0x2d
        || b == 0x5f
}

proof fn lemma_run(s: Seq<u8>, k: int)
    requires
        0 <= k <= s.len(),
        forall|j: int| 0 <= j < k ==> base64url_byte(#[trigger] s[j]),
        k == s.len() || !base64url_byte(s[k]),
    ensures
        base64url_run(s) == k,
    decreases k,
{
    if k > 0 {
        lemma_run(s.drop_first(), k - 1);
    }
}

fn payload_from(j: &Json) -> (r: Option<(u32, Option<String>, Option<String>)>)
    ensures
        match r {
            Some((v, a, k)) => payload_of(*j) == Some((v, crate::text::opt_view(a), crate::text::opt_view(k))),
            None => payload_of(*j) is None,
        },
{
    let (v, a, k) = match j {
        Json::Object(f) => (
            crate::json::get(f, &to_chars("v")),
            crate::json::get(f, &to_chars("apiUrl")),
            crate::json::get(f, &to_chars("key")),
        ),
        Json::Array(items) => {
            if items.len() != 3 {
                return None;
            }
            (Some(&items[0]), Some(&items[1]), Some(&items[2]))
        },
        _ => return None,
    };
    let v = match v {
        Some(Json::Number(n)) => match n.uint {
            Some(x) => if x <= 4294967295 {
                x as u32
            } else {
                return None;
            },
            None => return None,
        },
        _ => return None,
    };
    let a = match a {
        None => None,
        Some(Json::Null) => None,
        Some(Json::String(s)) => Some(s.clone()),
        _ => return None,
    };
    let k = match k {
        None => None,
        Some(Json::Null) => None,
        Some(Json::String(s)) => Some(s.clone()),
        _ => return None,
    };
    Some((v, a, k))
}

/// Reads a block, from the end of an executable or from the installer's
/// file. The search is on bytes: the tail of an executable is not UTF-8.
pub fn parse_blob(bytes: &[u8]) -> (r: Option<Provisioning>)
    ensures
        match r {
            Some(p) => blob_of(bytes@) == Some(model_of(p)),
            None => blob_of(bytes@) is None,
        },
{
    let cleaned = nonzero_bytes(bytes);
    let magic = MAGIC.as_bytes();
    let at = match find_bytes(&cleaned, magic) {
        Some(i) => i,
        None => return None,
    };
    proof {
        let j = choose|j: int| first_bytes_at(cleaned@, magic@, j);
        if j < at {
        } else if j > at {
        }
    }
    let n = cleaned.len();
    let start = at + magic.len();
    let mut end = start;
    while end < n && is_base64url(cleaned[end])
        invariant
            start <= end <= n == cleaned@.len(),
            forall|j: int| start <= j < end ==> base64url_byte(#[trigger] cleaned@[j]),
        decreases n - end,
    {
        end += 1;
    }
    let ghost rest = cleaned@.skip(start as int);
    proof {
        assert forall|j: int| 0 <= j < end - start implies base64url_byte(#[trigger] rest[j]) by {
            assert(rest[j] == cleaned@[start + j]);
        }
        if end < n {
            assert(rest[end - start] == cleaned@[end as int]);
        }
        lemma_run(rest, end - start);
    }
    if end == start {
        return None;
    }
    let mut encoded: Vec<u8> = Vec::new();
    let mut k = start;
    while k < end
        invariant
            start <= k <= end <= n == cleaned@.len(),
            encoded@ == cleaned@.subrange(start as int, k as int),
        decreases end - k,
    {
        encoded.push(cleaned[k]);
        k += 1;
        assert(encoded@ =~= cleaned@.subrange(start as int, k as int));
    }
    assert(encoded@ =~= rest.take(end - start));
    let decoded = match decode_url_safe(&encoded) {
        Some(d) => d,
        None => return None,
    };
    let j = match Json::parse(&decoded) {
        Some(j) => j,
        None => return None,
    };
    match payload_from(&j) {
        Some((v, Some(a), Some(k))) => if v == 1 {
            normalize(a.as_str(), k.as_str())
        } else {
            None
        },
        _ => None,
    }
}

// ── The persisted copy ──────────────────────────────────────────────────────

/// The persisted copy `{apiUrl, key}` (or `[apiUrl, key]`), both required
/// strings, then normalized.
pub open spec fn persisted_of(bytes: Seq<u8>) -> Option<ProvisioningModel> {
    match parsed_json(bytes) {
        Some(Json::Object(f)) => match (field(f@, "apiUrl"@), field(f@, "key"@)) {
            (Some(Json::String(a)), Some(Json::String(k))) => normalized(a@, k@),
            _ => None,
        },
        Some(Json::Array(items)) => if items@.len() == 2 {
            match (items@[0], items@[1]) {
                (Json::String(a), Json::String(k)) => normalized(a@, k@),
                _ => None,
            }
        } else {
            None
        },
        _ => None,
    }
}

/// Largest `provisioning.blob` that is read: the installer writes one block;
/// the wider bound tolerates a file dropped by hand, not anything at all.
pub const MAX_BLOB_FILE_BYTES: usize = 8192;

/// Reads the installer's `provisioning.blob`.
pub fn parse_blob_file(bytes: &[u8]) -> (r: Option<Provisioning>)
    ensures
        bytes@.len() > MAX_BLOB_FILE_BYTES ==> r is None,
        bytes@.len() <= MAX_BLOB_FILE_BYTES ==> match r {
            Some(p) => blob_of(bytes@) == Some(model_of(p)),
            None => blob_of(bytes@) is None,
        },
{
    if bytes.len() > MAX_BLOB_FILE_BYTES {
        None
    } else {
        parse_blob(bytes)
    }
}

/// Where the block at the end of a file of `length` bytes starts: the last
/// `FOOTER_SIZE` bytes, in a file longer than that.
pub fn footer_offset(length: u64) -> (r: Option<u64>)
    ensures
        r == if length <= FOOTER_SIZE {
            None::<u64>
        } else {
            Some((length - FOOTER_SIZE) as u64)
        },
{
    if length <= FOOTER_SIZE {
        None
    } else {
        Some(length - FOOTER_SIZE)
    }
}

/// Reads the persisted copy (also the file beside a macOS bundle).
pub fn parse_persisted(bytes: &[u8]) -> (r: Option<Provisioning>)
    ensures
        match r {
            Some(p) => persisted_of(bytes@) == Some(model_of(p)),
            None => persisted_of(bytes@) is None,
        },
{
    match Json::parse(bytes) {
        Some(Json::Object(f)) => match (
            crate::json::get(&f, &to_chars("apiUrl")),
            crate::json::get(&f, &to_chars("key")),
        ) {
            (Some(Json::String(a)), Some(Json::String(k))) => normalize(a.as_str(), k.as_str()),
            _ => None,
        },
        Some(Json::Array(items)) => {
            if items.len() != 2 {
                return None;
            }
            match (&items[0], &items[1]) {
                (Json::String(a), Json::String(k)) => normalize(a.as_str(), k.as_str()),
                _ => None,
            }
        },
        _ => None,
    }
}

/// The directory that also holds the `.app` bundle: the bundle's parent,
/// above `<bundle>.app/Contents/MacOS/<binary>`.
pub open spec fn sibling_dir_of(exe: Seq<char>) -> Option<Seq<char>> {
    match path_parent(exe) {
        Some(a) => match path_parent(a) {
            Some(b) => match path_parent(b) {
                Some(bundle) => path_parent(bundle),
                None => None,
            },
            None => None,
        },
        None => None,
    }
}

pub fn app_bundle_sibling_dir(exe: &str) -> (r: Option<String>)
    ensures
        match r {
            Some(d) => sibling_dir_of(exe@) == Some(d@),
            None => sibling_dir_of(exe@) is None,
        },
{
    let a = match parent(exe) {
        Some(a) => a,
        None => return None,
    };
    let b = match parent(a.as_str()) {
        Some(b) => b,
        None => return None,
    };
    let bundle = match parent(b.as_str()) {
        Some(bundle) => bundle,
        None => return None,
    };
    parent(bundle.as_str())
}

/// The source that wins, and whether it must be persisted: the fresh
/// sources (executable, installer file, file beside the bundle) before the
/// persisted copy, so that reinstalling from another server's installer
/// changes server.
pub fn pick_source(
    executable: Option<Provisioning>,
    installer: Option<Provisioning>,
    bundle_sibling: Option<Provisioning>,
    persisted: Option<Provisioning>,
) -> (r: Option<(Provisioning, ProvisioningSource, bool)>)
    ensures
        match r {
            None => executable is None && installer is None && bundle_sibling is None
                && persisted is None,
            Some((p, source, persist)) => if executable is Some {
                Some(p) == executable && source == ProvisioningSource::Executable && persist
            } else if installer is Some {
                Some(p) == installer && source == ProvisioningSource::Installer && persist
            } else if bundle_sibling is Some {
                Some(p) == bundle_sibling && source == ProvisioningSource::Installer && persist
            } else {
                Some(p) == persisted && source == ProvisioningSource::Persisted && !persist
            },
        },
{
    if let Some(p) = executable {
        return Some((p, ProvisioningSource::Executable, true));
    }
    if let Some(p) = installer {
        return Some((p, ProvisioningSource::Installer, true));
    }
    if let Some(p) = bundle_sibling {
        return Some((p, ProvisioningSource::Installer, true));
    }
    match persisted {
        Some(p) => Some((p, ProvisioningSource::Persisted, false)),
        None => None,
    }
}

/// The pairing a code typed by the player asks for, on the built-in panel.
pub fn pairing_candidate(base_url: &str, code: &str) -> (r: Result<Provisioning, AppError>)
    ensures
        match r {
            Ok(p) => normalized(base_url@, code@) == Some(model_of(p)),
            Err(e) => normalized(base_url@, code@) is None && is_error(
                e,
                "provisioning_invalid"@,
                "the pairing code is not a valid client key"@,
            ),
        },
{
    match normalize(base_url, code) {
        Some(p) => Ok(p),
        None => Err(
            AppError::new("provisioning_invalid", "the pairing code is not a valid client key"),
        ),
    }
}

/// What the interface needs to choose between the launcher and the pairing
/// screen.
pub struct ProvisioningStatus {
    pub provisioned: bool,
    pub source: Option<ProvisioningSource>,
    /// The panel the launcher talks to (without the key).
    pub api_url: String,
    /// The client's key, shown in the settings.
    pub key: Option<String>,
}

impl ProvisioningStatus {
    pub fn of(
        provisioned: bool,
        source: Option<ProvisioningSource>,
        api_url: String,
        key: String,
    ) -> (r: ProvisioningStatus)
        ensures
            r.provisioned == provisioned,
            r.source == source,
            r.api_url == api_url,
            r.key == (if provisioned {
                Some(key)
            } else {
                None::<String>
            }),
    {
        ProvisioningStatus {
            provisioned,
            source,
            api_url,
            key: if provisioned {
                Some(key)
            } else {
                None
            },
        }
    }
}

// ── Laws ────────────────────────────────────────────────────────────────────

/// A block never points the launcher at a panel in plain HTTP, nor at a key
/// that could leave its URL path segment.
pub proof fn law_blob_is_https_with_a_safe_key(bytes: Seq<u8>)
    ensures
        blob_of(bytes) matches Some(p) ==> spec_starts_with(p.api_url, "https://"@) && key_ok(
            p.key,
        ),
{
}


/// The bytes as a UTF-16LE writer puts them: each followed by a zero byte.
pub open spec fn utf16le_of(bytes: Seq<u8>) -> Seq<u8>
    decreases bytes.len(),
{
    if bytes.len() == 0 {
        bytes
    } else {
        utf16le_of(bytes.drop_last()) + seq![bytes.last(), 0u8]
    }
}

proof fn lemma_widened_nonzero(bytes: Seq<u8>)
    ensures
        nonzero(utf16le_of(bytes)) == nonzero(bytes),
    decreases bytes.len(),
{
    if bytes.len() > 0 {
        let b = bytes.drop_last();
        let u = utf16le_of(bytes);
        lemma_widened_nonzero(b);
        assert(u.last() == 0);
        assert(u.drop_last() =~= utf16le_of(b).push(bytes.last()));
        assert(u.drop_last().drop_last() =~= utf16le_of(b));
        assert(u.drop_last().last() == bytes.last());
        assert(nonzero(u) == nonzero(u.drop_last()));
        if bytes.last() == 0 {
            assert(nonzero(u.drop_last()) == nonzero(utf16le_of(b)));
        } else {
            assert(nonzero(u.drop_last()) == nonzero(utf16le_of(b)).push(bytes.last()));
        }
    } else {
        assert(utf16le_of(bytes) == bytes);
    }
}

/// A block written in UTF-16LE reads as the same block: zero bytes are
/// skipped before the search.
pub proof fn law_utf16le_blob_reads_the_same(bytes: Seq<u8>)
    ensures
        blob_of(utf16le_of(bytes)) == blob_of(bytes),
{
    lemma_widened_nonzero(bytes);
}

} // verus!
