//! Skins: the local skin library, the checks on the textures the launcher
//! handles, and the requests and answers of the Minecraft Services calls that
//! change the skin worn by an account.
//!
//! The library lives in the launcher directory (`skins/library.json` plus one
//! PNG per entry). Ids are generated here (hex), so an id coming back from the
//! interface that is not one cannot be turned into a path.

use vstd::prelude::*;

use crate::accounts::{AccountKind, AccountSummary};
use crate::desktop::be_u32;
use crate::error::{is_error, truncate, truncated, AppError};
use crate::models::{is_web_url, lemma_insert_gt, sort_gt, web_url};
use crate::text::{
    copy_opt, dec_chars, dec_seq, eq_chars, from_chars, hex_chars, hex_seq, lemma_radix_injective,
    lower_seq, opt_view, push_all, push_str, remove_controls, spec_is_ascii_alphanumeric,
    spec_is_control, str_opt, take_chars, take_prefix, to_ascii_lowercase, to_chars, trim,
    trim_chars, without_controls,
};

verus! {

/// A Minecraft skin is a few kilobytes; anything larger is not one.
pub const MAX_SKIN_BYTES: usize = 524288;
pub const MAX_LIBRARY_ENTRIES: usize = 200;
/// Longest name kept for a library skin, in characters.
pub const MAX_NAME_CHARS: usize = 40;

/// One entry of `library.json`.
pub struct LibrarySkin {
    pub id: String,
    pub name: String,
    /// `classic` or `slim`.
    pub variant: String,
    /// The cape worn with this skin, `None` meaning "no cape".
    pub cape_id: Option<String>,
    pub added_at: u64,
}

/// A library entry with its texture, for the interface.
pub struct LibraryEntry {
    pub id: String,
    pub name: String,
    pub variant: String,
    pub cape_id: Option<String>,
    pub added_at: u64,
    /// `data:image/png;base64,...`
    pub texture: String,
}

impl LibraryEntry {
    pub fn new(skin: LibrarySkin, texture: String) -> (r: LibraryEntry)
        ensures
            r.id == skin.id,
            r.name == skin.name,
            r.variant == skin.variant,
            r.cape_id == skin.cape_id,
            r.added_at == skin.added_at,
            r.texture == texture,
    {
        LibraryEntry {
            id: skin.id,
            name: skin.name,
            variant: skin.variant,
            cape_id: skin.cape_id,
            added_at: skin.added_at,
            texture,
        }
    }
}

// ── Ids and names ───────────────────────────────────────────────────────────

/// An id this launcher could have generated: 1 to 32 ASCII letters or digits.
pub open spec fn id_ok(id: Seq<char>) -> bool {
    0 < id.len() <= 32 && forall|i: int| 0 <= i < id.len() ==> spec_is_ascii_alphanumeric(id[i])
}

fn all_alphanumeric(v: &[char], dash: bool) -> (r: bool)
    ensures
        r == forall|i: int|
            0 <= i < v@.len() ==> spec_is_ascii_alphanumeric(v@[i]) || (dash && v@[i] == '-'),
{
    let mut i: usize = 0;
    while i < v.len()
        invariant
            i <= v@.len(),
            forall|j: int|
                0 <= j < i ==> spec_is_ascii_alphanumeric(v@[j]) || (dash && v@[j] == '-'),
        decreases v@.len() - i,
    {
        if !(crate::text::is_ascii_alphanumeric(v[i]) || (dash && v[i] == '-')) {
            return false;
        }
        i += 1;
    }
    true
}

/// Refuses an id that this launcher could not have generated.
pub fn check_id(id: &str) -> (r: Result<(), AppError>)
    ensures
        r is Ok <==> id_ok(id@),
        r matches Err(e) ==> is_error(e, "skin_unknown"@, "invalid skin id"@),
{
    let v = to_chars(id);
    if v.len() > 0 && v.len() <= 32 && all_alphanumeric(&v, false) {
        return Ok(());
    }
    Err(AppError::new("skin_unknown", "invalid skin id"))
}

/// The id made of the hex digits of `base`, then those of `suffix` unless it is 0.
pub open spec fn id_candidate(base: u64, suffix: nat) -> Seq<char> {
    if suffix == 0 {
        hex_seq(base as nat)
    } else {
        hex_seq(base as nat) + hex_seq(suffix)
    }
}

pub open spec fn ids_of(library: Seq<LibrarySkin>) -> Seq<Seq<char>> {
    library.map_values(|s: LibrarySkin| s.id@)
}

proof fn lemma_candidates_differ(base: u64, a: nat, b: nat)
    requires
        a != b,
    ensures
        id_candidate(base, a) != id_candidate(base, b),
{
    let h = hex_seq(base as nat);
    if a != 0 && b != 0 {
        if id_candidate(base, a) == id_candidate(base, b) {
            assert((h + hex_seq(a)).skip(h.len() as int) =~= hex_seq(a));
            assert((h + hex_seq(b)).skip(h.len() as int) =~= hex_seq(b));
            lemma_radix_injective(a, b, 16);
        }
    } else if a == 0 {
        crate::text::lemma_radix_nonempty(b, 16);
    } else {
        crate::text::lemma_radix_nonempty(a, 16);
    }
}

fn id_taken(library: &[LibrarySkin], id: &[char]) -> (r: Option<usize>)
    ensures
        match r {
            Some(j) => j < library@.len() && library@[j as int].id@ == id@ && forall|k: int|
                0 <= k < j ==> library@[k].id@ != id@,
            None => !ids_of(library@).contains(id@) && forall|k: int|
                0 <= k < library@.len() ==> library@[k].id@ != id@,
        },
{
    let mut i: usize = 0;
    while i < library.len()
        invariant
            i <= library@.len(),
            forall|j: int| 0 <= j < i ==> library@[j].id@ != id@,
        decreases library@.len() - i,
    {
        if eq_chars(&to_chars(library[i].id.as_str()), id) {
            return Some(i);
        }
        i += 1;
    }
    proof {
        if ids_of(library@).contains(id@) {
            let j = choose|j: int| 0 <= j < ids_of(library@).len() && ids_of(library@)[j] == id@;
            assert(library@[j].id@ == id@);
        }
    }
    None
}

/// A fresh library id: the hex digits of `base` (the current time), followed
/// by the first hex suffix that makes it unused.
pub fn new_id(existing: &[LibrarySkin], base: u64) -> (r: String)
    ensures
        !ids_of(existing@).contains(r@),
        exists|k: nat|
            r@ == id_candidate(base, k) && forall|j: nat|
                j < k ==> ids_of(existing@).contains(#[trigger] id_candidate(base, j)),
{
    let head = hex_chars(base);
    let n = existing.len();
    let ghost mut used: Set<int> = Set::empty();
    let mut suffix: u64 = 0;
    loop
        invariant
            head@ == hex_seq(base as nat),
            n == existing@.len(),
            suffix <= n,
            used.finite(),
            used.len() == suffix,
            forall|i: int| used.contains(i) ==> 0 <= i < n,
            forall|i: int|
                used.contains(i) ==> exists|j: nat|
                    j < suffix && existing@[i].id@ == #[trigger] id_candidate(base, j),
            forall|j: nat| j < suffix ==> ids_of(existing@).contains(#[trigger] id_candidate(base, j)),
        decreases n - suffix,
    {
        let mut id = head.clone();
        if suffix != 0 {
            push_all(&mut id, &hex_chars(suffix));
        }
        assert(id@ == id_candidate(base, suffix as nat));
        match id_taken(existing, &id) {
            None => {
                return from_chars(&id);
            },
            Some(at) => {
                proof {
                    if used.contains(at as int) {
                        let j = choose|j: nat|
                            j < suffix && existing@[at as int].id@ == #[trigger] id_candidate(
                                base,
                                j,
                            );
                        lemma_candidates_differ(base, j, suffix as nat);
                    }
                    assert(ids_of(existing@)[at as int] == id@);
                    let old_used = used;
                    used = used.insert(at as int);
                    vstd::set::axiom_set_insert_len(old_used, at as int);
                    assert(used.len() == suffix + 1);
                    assert(used.subset_of(vstd::set_lib::set_int_range(0, n as int)));
                    vstd::set_lib::lemma_int_range(0, n as int);
                    vstd::set_lib::lemma_len_subset(used, vstd::set_lib::set_int_range(0, n as int));
                    assert forall|i: int| used.contains(i) implies exists|j: nat|
                        j < suffix + 1 && existing@[i].id@ == #[trigger] id_candidate(base, j) by {
                        if i == at as int {
                            assert(existing@[i].id@ == id_candidate(base, suffix as nat));
                        } else {
                            assert(old_used.contains(i));
                        }
                    }
                }
                assert(suffix + 1 <= n);
                suffix = suffix + 1;
            },
        }
    }
}

/// A library name: trimmed, without control characters, at most 40
/// characters; `Skin` when nothing is left.
pub open spec fn cleaned_name(name: Seq<char>) -> Seq<char> {
    let c = take_chars(without_controls(trim(name)), 40);
    if c.len() == 0 {
        "Skin"@
    } else {
        c
    }
}

pub fn clean_name(name: &str) -> (r: String)
    ensures
        r@ == cleaned_name(name@),
{
    let c = take_prefix(&remove_controls(&trim_chars(&to_chars(name))), MAX_NAME_CHARS);
    if c.len() == 0 {
        "Skin".to_owned()
    } else {
        from_chars(&c)
    }
}

/// A cape id Mojang could have issued (hex or UUID): 1 to 64 ASCII letters,
/// digits or dashes.
pub open spec fn cape_id_ok(id: Seq<char>) -> bool {
    0 < id.len() <= 64 && forall|i: int|
        0 <= i < id.len() ==> spec_is_ascii_alphanumeric(id[i]) || id[i] == '-'
}

/// Cape ids end up in a file name and a URL: anything else is "no cape".
pub fn clean_cape_id(cape_id: Option<String>) -> (r: Option<String>)
    ensures
        match cape_id {
            Some(id) => if cape_id_ok(id@) {
                r == Some(id)
            } else {
                r is None
            },
            None => r is None,
        },
{
    match cape_id {
        Some(id) => {
            let v = to_chars(id.as_str());
            if v.len() > 0 && v.len() <= 64 && all_alphanumeric(&v, true) {
                Some(id)
            } else {
                None
            }
        },
        None => None,
    }
}

/// `slim` for `slim` or `alex` (any case, trimmed), `classic` otherwise.
pub open spec fn normalized_variant(variant: Option<Seq<char>>) -> Seq<char> {
    match variant {
        Some(v) => {
            let w = lower_seq(trim(v));
            if w == "slim"@ || w == "alex"@ {
                "slim"@
            } else {
                "classic"@
            }
        },
        None => "classic"@,
    }
}

pub fn normalize_variant(variant: Option<&str>) -> (r: String)
    ensures
        r@ == normalized_variant(
            match variant {
                Some(v) => Some(v@),
                None => None,
            },
        ),
{
    match variant {
        Some(v) => {
            let w = to_ascii_lowercase(&trim_chars(&to_chars(v)));
            if eq_chars(&w, &to_chars("slim")) || eq_chars(&w, &to_chars("alex")) {
                "slim".to_owned()
            } else {
                "classic".to_owned()
            }
        },
        None => "classic".to_owned(),
    }
}

/// The viewer model for a Microsoft skin variant: `SLIM` → `slim`,
/// `CLASSIC` → `default`, anything else → `auto`.
pub open spec fn viewer_model(variant: Option<Seq<char>>) -> Seq<char> {
    match variant {
        Some(v) => if v == "SLIM"@ {
            "slim"@
        } else if v == "CLASSIC"@ {
            "default"@
        } else {
            "auto"@
        },
        None => "auto"@,
    }
}

pub fn skin_model(variant: Option<&str>) -> (r: String)
    ensures
        r@ == viewer_model(
            match variant {
                Some(v) => Some(v@),
                None => None,
            },
        ),
{
    match variant {
        Some(v) => {
            let c = to_chars(v);
            if eq_chars(&c, &to_chars("SLIM")) {
                "slim".to_owned()
            } else if eq_chars(&c, &to_chars("CLASSIC")) {
                "default".to_owned()
            } else {
                "auto".to_owned()
            }
        },
        None => "auto".to_owned(),
    }
}

/// The library variant of the skin an account wears: `slim` for `SLIM`,
/// `classic` otherwise.
pub fn worn_variant(variant: Option<&str>) -> (r: &'static str)
    ensures
        r@ == (match variant {
            Some(v) => if v@ == "SLIM"@ {
                "slim"@
            } else {
                "classic"@
            },
            None => "classic"@,
        }),
{
    match variant {
        Some(v) => if eq_chars(&to_chars(v), &to_chars("SLIM")) {
            "slim"
        } else {
            "classic"
        },
        None => "classic",
    }
}

// ── What the interface shows of an account's skin ──────────────────────────

/// The textures of an account, for the skin viewer.
pub struct SkinData {
    pub uuid: String,
    pub name: String,
    /// `data:image/png;base64,...`, or `None` for the default skin.
    pub skin: Option<String>,
    pub cape: Option<String>,
    /// `default`, `slim` or `auto`.
    pub model: String,
    pub cape_alias: Option<String>,
    pub source: AccountKind,
    /// Whether the skin can be changed from the launcher.
    pub can_change: bool,
}

/// Microsoft accounts have their textures downloaded; AZauth accounts carry
/// their skin; the others show the default skin.
pub fn textures_fetched(kind: AccountKind) -> (r: bool)
    ensures
        r == (kind == AccountKind::Microsoft),
{
    kind == AccountKind::Microsoft
}

impl SkinData {
    /// What the viewer shows of `summary`, with the textures downloaded for
    /// a Microsoft account (`fetched_skin`, `fetched_cape`, as data URLs).
    pub fn of(summary: &AccountSummary, fetched_skin: Option<String>, fetched_cape: Option<String>) -> (r:
        SkinData)
        ensures
            r.uuid@ == summary.uuid@,
            r.name@ == summary.name@,
            r.model@ == viewer_model(opt_view(summary.skin_variant)),
            opt_view(r.cape_alias) == opt_view(summary.cape_alias),
            r.source == summary.kind,
            r.can_change == (summary.kind == AccountKind::Microsoft),
            summary.kind == AccountKind::Microsoft ==> r.skin == fetched_skin && r.cape
                == fetched_cape,
            summary.kind == AccountKind::AzAuth ==> opt_view(r.skin) == opt_view(
                summary.skin_data_url,
            ) && r.cape is None,
            (summary.kind == AccountKind::Offline || summary.kind == AccountKind::Yggdrasil) ==> r.skin is None
                && r.cape is None,
    {
        let model = match &summary.skin_variant {
            Some(v) => skin_model(Some(v.as_str())),
            None => skin_model(None),
        };
        let (skin, cape) = match summary.kind {
            AccountKind::Microsoft => (fetched_skin, fetched_cape),
            AccountKind::AzAuth => (copy_opt(&summary.skin_data_url), None),
            AccountKind::Offline | AccountKind::Yggdrasil => (None, None),
        };
        SkinData {
            uuid: summary.uuid.clone(),
            name: summary.name.clone(),
            skin,
            cape,
            model,
            cape_alias: copy_opt(&summary.cape_alias),
            source: summary.kind,
            can_change: summary.kind == AccountKind::Microsoft,
        }
    }
}

/// A cape the account owns, for the picker.
pub struct CapeOption {
    pub id: String,
    pub alias: Option<String>,
    /// `data:image/png;base64,...`
    pub texture: String,
    /// The account wears it now.
    pub active: bool,
}

impl CapeOption {
    /// `state` is the cape's state on the profile; `ACTIVE` is the worn one.
    pub fn of(id: String, alias: Option<String>, texture: String, state: Option<&str>) -> (r: CapeOption)
        ensures
            r.id == id,
            r.alias == alias,
            r.texture == texture,
            r.active == (str_opt(state) == Some("ACTIVE"@)),
    {
        let active = match state {
            Some(s) => eq_chars(&to_chars(s), &to_chars("ACTIVE")),
            None => false,
        };
        CapeOption { id, alias, texture, active }
    }
}

/// Only Microsoft accounts change their skin from the launcher.
pub fn check_skin_changeable(kind: AccountKind) -> (r: Result<(), AppError>)
    ensures
        kind == AccountKind::Microsoft <==> r is Ok,
        r matches Err(e) ==> is_error(
            e,
            "skin_not_supported"@,
            "only Microsoft accounts can change their skin from the launcher"@,
        ),
{
    if kind != AccountKind::Microsoft {
        return Err(
            AppError::new(
                "skin_not_supported",
                "only Microsoft accounts can change their skin from the launcher",
            ),
        );
    }
    Ok(())
}

/// Applying a library skin calls Mojang about the cape only when the cape
/// saved with it is not the one worn.
pub fn cape_change_needed(worn: &Option<String>, wanted: &Option<String>) -> (r: bool)
    ensures
        r == (opt_view(*worn) != opt_view(*wanted)),
{
    match (worn, wanted) {
        (Some(a), Some(b)) => !eq_chars(&to_chars(a.as_str()), &to_chars(b.as_str())),
        (None, None) => false,
        _ => true,
    }
}

// ── The texture cache ───────────────────────────────────────────────────────

/// The cached texture and the address it came from:
/// `<uuid>-<kind>.png` and `<uuid>-<kind>.url` in the cache directory.
pub fn texture_cache_files(cache_dir: &str, uuid: &str, kind: &str) -> (r: (String, String))
    ensures
        r.0@ == crate::paths::path_join(cache_dir@, uuid@ + "-"@ + kind@ + ".png"@),
        r.1@ == crate::paths::path_join(cache_dir@, uuid@ + "-"@ + kind@ + ".url"@),
{
    let mut stem = to_chars(uuid);
    push_str(&mut stem, "-");
    push_str(&mut stem, kind);
    let mut png = stem.clone();
    push_str(&mut png, ".png");
    let mut url = stem;
    push_str(&mut url, ".url");
    let png = from_chars(&png);
    let url = from_chars(&url);
    (crate::paths::join(cache_dir, png.as_str()), crate::paths::join(cache_dir, url.as_str()))
}

/// A cached texture is used when it came from the same address and is not
/// empty, unless a download is forced.
pub fn cached_texture_usable(force: bool, cached_url: &str, url: &str, cached_len: usize) -> (r: bool)
    ensures
        r == (!force && cached_url@ == url@ && cached_len > 0),
{
    !force && eq_chars(&to_chars(cached_url), &to_chars(url)) && cached_len > 0
}

// ── Textures ────────────────────────────────────────────────────────────────

/// The eight bytes every PNG file starts with.
pub open spec fn png_signature() -> Seq<u8> {
    seq![0x89u8, 0x50u8, 0x4eu8, 0x47u8, 0x0du8, 0x0au8, 0x1au8, 0x0au8]
}

pub open spec fn spec_is_png(bytes: Seq<u8>) -> bool {
    bytes.len() >= 8 && bytes.take(8) == png_signature()
}

pub fn is_png(bytes: &[u8]) -> (r: bool)
    ensures
        r == spec_is_png(bytes@),
{
    if bytes.len() < 8 {
        return false;
    }
    let magic: [u8; 8] = [0x89, 0x50, 0x4e, 0x47, 0x0d, 0x0a, 0x1a, 0x0a];
    assert(magic@ =~= png_signature());
    let mut i: usize = 0;
    while i < 8
        invariant
            i <= 8,
            bytes@.len() >= 8,
            magic@ == png_signature(),
            forall|j: int| 0 <= j < i ==> bytes@[j] == png_signature()[j],
        decreases 8 - i,
    {
        if bytes[i] != magic[i] {
            assert(bytes@.take(8)[i as int] != png_signature()[i as int]);
            return false;
        }
        i += 1;
    }
    assert(bytes@.take(8) =~= png_signature());
    true
}

/// Width and height from the `IHDR` chunk a PNG starts with.
pub open spec fn png_size_of(bytes: Seq<u8>) -> Option<(u32, u32)> {
    if !spec_is_png(bytes) || bytes.len() < 24 || bytes.subrange(12, 16) != seq![
        0x49u8,
        0x48u8,
        0x44u8,
        0x52u8,
    ] {
        None
    } else {
        Some((be_u32(bytes, 16), be_u32(bytes, 20)))
    }
}

pub fn png_size(bytes: &[u8]) -> (r: Option<(u32, u32)>)
    ensures
        r == png_size_of(bytes@),
{
    if !is_png(bytes) || bytes.len() < 24 {
        return None;
    }
    let ihdr = bytes[12] == 0x49 && bytes[13] == 0x48 && bytes[14] == 0x44 && bytes[15] == 0x52;
    if !ihdr {
        assert(bytes@.subrange(12, 16) != seq![0x49u8, 0x48u8, 0x44u8, 0x52u8]) by {
            if bytes@.subrange(12, 16) == seq![0x49u8, 0x48u8, 0x44u8, 0x52u8] {
                assert(bytes@.subrange(12, 16)[0] == bytes@[12]);
                assert(bytes@.subrange(12, 16)[1] == bytes@[13]);
                assert(bytes@.subrange(12, 16)[2] == bytes@[14]);
                assert(bytes@.subrange(12, 16)[3] == bytes@[15]);
            }
        }
        return None;
    }
    assert(bytes@.subrange(12, 16) =~= seq![0x49u8, 0x48u8, 0x44u8, 0x52u8]);
    Some((crate::desktop::read_be_u32(bytes, 16), crate::desktop::read_be_u32(bytes, 20)))
}

/// A PNG small enough, in one of the two skin layouts Minecraft reads: 64×64,
/// and the legacy 64×32.
pub open spec fn skin_png_ok(bytes: Seq<u8>) -> bool {
    bytes.len() <= MAX_SKIN_BYTES && (png_size_of(bytes) == Some((64u32, 64u32)) || png_size_of(
        bytes,
    ) == Some((64u32, 32u32)))
}

/// Accepts the two skin layouts Minecraft reads: 64×64, and the legacy 64×32.
pub fn validate_skin_png(bytes: &[u8]) -> (r: Result<(), AppError>)
    ensures
        r is Ok <==> skin_png_ok(bytes@),
        r matches Err(e) ==> e.code@ == "skin_invalid"@ && e.details is None && e.message@ == (
        if bytes@.len() > MAX_SKIN_BYTES {
            "this file is too large to be a Minecraft skin"@
        } else {
            match png_size_of(bytes@) {
                Some((w, h)) => "a skin must be 64×64 (or 64×32), this one is "@ + dec_seq(w as nat)
                    + "×"@ + dec_seq(h as nat),
                None => "this file is not a PNG image"@,
            }
        }),
{
    if bytes.len() > MAX_SKIN_BYTES {
        return Err(AppError::new("skin_invalid", "this file is too large to be a Minecraft skin"));
    }
    match png_size(bytes) {
        Some((width, height)) => {
            if width == 64 && (height == 64 || height == 32) {
                Ok(())
            } else {
                let mut m = to_chars("a skin must be 64×64 (or 64×32), this one is ");
                push_all(&mut m, &dec_chars(width as u64));
                push_str(&mut m, "×");
                push_all(&mut m, &dec_chars(height as u64));
                let message = from_chars(&m);
                Err(AppError::new("skin_invalid", message.as_str()))
            }
        },
        None => Err(AppError::new("skin_invalid", "this file is not a PNG image")),
    }
}

/// What the standard base64 engine writes for `bytes`.
pub uninterp spec fn base64_standard(bytes: Seq<u8>) -> Seq<char>;

/// What the standard base64 engine reads from `text`; `None` when it refuses it.
pub uninterp spec fn base64_standard_decoded(text: Seq<char>) -> Option<Seq<u8>>;

/// `base64::engine::general_purpose::STANDARD.encode`.
#[verifier::external_body]
fn encode_standard(bytes: &[u8]) -> (r: String)
    ensures
        r@ == base64_standard(bytes@),
{
    base64::Engine::encode(&base64::engine::general_purpose::STANDARD, bytes)
}

/// `base64::engine::general_purpose::STANDARD.decode`.
#[verifier::external_body]
fn decode_standard(text: &str) -> (r: Option<Vec<u8>>)
    ensures
        match r {
            Some(v) => base64_standard_decoded(text@) == Some(v@),
            None => base64_standard_decoded(text@) is None,
        },
{
    base64::Engine::decode(&base64::engine::general_purpose::STANDARD, text).ok()
}

/// A PNG texture as a `data:` URL.
pub fn data_url(bytes: &[u8]) -> (r: String)
    ensures
        r@ == "data:image/png;base64,"@ + base64_standard(bytes@),
{
    let mut v = to_chars("data:image/png;base64,");
    push_str(&mut v, encode_standard(bytes).as_str());
    from_chars(&v)
}

/// The PNG a `data:` URL carries after its first `base64,`; `None` when the
/// marker is missing, the base64 is refused or the bytes are not a PNG.
pub open spec fn data_url_png(value: Seq<char>) -> Option<Seq<u8>> {
    let marker = "base64,"@;
    if exists|i: int| crate::text::occurs_at(value, marker, i) {
        let i = choose|i: int|
            crate::text::first_occurrence_from(value, marker, 0, i);
        match base64_standard_decoded(value.skip(i + marker.len())) {
            Some(b) => if spec_is_png(b) {
                Some(b)
            } else {
                None
            },
            None => None,
        }
    } else {
        None
    }
}

pub fn decode_data_url(value: &str) -> (r: Option<Vec<u8>>)
    ensures
        match r {
            Some(b) => data_url_png(value@) == Some(b@),
            None => data_url_png(value@) is None,
        },
{
    let v = to_chars(value);
    let marker = to_chars("base64,");
    match crate::text::find(&v, &marker) {
        None => None,
        Some(i) => {
            proof {
                let j = choose|j: int| crate::text::first_occurrence_from(value@, "base64,"@, 0, j);
                crate::text::lemma_first_occurrence_unique(value@, "base64,"@, 0, i as int, j);
            }
            let n = v.len();
            assert(i + marker@.len() <= n);
            let rest = crate::text::slice(&v, i + marker.len(), n);
            assert(rest@ =~= value@.skip(i + "base64,"@.len()));
            let text = from_chars(&rest);
            match decode_standard(text.as_str()) {
                Some(bytes) => if is_png(&bytes) {
                    Some(bytes)
                } else {
                    None
                },
                None => None,
            }
        },
    }
}

// ── Minecraft Services requests and answers ─────────────────────────────────

/// The text that precedes the PNG in the upload body.
pub open spec fn multipart_head(boundary: Seq<char>, variant: Seq<char>) -> Seq<char> {
    "--"@ + boundary + "\r\nContent-Disposition: form-data; name=\"variant\"\r\n\r\n"@ + variant
        + "\r\n--"@ + boundary
        + "\r\nContent-Disposition: form-data; name=\"file\"; filename=\"skin.png\"\r\nContent-Type: image/png\r\n\r\n"@
}

/// The text that follows the PNG in the upload body.
pub open spec fn multipart_tail(boundary: Seq<char>) -> Seq<char> {
    "\r\n--"@ + boundary + "--\r\n"@
}

fn push_bytes(out: &mut Vec<u8>, bytes: &[u8])
    ensures
        final(out)@ == old(out)@ + bytes@,
{
    let ghost start = out@;
    let mut i: usize = 0;
    while i < bytes.len()
        invariant
            i <= bytes@.len(),
            out@ == start + bytes@.take(i as int),
        decreases bytes@.len() - i,
    {
        out.push(bytes[i]);
        i += 1;
        assert(out@ =~= start + bytes@.take(i as int));
    }
    assert(bytes@.take(i as int) =~= bytes@);
}

/// The `multipart/form-data` body of a skin upload: the `variant` field, then
/// the PNG as `file` (`skin.png`, `image/png`).
pub fn multipart_body(boundary: &str, variant: &str, png: &[u8]) -> (r: Vec<u8>)
    ensures
        r@ == vstd::utf8::encode_utf8(multipart_head(boundary@, variant@)) + png@
            + vstd::utf8::encode_utf8(multipart_tail(boundary@)),
{
    let mut head = to_chars("--");
    push_str(&mut head, boundary);
    push_str(&mut head, "\r\nContent-Disposition: form-data; name=\"variant\"\r\n\r\n");
    push_str(&mut head, variant);
    push_str(&mut head, "\r\n--");
    push_str(&mut head, boundary);
    push_str(
        &mut head,
        "\r\nContent-Disposition: form-data; name=\"file\"; filename=\"skin.png\"\r\nContent-Type: image/png\r\n\r\n",
    );
    assert(head@ =~= multipart_head(boundary@, variant@));
    let mut tail = to_chars("\r\n--");
    push_str(&mut tail, boundary);
    push_str(&mut tail, "--\r\n");
    assert(tail@ =~= multipart_tail(boundary@));
    let head_text = from_chars(&head);
    let tail_text = from_chars(&tail);
    let mut body: Vec<u8> = Vec::new();
    push_bytes(&mut body, head_text.as_str().as_bytes());
    push_bytes(&mut body, png);
    push_bytes(&mut body, tail_text.as_str().as_bytes());
    body
}

/// Code and message of a refused skin change, by HTTP status.
pub open spec fn refusal_of(status: u16) -> (Seq<char>, Seq<char>) {
    if status == 401 || status == 403 {
        ("auth_expired"@, "the Minecraft session was refused"@)
    } else if status == 413 {
        ("skin_invalid"@, "the skin file is too large"@)
    } else if status == 415 || status == 400 {
        ("skin_rejected"@, "Minecraft refused this skin file"@)
    } else if status == 429 {
        ("api_rate_limited"@, "too many skin changes, wait a moment"@)
    } else if status >= 500 {
        ("api_unavailable"@, "the Minecraft servers are unavailable"@)
    } else {
        ("api_invalid"@, "unexpected status "@ + dec_seq(status as nat))
    }
}

/// The error for a Minecraft Services answer that is not a success, with the
/// first 300 characters of its body as details, and whether the session was
/// refused (the account then needs a new sign-in).
pub fn profile_refusal(status: u16, body: &str) -> (r: (AppError, bool))
    ensures
        r.0.code@ == refusal_of(status).0,
        r.0.message@ == refusal_of(status).1,
        r.0.details matches Some(d) && d@ == truncated(body@, 300),
        r.1 == (status == 401 || status == 403),
{
    let error = if status == 401 || status == 403 {
        AppError::new("auth_expired", "the Minecraft session was refused")
    } else if status == 413 {
        AppError::new("skin_invalid", "the skin file is too large")
    } else if status == 415 || status == 400 {
        AppError::new("skin_rejected", "Minecraft refused this skin file")
    } else if status == 429 {
        AppError::new("api_rate_limited", "too many skin changes, wait a moment")
    } else if status >= 500 {
        AppError::new("api_unavailable", "the Minecraft servers are unavailable")
    } else {
        let mut m = to_chars("unexpected status ");
        push_all(&mut m, &dec_chars(status as u64));
        let message = from_chars(&m);
        AppError::new("api_invalid", message.as_str())
    };
    let details = truncate(body, 300);
    (error.with_details(details.as_str()), status == 401 || status == 403)
}

// ── The library ─────────────────────────────────────────────────────────────

/// `a` is listed after `b`: the library shows the newest first.
pub open spec fn older() -> spec_fn(LibraryEntry, LibraryEntry) -> bool {
    |a: LibraryEntry, b: LibraryEntry| a.added_at < b.added_at
}

/// The entries newest first; entries added at the same time keep their order.
pub fn newest_first(entries: Vec<LibraryEntry>) -> (r: Vec<LibraryEntry>)
    ensures
        r@ == sort_gt(entries@, older()),
{
    let ghost all = entries@;
    let mut rest = entries;
    let mut out: Vec<LibraryEntry> = Vec::new();
    let n = rest.len();
    let mut i: usize = 0;
    while i < n
        invariant
            i <= n == all.len(),
            rest@ == all.skip(i as int),
            out@ == sort_gt(all.take(i as int), older()),
        decreases n - i,
    {
        assert(all.take(i + 1).drop_last() =~= all.take(i as int));
        assert(all.skip(i + 1) =~= all.skip(i as int).remove(0));
        let x = rest.remove(0);
        let mut pos = out.len();
        while pos > 0 && out[pos - 1].added_at < x.added_at
            invariant
                pos <= out@.len(),
                forall|j: int| pos <= j < out@.len() ==> (#[trigger] out@[j]).added_at < x.added_at,
            decreases pos,
        {
            pos -= 1;
        }
        proof {
            lemma_insert_gt(out@, x, older(), pos as int);
        }
        let ghost before = out@;
        out.insert(pos, x);
        assert(out@ =~= before.take(pos as int) + seq![x] + before.skip(pos as int));
        i += 1;
    }
    assert(all.take(i as int) =~= all);
    out
}

/// The index of the first entry with this id.
pub open spec fn index_of_id(library: Seq<LibrarySkin>, id: Seq<char>) -> int
    decreases library.len(),
{
    if library.len() == 0 {
        -1
    } else if library[0].id@ == id {
        0
    } else {
        let k = index_of_id(library.drop_first(), id);
        if k < 0 {
            -1
        } else {
            k + 1
        }
    }
}

proof fn lemma_index_of_id(library: Seq<LibrarySkin>, id: Seq<char>, j: int)
    requires
        0 <= j < library.len(),
        library[j].id@ == id,
        forall|k: int| 0 <= k < j ==> library[k].id@ != id,
    ensures
        index_of_id(library, id) == j,
    decreases j,
{
    if j > 0 {
        lemma_index_of_id(library.drop_first(), id, j - 1);
    }
}

proof fn lemma_no_index_of_id(library: Seq<LibrarySkin>, id: Seq<char>)
    requires
        forall|k: int| 0 <= k < library.len() ==> library[k].id@ != id,
    ensures
        index_of_id(library, id) == -1,
    decreases library.len(),
{
    if library.len() > 0 {
        lemma_no_index_of_id(library.drop_first(), id);
    }
}

impl LibrarySkin {
    /// A copy of the entry.
    pub fn copy(&self) -> (r: LibrarySkin)
        ensures
            r.id@ == self.id@,
            r.name@ == self.name@,
            r.variant@ == self.variant@,
            match (r.cape_id, self.cape_id) {
                (Some(a), Some(b)) => a@ == b@,
                (None, None) => true,
                _ => false,
            },
            r.added_at == self.added_at,
    {
        LibrarySkin {
            id: self.id.clone(),
            name: self.name.clone(),
            variant: self.variant.clone(),
            cape_id: match &self.cape_id {
                Some(c) => Some(c.clone()),
                None => None,
            },
            added_at: self.added_at,
        }
    }
}

/// The cape id kept for an entry: the given one when Mojang could have issued it.
pub open spec fn cleaned_cape(cape_id: Option<Seq<char>>) -> Option<Seq<char>> {
    match cape_id {
        Some(id) => if cape_id_ok(id) {
            Some(id)
        } else {
            None
        },
        None => None,
    }
}

/// The entries whose id is not `id`, in order.
pub open spec fn without_id(library: Seq<LibrarySkin>, id: Seq<char>) -> Seq<LibrarySkin>
    decreases library.len(),
{
    if library.len() == 0 {
        library
    } else {
        let prev = without_id(library.drop_last(), id);
        if library.last().id@ == id {
            prev
        } else {
            prev.push(library.last())
        }
    }
}

/// What every library operation keeps: distinct ids, and at most
/// `MAX_LIBRARY_ENTRIES` entries.
pub open spec fn library_ok(library: Seq<LibrarySkin>) -> bool {
    ids_of(library).no_duplicates() && library.len() <= MAX_LIBRARY_ENTRIES
}

proof fn lemma_without_id_keeps(library: Seq<LibrarySkin>, id: Seq<char>)
    ensures
        without_id(library, id).len() <= library.len(),
        forall|k: int|
            0 <= k < without_id(library, id).len() ==> ids_of(library).contains(
                #[trigger] ids_of(without_id(library, id))[k],
            ),
        ids_of(library).no_duplicates() ==> ids_of(without_id(library, id)).no_duplicates(),
    decreases library.len(),
{
    if library.len() > 0 {
        let d = library.drop_last();
        lemma_without_id_keeps(d, id);
        let w = without_id(d, id);
        let x = library.last();
        assert(ids_of(d) =~= ids_of(library).drop_last());
        assert forall|k: int| 0 <= k < ids_of(d).len() implies ids_of(library).contains(
            #[trigger] ids_of(d)[k],
        ) by {
            assert(ids_of(library)[k] == ids_of(d)[k]);
        }
        if x.id@ != id {
            let r = w.push(x);
            assert(ids_of(r) =~= ids_of(w).push(x.id@));
            assert(ids_of(library)[library.len() - 1] == x.id@);
            assert forall|k: int| 0 <= k < ids_of(r).len() implies ids_of(library).contains(
                #[trigger] ids_of(r)[k],
            ) by {
                if k < w.len() {
                    assert(ids_of(r)[k] == ids_of(w)[k]);
                }
            }
            if ids_of(library).no_duplicates() {
                assert(ids_of(d).no_duplicates());
                assert(!ids_of(w).contains(x.id@)) by {
                    if ids_of(w).contains(x.id@) {
                        let k = choose|k: int| 0 <= k < ids_of(w).len() && ids_of(w)[k] == x.id@;
                        assert(ids_of(d).contains(ids_of(w)[k]));
                        let t = choose|t: int| 0 <= t < ids_of(d).len() && ids_of(d)[t] == x.id@;
                        assert(ids_of(library)[t] == x.id@);
                    }
                }
                assert forall|a: int, b: int|
                    0 <= a < ids_of(r).len() && 0 <= b < ids_of(r).len() && a != b implies ids_of(
                    r,
                )[a] != ids_of(r)[b] by {
                    if a < w.len() && b < w.len() {
                        assert(ids_of(r)[a] == ids_of(w)[a] && ids_of(r)[b] == ids_of(w)[b]);
                    } else if a < w.len() {
                        assert(ids_of(r)[a] == ids_of(w)[a]);
                        assert(ids_of(w).contains(ids_of(w)[a]));
                    } else {
                        assert(ids_of(r)[b] == ids_of(w)[b]);
                        assert(ids_of(w).contains(ids_of(w)[b]));
                    }
                }
            }
        } else {
            if ids_of(library).no_duplicates() {
                assert(ids_of(d).no_duplicates());
            }
        }
    } else {
        assert(ids_of(without_id(library, id)) =~= Seq::<Seq<char>>::empty());
    }
}

/// Removes every entry with this id; says whether one was there.
pub fn library_remove(library: &mut Vec<LibrarySkin>, id: &str) -> (removed: bool)
    ensures
        final(library)@ == without_id(old(library)@, id@),
        removed == (final(library)@.len() != old(library)@.len()),
        library_ok(old(library)@) ==> library_ok(final(library)@),
{
    proof {
        lemma_without_id_keeps(library@, id@);
    }
    let ghost all = library@;
    let wanted = to_chars(id);
    let mut rest: Vec<LibrarySkin> = Vec::new();
    std::mem::swap(&mut rest, library);
    let n = rest.len();
    let mut i: usize = 0;
    while i < n
        invariant
            i <= n == all.len(),
            wanted@ == id@,
            rest@ == all.skip(i as int),
            library@ == without_id(all.take(i as int), id@),
            library@.len() <= i,
        decreases n - i,
    {
        assert(all.take(i + 1).drop_last() =~= all.take(i as int));
        assert(all.skip(i + 1) =~= all.skip(i as int).remove(0));
        let entry = rest.remove(0);
        if !eq_chars(&to_chars(entry.id.as_str()), &wanted) {
            library.push(entry);
        }
        i += 1;
    }
    assert(all.take(i as int) =~= all);
    library.len() != n
}

/// Saves the editable state of the first entry with this id: its name, its
/// variant and its cape, cleaned as new entries are.
pub fn library_update(
    library: &mut Vec<LibrarySkin>,
    id: &str,
    name: &str,
    variant: &str,
    cape_id: Option<String>,
) -> (r: Result<LibrarySkin, AppError>)
    ensures
        ({
            let o = old(library)@;
            let f = final(library)@;
            let j = index_of_id(o, id@);
            match r {
                Err(e) => j < 0 && f == o && is_error(e, "skin_unknown"@, "unknown skin"@),
                Ok(u) => {
                    &&& 0 <= j < o.len()
                    &&& f.len() == o.len()
                    &&& forall|k: int| 0 <= k < o.len() && k != j ==> f[k] == o[k]
                    &&& f[j].id@ == o[j].id@
                    &&& f[j].name@ == cleaned_name(name@)
                    &&& f[j].variant@ == normalized_variant(Some(variant@))
                    &&& opt_view(f[j].cape_id) == cleaned_cape(opt_view(cape_id))
                    &&& f[j].added_at == o[j].added_at
                    &&& u.id@ == f[j].id@
                    &&& u.name@ == f[j].name@
                    &&& u.variant@ == f[j].variant@
                    &&& opt_view(u.cape_id) == opt_view(f[j].cape_id)
                    &&& u.added_at == f[j].added_at
                },
            }
        }),
        library_ok(old(library)@) ==> library_ok(final(library)@),
{
    let j = match id_taken(library, &to_chars(id)) {
        Some(j) => j,
        None => {
            proof {
                lemma_no_index_of_id(library@, id@);
            }
            return Err(AppError::new("skin_unknown", "unknown skin"));
        },
    };
    proof {
        lemma_index_of_id(library@, id@, j as int);
    }
    let updated = LibrarySkin {
        id: library[j].id.clone(),
        name: clean_name(name),
        variant: normalize_variant(Some(variant)),
        cape_id: clean_cape_id(cape_id),
        added_at: library[j].added_at,
    };
    let answer = updated.copy();
    let ghost before = library@;
    library.set(j, updated);
    assert(ids_of(library@) =~= ids_of(before));
    Ok(answer)
}

/// Adds a skin to the library: the PNG must be a skin and the library not
/// full; the entry gets a fresh id and the cleaned name, variant and cape.
pub fn library_add(
    library: &mut Vec<LibrarySkin>,
    png: &[u8],
    name: &str,
    variant: Option<&str>,
    cape_id: Option<String>,
    now: u64,
) -> (r: Result<LibrarySkin, AppError>)
    ensures
        r is Ok <==> skin_png_ok(png@) && old(library)@.len() < MAX_LIBRARY_ENTRIES,
        r matches Err(e) ==> final(library)@ == old(library)@ && e.code@ == (if skin_png_ok(png@) {
            "skin_library_full"@
        } else {
            "skin_invalid"@
        }),
        r matches Err(e) ==> skin_png_ok(png@) ==> is_error(
            e,
            "skin_library_full"@,
            "the library holds at most 200 skins"@,
        ),
        r matches Ok(entry) ==> {
            &&& final(library)@.len() == old(library)@.len() + 1
            &&& final(library)@.take(old(library)@.len() as int) == old(library)@
            &&& !ids_of(old(library)@).contains(entry.id@)
            &&& exists|k: nat|
                entry.id@ == id_candidate(now, k) && forall|j: nat|
                    j < k ==> ids_of(old(library)@).contains(#[trigger] id_candidate(now, j))
            &&& entry.name@ == cleaned_name(name@)
            &&& entry.variant@ == normalized_variant(
                match variant {
                    Some(v) => Some(v@),
                    None => None,
                },
            )
            &&& opt_view(entry.cape_id) == cleaned_cape(opt_view(cape_id))
            &&& entry.added_at == now
            &&& final(library)@.last().id@ == entry.id@
            &&& final(library)@.last().name@ == entry.name@
            &&& final(library)@.last().variant@ == entry.variant@
            &&& opt_view(final(library)@.last().cape_id) == opt_view(entry.cape_id)
            &&& final(library)@.last().added_at == now
        },
        library_ok(old(library)@) ==> library_ok(final(library)@),
{
    match validate_skin_png(png) {
        Err(e) => {
            return Err(e);
        },
        Ok(()) => {},
    }
    if library.len() >= MAX_LIBRARY_ENTRIES {
        return Err(AppError::new("skin_library_full", "the library holds at most 200 skins"));
    }
    let entry = LibrarySkin {
        id: new_id(library, now),
        name: clean_name(name),
        variant: normalize_variant(variant),
        cape_id: clean_cape_id(cape_id),
        added_at: now,
    };
    let answer = entry.copy();
    let ghost before = library@;
    let ghost fresh = entry.id@;
    library.push(entry);
    assert(library@.take(before.len() as int) =~= before);
    proof {
        let ids = ids_of(before);
        assert(ids_of(library@) =~= ids.push(fresh));
        if ids.no_duplicates() {
            assert forall|a: int, b: int|
                0 <= a < ids.len() + 1 && 0 <= b < ids.len() + 1 && a != b implies ids.push(
                fresh,
            )[a] != ids.push(fresh)[b] by {
                if a < ids.len() && b < ids.len() {
                } else if a < ids.len() {
                    assert(ids.contains(ids[a]));
                } else {
                    assert(ids.contains(ids[b]));
                }
            }
        }
    }
    Ok(answer)
}

/// The name a skin is saved under: the given one unless blank, else `fallback`.
pub fn chosen_name(name: Option<String>, fallback: String) -> (r: String)
    ensures
        r@ == match name {
            Some(n) => if trim(n@).len() > 0 {
                n@
            } else {
                fallback@
            },
            None => fallback@,
        },
{
    match name {
        Some(n) => if trim_chars(&to_chars(n.as_str())).len() > 0 {
            n
        } else {
            fallback
        },
        None => fallback,
    }
}

// ── Laws ────────────────────────────────────────────────────────────────────

/// Library names are printable and short: never empty, at most 40
/// characters, without control characters.
pub proof fn law_names_printable_and_short(name: Seq<char>)
    ensures
        0 < cleaned_name(name).len() <= 40,
        forall|i: int|
            0 <= i < cleaned_name(name).len() ==> !spec_is_control(
                #[trigger] cleaned_name(name)[i],
            ),
{
    reveal_strlit("Skin");
    let t = trim(name);
    let c = without_controls(t);
    crate::text::lemma_without_controls_clean(t);
    let k = take_chars(c, 40);
    assert forall|i: int| 0 <= i < k.len() implies !spec_is_control(#[trigger] k[i]) by {
        assert(k[i] == c[i]);
    }
    if k.len() == 0 {
        assert(cleaned_name(name) == "Skin"@);
        assert forall|i: int| 0 <= i < 4 implies !spec_is_control(#[trigger] "Skin"@[i]) by {}
    }
}

/// Once removed, no entry of the library has that id, and the others stay
/// in order.
pub proof fn law_removed_skin_is_gone(library: Seq<LibrarySkin>, id: Seq<char>)
    ensures
        forall|k: int|
            0 <= k < without_id(library, id).len() ==> (#[trigger] without_id(library, id)[k]).id@
                != id,
    decreases library.len(),
{
    if library.len() > 0 {
        law_removed_skin_is_gone(library.drop_last(), id);
    }
}

} // verus!
