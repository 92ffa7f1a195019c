//! Le pack client : à quel tenant ce moteur appartient-il ?
//!
//! Le binaire est générique : rien du tenant n'est compilé dedans. Tout est
//! attendu à côté de lui, sur le disque (`client/client_config.json`), écrit
//! par l'installeur. Ce module valide ce fichier et dit où le chercher ; la
//! lecture du disque et de l'environnement reste à l'application.

use vstd::prelude::*;

use crate::json::{field, get, parse_json, Json};
use crate::paths::{join, parent, path_join, path_parent};
use crate::text::{
    dec_chars, dec_seq, from_chars, is_ascii_alphanumeric, is_ascii_digit, is_ascii_lowercase, lower_seq, opt_view,
    push_all, push_str, spec_is_ascii_alphanumeric, spec_is_ascii_digit, spec_is_ascii_lower,
    spec_starts_with, starts_with, to_chars, trim, trim_chars, trim_end_char, trim_end_matches,
};

verus! {

/// Nom du fichier d'identité dans le pack, figé par le contrat.
pub const CLIENT_CONFIG_FILE: &'static str = "client_config.json";

/// Dossier du pack client, à côté de `engine/`.
pub const CLIENT_DIR: &'static str = "client";

/// Icône du pack quand le fichier n'en nomme pas.
pub const DEFAULT_ICON: &'static str = "icon.png";

/// Longueur de la clé d'installation macOS, en caractères hexadécimaux.
pub const INSTALL_KEY_LENGTH: usize = 32;

/// Seule version du format que ce moteur sait lire.
pub const SCHEMA: u32 = 1;

/// Au-delà, ce n'est plus un fichier d'identité : on ne le charge pas.
pub const MAX_CONFIG_BYTES: u64 = 65536;

/// Longueur maximale du slug, alignée sur `launcher_configs.slug` du panel.
pub const MAX_SLUG_LEN: usize = 48;

/// Longueur maximale de l'identifiant du tenant.
pub const MAX_TENANT_LEN: usize = 128;

/// Titre et icône de la fenêtre, tels que le panel les a figés dans le pack.
pub struct WindowIdentity {
    pub title: String,
    /// Nom de fichier simple, à résoudre dans le dossier du pack.
    pub icon: String,
}

/// L'identité du tenant, lue une fois au démarrage et partagée en lecture seule.
pub struct ClientConfig {
    /// `users.id` du panel. C'est lui qui voyage dans `/user/{id}/…`.
    pub tenant_id: String,
    /// `launcher_configs.slug` : nom de dossier, jamais dérivé côté client.
    pub slug: String,
    pub display_name: String,
    /// Base de l'API du panel, sans slash final (`https://…/api`).
    pub api_base_url: String,
    pub window: WindowIdentity,
    pub updated_at: Option<String>,
    /// Dossier d'où le pack a été lu, pour y résoudre l'icône.
    pub dir: String,
}

/// What a `ClientConfig` holds, as sequences of characters.
pub struct ClientModel {
    pub tenant_id: Seq<char>,
    pub slug: Seq<char>,
    pub display_name: Seq<char>,
    pub api_base_url: Seq<char>,
    pub title: Seq<char>,
    pub icon: Seq<char>,
    pub updated_at: Option<Seq<char>>,
    pub dir: Seq<char>,
}

impl ClientConfig {
    pub open spec fn model(&self) -> ClientModel {
        ClientModel {
            tenant_id: self.tenant_id@,
            slug: self.slug@,
            display_name: self.display_name@,
            api_base_url: self.api_base_url@,
            title: self.window.title@,
            icon: self.window.icon@,
            updated_at: opt_view(self.updated_at),
            dir: self.dir@,
        }
    }
}

// ── Reading the fields the way serde's derive does ──────────────────────────

/// The member a derived reader takes for a field: by name in an object, by
/// position in an array.
pub open spec fn member(j: Json, name: Seq<char>, index: int) -> Option<Json> {
    match j {
        Json::Object(f) => field(f@, name),
        Json::Array(items) => if 0 <= index < items@.len() {
            Some(items@[index])
        } else {
            None
        },
        _ => None,
    }
}

/// A required `u32` member.
pub open spec fn json_u32(v: Option<Json>) -> Option<u32> {
    match v {
        Some(Json::Number(n)) => match n.uint {
            Some(u) => if u <= u32::MAX {
                Some(u as u32)
            } else {
                None
            },
            None => None,
        },
        _ => None,
    }
}

/// A required string member.
pub open spec fn json_string(v: Option<Json>) -> Option<Seq<char>> {
    match v {
        Some(Json::String(s)) => Some(s@),
        _ => None,
    }
}

/// An optional string member: `Some(None)` when missing or `null`, `None`
/// when it holds something else than a string.
pub open spec fn json_opt_string(v: Option<Json>) -> Option<Option<Seq<char>>> {
    match v {
        None => Some(None),
        Some(Json::Null) => Some(None),
        Some(Json::String(s)) => Some(Some(s@)),
        _ => None,
    }
}

/// A value the derive reads as a `window` block: an object, or an array of
/// at most its two members.
pub open spec fn window_shape(w: Json) -> bool {
    match w {
        Json::Object(_) => true,
        Json::Array(items) => items@.len() <= 2,
        _ => false,
    }
}

/// The optional `window` block: `(title, icon)` as the file gives them.
pub open spec fn json_window(v: Option<Json>) -> Option<(Option<Seq<char>>, Option<Seq<char>>)> {
    match v {
        None => Some((None, None)),
        Some(Json::Null) => Some((None, None)),
        Some(w) => if window_shape(w) {
            match (
                json_opt_string(member(w, "title"@, 0)),
                json_opt_string(member(w, "icon"@, 1)),
            ) {
                (Some(title), Some(icon)) => Some((title, icon)),
                _ => None,
            }
        } else {
            None
        },
    }
}

/// A document the derive reads as a pack: an object, or an array of at most
/// its seven members.
pub open spec fn pack_shape(j: Json) -> bool {
    match j {
        Json::Object(_) => true,
        Json::Array(items) => items@.len() <= 7,
        _ => false,
    }
}

/// The members of a pack, as the file gives them.
pub struct PackModel {
    pub schema: u32,
    pub tenant_id: Seq<char>,
    pub slug: Seq<char>,
    pub display_name: Seq<char>,
    pub api_base_url: Seq<char>,
    pub window: (Option<Seq<char>>, Option<Seq<char>>),
    pub updated_at: Option<Seq<char>>,
}

/// The members the derive reads from a document, or `None` when it refuses
/// it: a member missing or of another type, or a document of another shape.
/// In the array form the members come in declaration order and the last two
/// (`window`, `updated_at`) may be left out.
pub open spec fn pack_of_json(j: Json) -> Option<PackModel> {
    if !pack_shape(j) {
        None
    } else {
        match (
            json_u32(member(j, "schema"@, 0)),
            json_string(member(j, "tenant_id"@, 1)),
            json_string(member(j, "slug"@, 2)),
            json_string(member(j, "display_name"@, 3)),
            json_string(member(j, "api_base_url"@, 4)),
            json_window(member(j, "window"@, 5)),
            json_opt_string(member(j, "updated_at"@, 6)),
        ) {
            (
                Some(schema),
                Some(tenant_id),
                Some(slug),
                Some(display_name),
                Some(api_base_url),
                Some(window),
                Some(updated_at),
            ) => Some(
                PackModel {
                    schema,
                    tenant_id,
                    slug,
                    display_name,
                    api_base_url,
                    window,
                    updated_at,
                },
            ),
            _ => None,
        }
    }
}

/// The pack's members as the derive hands them over.
pub struct RawWindow {
    pub title: Option<String>,
    pub icon: Option<String>,
}

/// The pack's members as the derive hands them over, before they are checked.
pub struct RawClientConfig {
    pub schema: u32,
    pub tenant_id: String,
    pub slug: String,
    pub display_name: String,
    pub api_base_url: String,
    pub window: Option<RawWindow>,
    pub updated_at: Option<String>,
}

pub open spec fn raw_model(r: RawClientConfig) -> PackModel {
    PackModel {
        schema: r.schema,
        tenant_id: r.tenant_id@,
        slug: r.slug@,
        display_name: r.display_name@,
        api_base_url: r.api_base_url@,
        window: match r.window {
            Some(w) => (opt_view(w.title), opt_view(w.icon)),
            None => (None, None),
        },
        updated_at: opt_view(r.updated_at),
    }
}

// ── Validation ──────────────────────────────────────────────────────────────

/// Un identifiant du panel : `[A-Za-z0-9_-]`, 1 à 128 caractères.
pub open spec fn tenant_id_ok(t: Seq<char>) -> bool {
    0 < t.len() <= MAX_TENANT_LEN && forall|i: int|
        0 <= i < t.len() ==> spec_is_ascii_alphanumeric(#[trigger] t[i]) || t[i] == '-' || t[i]
            == '_'
}

/// Un nom de dossier : `[a-z0-9-]`, 1 à 48 caractères, sans tiret au bord.
pub open spec fn slug_ok(s: Seq<char>) -> bool {
    0 < s.len() <= MAX_SLUG_LEN && s[0] != '-' && s.last() != '-' && forall|i: int|
        0 <= i < s.len() ==> spec_is_ascii_lower(#[trigger] s[i]) || spec_is_ascii_digit(s[i])
            || s[i] == '-'
}

/// Une adresse `https://` avec un hôte derrière.
pub open spec fn https_url_ok(u: Seq<char>) -> bool {
    spec_starts_with(u, "https://"@) && u.len() > "https://"@.len()
}

/// Un nom de fichier et rien d'autre : ni séparateur, ni remontée de dossier.
pub open spec fn plain_file_name(name: Seq<char>) -> bool {
    name.len() > 0 && name != "."@ && name != ".."@ && !name.contains('/') && !name.contains(
        '\\',
    ) && !name.contains(':')
}

/// A trimmed optional value, unless it trims to nothing.
pub open spec fn trimmed_or(v: Option<Seq<char>>, fallback: Seq<char>) -> Seq<char> {
    match v {
        Some(t) => if trim(t).len() > 0 {
            trim(t)
        } else {
            fallback
        },
        None => fallback,
    }
}

/// The client pack whose members are `m`, read from `dir`; `None` when they
/// fail a check.
pub open spec fn client_of_pack(m: PackModel, dir: Seq<char>) -> Option<ClientModel> {
    let tenant_id = trim(m.tenant_id);
    let slug = trim(m.slug);
    let display_name = trim(m.display_name);
    let api_base_url = trim_end_char(trim(m.api_base_url), '/');
    let title = trimmed_or(m.window.0, display_name);
    let icon = trimmed_or(m.window.1, DEFAULT_ICON@);
    if m.schema == SCHEMA && tenant_id_ok(tenant_id) && slug_ok(slug) && display_name.len() > 0
        && https_url_ok(api_base_url) && plain_file_name(icon) {
        Some(
            ClientModel {
                tenant_id,
                slug,
                display_name,
                api_base_url,
                title,
                icon,
                updated_at: m.updated_at,
                dir,
            },
        )
    } else {
        None
    }
}

/// Why members `m` are not a valid pack: the first check they fail.
pub open spec fn pack_model_refusal(m: PackModel) -> Seq<char> {
    let tenant_id = trim(m.tenant_id);
    let slug = trim(m.slug);
    let display_name = trim(m.display_name);
    let api_base_url = trim_end_char(trim(m.api_base_url), '/');
    if m.schema != SCHEMA {
        "unsupported schema "@ + dec_seq(m.schema as nat) + ", this engine reads 1"@
    } else if !tenant_id_ok(tenant_id) {
        "tenant_id is not a panel identifier"@
    } else if !slug_ok(slug) {
        "slug must be lowercase [a-z0-9-] without leading or trailing dash"@
    } else if display_name.len() == 0 {
        "display_name is empty"@
    } else if !https_url_ok(api_base_url) {
        "api_base_url must use https: "@ + api_base_url
    } else {
        "window.icon must be a plain file name: "@ + trimmed_or(m.window.1, DEFAULT_ICON@)
    }
}

/// The client pack described by a JSON document, read from `dir`; `None` when
/// the document is not a valid pack.
pub open spec fn client_of_json(j: Json, dir: Seq<char>) -> Option<ClientModel> {
    match pack_of_json(j) {
        Some(m) => client_of_pack(m, dir),
        None => None,
    }
}

/// Why a JSON document is not a valid pack: the first check it fails.
pub open spec fn pack_refusal(j: Json) -> Seq<char> {
    if !pack_shape(j) {
        if j is Array {
            "the client pack has more than 7 members"@
        } else {
            "the client pack is not a JSON object or array"@
        }
    } else if json_u32(member(j, "schema"@, 0)) is None {
        if member(j, "schema"@, 0) matches Some(Json::Number(_)) {
            "schema is not a number"@
        } else {
            "schema is missing"@
        }
    } else if json_string(member(j, "tenant_id"@, 1)) is None {
        "tenant_id is missing"@
    } else if json_string(member(j, "slug"@, 2)) is None {
        "slug is missing"@
    } else if json_string(member(j, "display_name"@, 3)) is None {
        "display_name is missing"@
    } else if json_string(member(j, "api_base_url"@, 4)) is None {
        "api_base_url is missing"@
    } else if json_window(member(j, "window"@, 5)) is None {
        match member(j, "window"@, 5) {
            Some(w) => if !window_shape(w) {
                "window is not an object"@
            } else if json_opt_string(member(w, "title"@, 0)) is None {
                "window.title is not a string"@
            } else {
                "window.icon is not a string"@
            },
            None => "window is not an object"@,
        }
    } else if json_opt_string(member(j, "updated_at"@, 6)) is None {
        "updated_at is not a string"@
    } else {
        pack_model_refusal(pack_of_json(j).unwrap())
    }
}


/// Why the bytes of a file are not a valid pack: the parser's error when
/// they are not JSON, else the first check the document fails.
pub open spec fn bytes_refusal(bytes: Seq<u8>) -> Seq<char> {
    match crate::json::json_read(bytes) {
        Ok(j) => pack_refusal(j),
        Err(e) => e,
    }
}

/// The client pack whose file holds `bytes`.
pub open spec fn client_of_bytes(bytes: Seq<u8>, dir: Seq<char>) -> Option<ClientModel> {
    match crate::json::parsed_json(bytes) {
        Some(j) => client_of_json(j, dir),
        None => None,
    }
}

fn tenant_id_valid(t: &[char]) -> (r: bool)
    ensures
        r == tenant_id_ok(t@),
{
    if t.len() == 0 || t.len() > MAX_TENANT_LEN {
        return false;
    }
    let mut i: usize = 0;
    while i < t.len()
        invariant
            i <= t@.len(),
            forall|j: int|
                0 <= j < i ==> spec_is_ascii_alphanumeric(#[trigger] t@[j]) || t@[j] == '-'
                    || t@[j] == '_',
        decreases t@.len() - i,
    {
        let c = t[i];
        if !(is_ascii_alphanumeric(c) || c == '-' || c == '_') {
            return false;
        }
        i += 1;
    }
    true
}

fn slug_valid(s: &[char]) -> (r: bool)
    ensures
        r == slug_ok(s@),
{
    if s.len() == 0 || s.len() > MAX_SLUG_LEN || s[0] == '-' || s[s.len() - 1] == '-' {
        return false;
    }
    let mut i: usize = 0;
    while i < s.len()
        invariant
            0 < s@.len(),
            i <= s@.len(),
            forall|j: int|
                0 <= j < i ==> spec_is_ascii_lower(#[trigger] s@[j]) || spec_is_ascii_digit(
                    s@[j],
                ) || s@[j] == '-',
        decreases s@.len() - i,
    {
        let c = s[i];
        if !(is_ascii_lowercase(c) || is_ascii_digit(c) || c == '-') {
            return false;
        }
        i += 1;
    }
    true
}

fn https_url_valid(u: &[char]) -> (r: bool)
    ensures
        r == https_url_ok(u@),
{
    let prefix = to_chars("https://");
    starts_with(u, &prefix) && u.len() > prefix.len()
}

fn has_char(s: &[char], c: char) -> (r: bool)
    ensures
        r == s@.contains(c),
{
    let mut i: usize = 0;
    while i < s.len()
        invariant
            i <= s@.len(),
            forall|j: int| 0 <= j < i ==> s@[j] != c,
        decreases s@.len() - i,
    {
        if s[i] == c {
            return true;
        }
        i += 1;
    }
    false
}

/// Un nom de fichier et rien d'autre.
pub fn is_plain_file_name(name: &str) -> (r: bool)
    ensures
        r == plain_file_name(name@),
{
    let n = to_chars(name);
    let dot = to_chars(".");
    let dots = to_chars("..");
    n.len() > 0 && !crate::text::eq_chars(&n, &dot) && !crate::text::eq_chars(&n, &dots)
        && !has_char(&n, '/') && !has_char(&n, '\\') && !has_char(&n, ':')
}

/// A reference, read as the value it points to.
pub open spec fn deref_json(v: Option<&Json>) -> Option<Json> {
    match v {
        Some(x) => Some(*x),
        None => None,
    }
}

/// The member a derived reader takes for a field.
fn member_of<'a>(j: &'a Json, name: &str, index: usize) -> (r: Option<&'a Json>)
    ensures
        deref_json(r) == member(*j, name@, index as int),
{
    match j {
        Json::Object(f) => get(f, &to_chars(name)),
        Json::Array(items) => if index < items.len() {
            Some(&items[index])
        } else {
            None
        },
        _ => None,
    }
}

fn u32_value(v: Option<&Json>) -> (r: Option<u32>)
    ensures
        r == json_u32(deref_json(v)),
{
    match v {
        Some(Json::Number(n)) => match n.uint {
            Some(u) => if u <= 0xffff_ffff {
                Some(u as u32)
            } else {
                None
            },
            None => None,
        },
        _ => None,
    }
}

fn string_value(v: Option<&Json>) -> (r: Option<String>)
    ensures
        opt_view(r) == json_string(deref_json(v)),
{
    match v {
        Some(Json::String(s)) => Some(s.clone()),
        _ => None,
    }
}

fn opt_string_value(v: Option<&Json>) -> (r: Result<Option<String>, ()>)
    ensures
        r matches Ok(s) ==> json_opt_string(deref_json(v)) == Some(opt_view(s)),
        r is Err ==> json_opt_string(deref_json(v)) is None,
{
    match v {
        None => Ok(None),
        Some(Json::Null) => Ok(None),
        Some(Json::String(s)) => Ok(Some(s.clone())),
        _ => Err(()),
    }
}

fn is_window_shape(w: &Json) -> (r: bool)
    ensures
        r == window_shape(*w),
{
    match w {
        Json::Object(_) => true,
        Json::Array(items) => items.len() <= 2,
        _ => false,
    }
}


fn trimmed_or_exec(v: Option<String>, fallback: &[char]) -> (r: Vec<char>)
    ensures
        r@ == trimmed_or(opt_view(v), fallback@),
{
    assert(fallback@.subrange(0, fallback@.len() as int) =~= fallback@);
    match v {
        Some(t) => {
            let c = to_chars(t.as_str());
            let tr = trim_chars(&c);
            if tr.len() > 0 {
                tr
            } else {
                crate::text::slice(fallback, 0, fallback.len())
            }
        },
        None => crate::text::slice(fallback, 0, fallback.len()),
    }
}

impl ClientConfig {
    /// Valide le contenu du fichier. Séparée de la lecture pour être testable
    /// sans toucher au disque.
    ///
    /// The bytes are read through `serde_json`'s value, which keeps one member
    /// per name (the last one): a member named twice is not refused here, nor
    /// are serde's own messages given. Reading with serde's derive, then
    /// `from_raw`, refuses it as the derive does.
    pub fn parse(bytes: &[u8], dir: &str) -> (r: Result<Self, String>)
        ensures
            r is Ok <==> client_of_bytes(bytes@, dir@) is Some,
            r matches Ok(c) ==> client_of_bytes(bytes@, dir@) == Some(c.model()),
            r matches Err(e) ==> e@ == bytes_refusal(bytes@),
    {
        match parse_json(bytes) {
            Ok(j) => Self::from_json(&j, dir),
            Err(e) => Err(e),
        }
    }

    /// A file of `length` bytes at `path` is read only when it may be a
    /// client configuration.
    pub fn check_size(path: &str, length: u64) -> (r: Result<(), String>)
        ensures
            r is Ok <==> length <= MAX_CONFIG_BYTES,
            r matches Err(e) ==> e@ == path@ + " is "@ + crate::text::dec_seq(length as nat)
                + " bytes, which is not a client configuration"@,
    {
        if length > MAX_CONFIG_BYTES {
            let mut m = to_chars(path);
            push_str(&mut m, " is ");
            let digits = crate::text::dec_chars(length);
            crate::text::push_all(&mut m, &digits);
            push_str(&mut m, " bytes, which is not a client configuration");
            return Err(from_chars(&m));
        }
        Ok(())
    }

    /// Reads the file at `path`: as `parse` does, an error naming the file.
    pub fn parse_file(path: &str, bytes: &[u8], dir: &str) -> (r: Result<Self, String>)
        ensures
            r is Ok <==> client_of_bytes(bytes@, dir@) is Some,
            r matches Ok(c) ==> client_of_bytes(bytes@, dir@) == Some(c.model()),
            r matches Err(e) ==> e@ == path@ + ": "@ + bytes_refusal(bytes@),
    {
        match Self::parse(bytes, dir) {
            Ok(c) => Ok(c),
            Err(reason) => {
                let mut m = to_chars(path);
                push_str(&mut m, ": ");
                push_str(&mut m, reason.as_str());
                assert(m@ == path@ + ": "@ + reason@);
                Err(from_chars(&m))
            },
        }
    }

    /// Reads a JSON document as the derive reads the pack, then checks it.
    pub fn from_json(j: &Json, dir: &str) -> (r: Result<Self, String>)
        ensures
            r is Ok <==> client_of_json(*j, dir@) is Some,
            r matches Ok(c) ==> client_of_json(*j, dir@) == Some(c.model()),
            r matches Err(e) ==> e@ == pack_refusal(*j),
    {
        match j {
            Json::Object(_) => {},
            Json::Array(items) => if items.len() > 7 {
                return Err("the client pack has more than 7 members".to_owned());
            },
            _ => return Err("the client pack is not a JSON object or array".to_owned()),
        }
        let schema_member = member_of(j, "schema", 0);
        let schema = match u32_value(schema_member) {
            Some(u) => u,
            None => return Err(
                match schema_member {
                    Some(Json::Number(_)) => "schema is not a number",
                    _ => "schema is missing",
                }.to_owned(),
            ),
        };
        let tenant_id = match string_value(member_of(j, "tenant_id", 1)) {
            Some(s) => s,
            None => return Err("tenant_id is missing".to_owned()),
        };
        let slug = match string_value(member_of(j, "slug", 2)) {
            Some(s) => s,
            None => return Err("slug is missing".to_owned()),
        };
        let display_name = match string_value(member_of(j, "display_name", 3)) {
            Some(s) => s,
            None => return Err("display_name is missing".to_owned()),
        };
        let api_base_url = match string_value(member_of(j, "api_base_url", 4)) {
            Some(s) => s,
            None => return Err("api_base_url is missing".to_owned()),
        };
        let window = match member_of(j, "window", 5) {
            None => None,
            Some(Json::Null) => None,
            Some(w) => {
                if !is_window_shape(w) {
                    return Err("window is not an object".to_owned());
                }
                let title = match opt_string_value(member_of(w, "title", 0)) {
                    Ok(t) => t,
                    Err(()) => return Err("window.title is not a string".to_owned()),
                };
                let icon = match opt_string_value(member_of(w, "icon", 1)) {
                    Ok(t) => t,
                    Err(()) => return Err("window.icon is not a string".to_owned()),
                };
                Some(RawWindow { title, icon })
            },
        };
        let updated_at = match opt_string_value(member_of(j, "updated_at", 6)) {
            Ok(u) => u,
            Err(()) => return Err("updated_at is not a string".to_owned()),
        };
        let raw = RawClientConfig {
            schema,
            tenant_id,
            slug,
            display_name,
            api_base_url,
            window,
            updated_at,
        };
        assert(pack_of_json(*j) == Some(raw_model(raw)));
        Self::from_raw(raw, dir)
    }

    /// Checks the members of a pack, as the derive hands them over.
    pub fn from_raw(raw: RawClientConfig, dir: &str) -> (r: Result<Self, String>)
        ensures
            r is Ok <==> client_of_pack(raw_model(raw), dir@) is Some,
            r matches Ok(c) ==> client_of_pack(raw_model(raw), dir@) == Some(c.model()),
            r matches Err(e) ==> e@ == pack_model_refusal(raw_model(raw)),
    {
        let ghost m = raw_model(raw);
        let (title, icon) = match raw.window {
            Some(w) => (w.title, w.icon),
            None => (None, None),
        };
        assert((opt_view(title), opt_view(icon)) == m.window);
        if raw.schema != SCHEMA {
            let mut msg = to_chars("unsupported schema ");
            let digits = dec_chars(raw.schema as u64);
            push_all(&mut msg, &digits);
            push_str(&mut msg, ", this engine reads 1");
            return Err(from_chars(&msg));
        }
        let tenant_id = trim_chars(&to_chars(raw.tenant_id.as_str()));
        if !tenant_id_valid(&tenant_id) {
            return Err("tenant_id is not a panel identifier".to_owned());
        }
        let slug = trim_chars(&to_chars(raw.slug.as_str()));
        if !slug_valid(&slug) {
            return Err(
                "slug must be lowercase [a-z0-9-] without leading or trailing dash".to_owned(),
            );
        }
        let display_name = trim_chars(&to_chars(raw.display_name.as_str()));
        if display_name.len() == 0 {
            return Err("display_name is empty".to_owned());
        }
        let api_base_url = trim_end_matches(&trim_chars(&to_chars(raw.api_base_url.as_str())), '/');
        if !https_url_valid(&api_base_url) {
            let mut msg = to_chars("api_base_url must use https: ");
            push_all(&mut msg, &api_base_url);
            return Err(from_chars(&msg));
        }
        let title = trimmed_or_exec(title, &display_name);
        let default_icon = to_chars(DEFAULT_ICON);
        let icon = trimmed_or_exec(icon, &default_icon);
        let icon = from_chars(&icon);
        if !is_plain_file_name(icon.as_str()) {
            let mut msg = to_chars("window.icon must be a plain file name: ");
            push_str(&mut msg, icon.as_str());
            return Err(from_chars(&msg));
        }
        Ok(
            ClientConfig {
                tenant_id: from_chars(&tenant_id),
                slug: from_chars(&slug),
                display_name: from_chars(&display_name),
                api_base_url: from_chars(&api_base_url),
                window: WindowIdentity { title: from_chars(&title), icon },
                updated_at: raw.updated_at,
                dir: dir.to_owned(),
            },
        )
    }


    /// Chemin de l'icône de fenêtre dans le pack.
    pub fn icon_path(&self) -> (r: String)
        ensures
            r@ == path_join(self.dir@, self.window.icon@),
    {
        join(self.dir.as_str(), self.window.icon.as_str())
    }

    /// Un pack d'exemple, valide, pour les essais.
    pub fn sample() -> (c: Self)
        ensures
            c.tenant_id@ == "00000000-0000-4000-8000-000000000001"@,
            c.slug@ == "mon-serveur"@,
            c.display_name@ == "Mon Serveur"@,
            c.api_base_url@ == "https://luuxcraft.fr/api"@,
            c.window.title@ == "Mon Serveur"@,
            c.window.icon@ == "icon.png"@,
            c.updated_at is None,
            c.dir@ == "/tmp/luuxcraft-sample-client"@,
    {
        ClientConfig {
            tenant_id: "00000000-0000-4000-8000-000000000001".to_owned(),
            slug: "mon-serveur".to_owned(),
            display_name: "Mon Serveur".to_owned(),
            api_base_url: "https://luuxcraft.fr/api".to_owned(),
            window: WindowIdentity {
                title: "Mon Serveur".to_owned(),
                icon: "icon.png".to_owned(),
            },
            updated_at: None,
            dir: "/tmp/luuxcraft-sample-client".to_owned(),
        }
    }
}

// ── Where the pack is looked for ────────────────────────────────────────────

/// Où chercher le pack, à partir du chemin du binaire installé : la
/// disposition du contrat (`engine/` et `client/` côte à côte), puis celle du
/// bundle macOS (`Contents/Resources/client`, puis `<bundle>.app/client`),
/// puis un moteur posé directement à la racine de son installation.
pub open spec fn pack_dirs(exe: Seq<char>) -> Seq<Seq<char>> {
    match path_parent(exe) {
        None => Seq::empty(),
        Some(dir) => {
            let above = match path_parent(dir) {
                None => Seq::empty(),
                Some(root) => {
                    let two = seq![
                        path_join(root, CLIENT_DIR@),
                        path_join(path_join(root, "Resources"@), CLIENT_DIR@),
                    ];
                    match path_parent(root) {
                        None => two,
                        Some(bundle) => two.push(path_join(bundle, CLIENT_DIR@)),
                    }
                },
            };
            above.push(path_join(dir, CLIENT_DIR@))
        },
    }
}

pub open spec fn string_seq_views(v: Seq<String>) -> Seq<Seq<char>> {
    v.map_values(|s: String| s@)
}

/// Où chercher le pack, à partir du chemin du binaire installé.
pub fn pack_dir_candidates(exe: &str) -> (r: Vec<String>)
    ensures
        string_seq_views(r@) == pack_dirs(exe@),
{
    let dir = match parent(exe) {
        Some(d) => d,
        None => {
            let r: Vec<String> = Vec::new();
            assert(string_seq_views(r@) =~= pack_dirs(exe@));
            return r;
        },
    };
    let mut candidates: Vec<String> = Vec::new();
    match parent(dir.as_str()) {
        Some(root) => {
            candidates.push(join(root.as_str(), CLIENT_DIR));
            let resources = join(root.as_str(), "Resources");
            candidates.push(join(resources.as_str(), CLIENT_DIR));
            match parent(root.as_str()) {
                Some(bundle) => {
                    candidates.push(join(bundle.as_str(), CLIENT_DIR));
                },
                None => {},
            }
        },
        None => {},
    }
    candidates.push(join(dir.as_str(), CLIENT_DIR));
    assert(string_seq_views(candidates@) =~= pack_dirs(exe@));
    candidates
}

} // verus!

verus! {

// ── macOS installation key ──────────────────────────────────────────────────

/// The SHA-256 digest of `data`.
pub uninterp spec fn sha256_of(data: Seq<u8>) -> Seq<u8>;

/// `sha2::Sha256::digest`: 32 bytes.
#[verifier::external_body]
pub(crate) fn sha256(data: &[u8]) -> (r: Vec<u8>)
    ensures
        r@ == sha256_of(data@),
        r@.len() == 32,
{
    <sha2::Sha256 as sha2::Digest>::digest(data).to_vec()
}

/// Two lower-case hexadecimal digits per byte (`{byte:02x}`).
pub open spec fn hex_bytes(b: Seq<u8>) -> Seq<char>
    decreases b.len(),
{
    if b.len() == 0 {
        Seq::empty()
    } else {
        hex_bytes(b.drop_last()) + seq![
            crate::text::digit_char((b.last() / 16) as nat),
            crate::text::digit_char((b.last() % 16) as nat),
        ]
    }
}

/// Clé d'identité d'une installation macOS : les 32 premiers caractères de
/// l'empreinte SHA-256 hexadécimale du chemin du bundle.
pub open spec fn install_key_of(path: Seq<char>) -> Seq<char> {
    hex_bytes(sha256_of(vstd::utf8::encode_utf8(path)).take(16))
}

fn hex_digit(d: u8) -> (c: char)
    requires
        d < 16,
    ensures
        c == crate::text::digit_char(d as nat),
{
    if d < 10 {
        (d + 0x30) as char
    } else {
        (d + 0x61 - 10) as char
    }
}

/// Clé d'identité d'une installation macOS : l'empreinte de son chemin,
/// calculée de la même façon par le script d'installation du panel.
pub fn install_key(path: &str) -> (r: String)
    ensures
        r@ == install_key_of(path@),
        r@.len() == INSTALL_KEY_LENGTH,
{
    let digest = sha256(path.as_bytes());
    let mut key: Vec<char> = Vec::new();
    let mut i: usize = 0;
    while i < 16
        invariant
            i <= 16,
            digest@.len() == 32,
            key@ == hex_bytes(digest@.take(i as int)),
            key@.len() == 2 * i,
        decreases 16 - i,
    {
        let b = digest[i];
        assert(digest@.take(i + 1).drop_last() =~= digest@.take(i as int));
        key.push(hex_digit(b / 16));
        key.push(hex_digit(b % 16));
        i += 1;
    }
    from_chars(&key)
}

// ── Where the pack is ───────────────────────────────────────────────────────

/// Where macOS installations register their pack, under the user's
/// `Library/Application Support`; the panel's install script uses the same.
pub const MACOS_INSTALL_DIR: &'static str = "luuxcraft/installs";

pub open spec fn installs_dir(home: Seq<char>) -> Seq<char> {
    path_join(path_join(path_join(home, "Library"@), "Application Support"@), MACOS_INSTALL_DIR@)
}

/// The directory under which macOS installations are registered.
pub fn macos_installs_dir(home: &str) -> (r: String)
    ensures
        r@ == installs_dir(home@),
{
    let library = join(home, "Library");
    let support = join(library.as_str(), "Application Support");
    join(support.as_str(), MACOS_INSTALL_DIR)
}

/// The registered installations to try after the directories next to the
/// binary: the one keyed by the enclosing `.app`, then the only registered one
/// when there is exactly one (with two or more, guessing could open another
/// server's launcher).
pub open spec fn external_dirs(installs: Seq<char>, exe: Seq<char>, registered: Seq<Seq<char>>) -> Seq<
    Seq<char>,
> {
    let keyed = match crate::update::bundle_of_spec(exe) {
        Some(b) => seq![path_join(installs, install_key_of(b))],
        None => Seq::empty(),
    };
    if registered.len() == 1 {
        keyed.push(registered[0])
    } else {
        keyed
    }
}

/// `registered` lists the directories under `installs` that hold a
/// `client_config.json`.
pub fn external_pack_dirs(installs: &str, exe: &str, registered: &Vec<String>) -> (r: Vec<String>)
    ensures
        string_seq_views(r@) == external_dirs(installs@, exe@, string_seq_views(registered@)),
{
    let mut dirs: Vec<String> = Vec::new();
    match enclosing_bundle(exe) {
        Some(bundle) => {
            let key = install_key(bundle.as_str());
            dirs.push(join(installs, key.as_str()));
        },
        None => {},
    }
    if registered.len() == 1 {
        dirs.push(registered[0].clone());
    }
    assert(string_seq_views(dirs@) =~= external_dirs(
        installs@,
        exe@,
        string_seq_views(registered@),
    ));
    dirs
}

/// The installed AppImage, from the value of `$APPIMAGE`: only an absolute
/// path is one.
pub fn appimage_path(appimage: Option<String>) -> (r: Option<String>)
    ensures
        r == match appimage {
            Some(p) => if crate::paths::is_absolute(p@) {
                Some(p)
            } else {
                None::<String>
            },
            None => None::<String>,
        },
{
    match appimage {
        Some(p) => if crate::paths::is_absolute_path(p.as_str()) {
            Some(p)
        } else {
            None
        },
        None => None,
    }
}

/// The `.app` that holds this executable, if there is one
/// (`<bundle>.app/Contents/MacOS/<binary>`).
pub fn enclosing_bundle(exe: &str) -> (r: Option<String>)
    ensures
        match r {
            Some(b) => crate::update::bundle_of_spec(exe@) == Some(b@),
            None => crate::update::bundle_of_spec(exe@) is None,
        },
{
    match crate::update::bundle_of(exe) {
        Ok(b) => Some(b),
        Err(_) => None,
    }
}

/// The texts joined by `", "`.
pub open spec fn comma_joined(v: Seq<Seq<char>>) -> Seq<char>
    decreases v.len(),
{
    if v.len() == 0 {
        Seq::empty()
    } else if v.len() == 1 {
        v[0]
    } else {
        comma_joined(v.drop_last()) + ", "@ + v.last()
    }
}

pub open spec fn candidate_dirs(c: Seq<(String, bool)>) -> Seq<Seq<char>> {
    c.map_values(|p: (String, bool)| p.0@)
}

/// Index of the first candidate that holds a pack, or -1.
pub open spec fn first_present(c: Seq<(String, bool)>) -> int
    decreases c.len(),
{
    if c.len() == 0 {
        -1
    } else if first_present(c.drop_last()) >= 0 {
        first_present(c.drop_last())
    } else if c.last().1 {
        c.len() - 1
    } else {
        -1
    }
}

impl ClientConfig {
    /// The directory of the pack: the first candidate that holds a
    /// `client_config.json` (`candidates` pairs each directory, in the order
    /// `pack_dir_candidates` gives, with whether the file is there).
    pub fn resolve(exe: Option<&str>, candidates: &Vec<(String, bool)>) -> (r: Result<String, String>)
        ensures
            match exe {
                None => r matches Err(e) && e@
                    == "cannot locate the engine executable, so the client pack cannot be found"@,
                Some(x) => if first_present(candidates@) >= 0 {
                    r matches Ok(d) && d@ == candidates@[first_present(candidates@)].0@
                } else {
                    r matches Err(e) && e@ == "no "@ + CLIENT_CONFIG_FILE@ + " found next to "@
                        + x@ + "; looked in: "@ + comma_joined(candidate_dirs(candidates@))
                },
            },
    {
        let found_exe = match exe {
            Some(x) => x,
            None => {
                return Err(
                    "cannot locate the engine executable, so the client pack cannot be found".to_owned(),
                );
            },
        };
        let mut listed: Vec<char> = Vec::new();
        let mut i: usize = 0;
        while i < candidates.len()
            invariant
                i <= candidates@.len(),
                exe == Some(found_exe),
                first_present(candidates@.take(i as int)) < 0,
                listed@ == comma_joined(candidate_dirs(candidates@.take(i as int))),
            decreases candidates@.len() - i,
        {
            assert(candidates@.take(i + 1).drop_last() =~= candidates@.take(i as int));
            assert(candidate_dirs(candidates@.take(i + 1)).drop_last() =~= candidate_dirs(
                candidates@.take(i as int),
            ));
            if candidates[i].1 {
                proof {
                    lemma_first_present_prefix(candidates@, i as int);
                }
                return Ok(candidates[i].0.clone());
            }
            if i > 0 {
                push_str(&mut listed, ", ");
            }
            push_str(&mut listed, candidates[i].0.as_str());
            i += 1;
            assert(listed@ =~= comma_joined(candidate_dirs(candidates@.take(i as int))));
        }
        assert(candidates@.take(i as int) =~= candidates@);
        let mut m = to_chars("no ");
        push_str(&mut m, CLIENT_CONFIG_FILE);
        push_str(&mut m, " found next to ");
        push_str(&mut m, found_exe);
        push_str(&mut m, "; looked in: ");
        crate::text::push_all(&mut m, &listed);
        Err(from_chars(&m))
    }
}

proof fn lemma_first_present_prefix(c: Seq<(String, bool)>, i: int)
    requires
        0 <= i < c.len(),
        first_present(c.take(i)) < 0,
        c[i].1,
    ensures
        first_present(c) == i,
    decreases c.len(),
{
    if i < c.len() - 1 {
        assert(c.drop_last().take(i) =~= c.take(i));
        lemma_first_present_prefix(c.drop_last(), i);
    } else {
        assert(c.drop_last() =~= c.take(i));
    }
}

/// An accepted pack is safe to act on: its panel is `https`, its tenant id
/// stays inside a URL path segment, its slug inside one directory name, and
/// its icon names a file of the pack's own directory.
pub proof fn law_accepted_pack_is_safe(bytes: Seq<u8>, dir: Seq<char>)
    ensures
        client_of_bytes(bytes, dir) matches Some(c) ==> {
            &&& https_url_ok(c.api_base_url)
            &&& tenant_id_ok(c.tenant_id)
            &&& slug_ok(c.slug)
            &&& plain_file_name(c.icon)
            &&& c.display_name.len() > 0
            &&& c.dir == dir
        },
{
}

} // verus!
