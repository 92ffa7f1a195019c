//! Mise à jour du moteur, une fois installé : les décisions.
//!
//! Le manifeste du serveur, servi en https, annonce la version du moteur, son
//! URL et son `sha256`. Rien n'est écrit sur le disque avant que l'empreinte
//! téléchargée corresponde à celle annoncée, et l'URL doit rester sur le panel
//! du pack client. Le téléchargement, l'extraction et l'échange des fichiers
//! sont faits par l'application.

use vstd::prelude::*;

use crate::client_config::{hex_bytes, sha256, sha256_of};
use crate::paths::{join, parent, path_join, path_parent};
use crate::text::{
    ascii_lower, dec_chars, dec_seq, eq_chars, find, first_occurrence_from, from_chars, index_of, is_ascii_alphanumeric,
    is_ascii_hexdigit, lower_seq, occurs_at, push_all, push_str, slice, spec_is_ascii_alphanumeric,
    spec_is_ascii_hexdigit, spec_starts_with, starts_with, to_ascii_lowercase, to_chars,
};

verus! {

/// Un moteur vaut quelques dizaines de méga-octets ; au-delà, c'est autre chose.
pub const MAX_ENGINE_BYTES: u64 = 536870912;

/// Le moteur annoncé par le manifeste du serveur.
pub struct Engine {
    pub version: String,
    pub url: String,
    pub sha256: String,
    pub format: String,
}

pub struct Manifest {
    pub schema: u32,
    pub engine: Engine,
}

/// A format name reduced to its lower-cased ASCII letters and digits.
pub open spec fn normalized(format: Seq<char>) -> Seq<char>
    decreases format.len(),
{
    if format.len() == 0 {
        format
    } else {
        let prev = normalized(format.drop_last());
        let c = format.last();
        if spec_is_ascii_alphanumeric(c) {
            prev.push(crate::text::spec_ascii_lower(c))
        } else {
            prev
        }
    }
}

/// `exe-zip`, `exezip` and `EXE_ZIP` are the same format.
pub fn normalize(format: &str) -> (r: String)
    ensures
        r@ == normalized(format@),
{
    let f = to_chars(format);
    let mut r: Vec<char> = Vec::new();
    let mut i: usize = 0;
    while i < f.len()
        invariant
            i <= f@.len(),
            r@ == normalized(f@.take(i as int)),
        decreases f@.len() - i,
    {
        assert(f@.take(i + 1).drop_last() =~= f@.take(i as int));
        if is_ascii_alphanumeric(f[i]) {
            r.push(ascii_lower(f[i]));
        }
        i += 1;
    }
    assert(f@.take(i as int) =~= f@);
    from_chars(&r)
}

/// Vocabulaire d'OS du panel, qui n'est pas exactement celui de Rust.
pub open spec fn panel_os_of(os: Seq<char>) -> Seq<char> {
    if os == "windows"@ {
        "windows"@
    } else if os == "macos"@ {
        "macos"@
    } else {
        "linux"@
    }
}

/// Le nom d'OS du panel pour un nom d'OS de Rust (`std::env::consts::OS`).
pub fn panel_os(os: &str) -> (r: &'static str)
    ensures
        r@ == panel_os_of(os@),
{
    let o = to_chars(os);
    if eq_chars(&o, &to_chars("windows")) {
        "windows"
    } else if eq_chars(&o, &to_chars("macos")) {
        "macos"
    } else {
        "linux"
    }
}

/// `scheme://hôte[:port]` d'une URL absolue, sans le chemin.
pub open spec fn origin_spec(url: Seq<char>) -> Option<Seq<char>> {
    if !crate::text::spec_contains(url, "://"@) {
        None
    } else {
        let i = choose|i: int| first_occurrence_from(url, "://"@, 0, i);
        let rest = url.skip(i + 3);
        let host = if rest.contains('/') {
            rest.take(choose|k: int| crate::text::first_index_of(rest, '/', k))
        } else {
            rest
        };
        if host.len() == 0 {
            None
        } else {
            Some(url.take(i) + "://"@ + host)
        }
    }
}

proof fn lemma_first_index_unique(s: Seq<char>, c: char, i: int, k: int)
    requires
        crate::text::first_index_of(s, c, i),
        crate::text::first_index_of(s, c, k),
    ensures
        i == k,
{
    if i < k {
        assert(s[i] == c);
    } else if k < i {
        assert(s[k] == c);
    }
}

fn not_absolute(url: &str) -> (r: String)
    ensures
        r@ == "not an absolute url: "@ + url@,
{
    let mut m = to_chars("not an absolute url: ");
    push_str(&mut m, url);
    from_chars(&m)
}

/// `https://hôte[:port]` extrait d'une URL, sans le chemin.
pub fn origin_of(url: &str) -> (r: Result<String, String>)
    ensures
        r matches Ok(o) ==> origin_spec(url@) == Some(o@),
        r is Err ==> origin_spec(url@) is None,
        r matches Err(e) ==> e@ == "not an absolute url: "@ + url@,
{
    let u = to_chars(url);
    let sep = to_chars("://");
    assert(sep@.len() == 3) by {
        reveal_strlit("://");
    }
    let i = match find(&u, &sep) {
        Some(i) => i,
        None => return Err(not_absolute(url)),
    };
    proof {
        let k = choose|k: int| first_occurrence_from(u@, "://"@, 0, k);
        assert(crate::text::occurs_at(u@, "://"@, i as int));
        crate::text::lemma_first_occurrence_unique(u@, "://"@, 0, i as int, k);
    }
    let n = u.len();
    assert(i + 3 <= n);
    let rest = slice(&u, i + 3, n);
    assert(rest@ =~= u@.skip(i + 3));
    let host = match index_of(&rest, '/') {
        Some(k) => {
            proof {
                let k2 = choose|k2: int| crate::text::first_index_of(rest@, '/', k2);
                assert(rest@[k as int] == '/');
                lemma_first_index_unique(rest@, '/', k as int, k2);
            }
            let h = slice(&rest, 0, k);
            assert(h@ =~= rest@.take(k as int));
            h
        },
        None => rest,
    };
    if host.len() == 0 {
        return Err(not_absolute(url));
    }
    let mut out = slice(&u, 0, i);
    assert(out@ =~= u@.take(i as int));
    push_all(&mut out, &sep);
    push_all(&mut out, &host);
    Ok(from_chars(&out))
}

/// Vraie quand l'URL est sur cette origine, et pas seulement préfixée par
/// elle : le `/` qui suit distingue `https://panel.fr/…` de
/// `https://panel.fr.evil.example/…`.
pub open spec fn same_origin_spec(url: Seq<char>, origin: Seq<char>) -> bool {
    url.len() > origin.len() && spec_starts_with(url, origin) && url[origin.len() as int] == '/'
}

pub fn same_origin(url: &str, origin: &str) -> (r: bool)
    ensures
        r == same_origin_spec(url@, origin@),
{
    let u = to_chars(url);
    let o = to_chars(origin);
    u.len() > o.len() && starts_with(&u, &o) && u[o.len()] == '/'
}

/// Où préparer la nouvelle version : `<racine>/.tmp`, la racine de
/// l'installation étant deux crans au-dessus du binaire (`<racine>/engine/`).
pub open spec fn staging_dir_of(target: Seq<char>) -> Option<Seq<char>> {
    match path_parent(target) {
        Some(dir) => match path_parent(dir) {
            Some(root) => Some(path_join(root, ".tmp"@)),
            None => None,
        },
        None => None,
    }
}

pub fn staging_dir(target: &str) -> (r: Result<String, String>)
    ensures
        r matches Ok(s) ==> staging_dir_of(target@) == Some(s@),
        r is Err ==> staging_dir_of(target@) is None,
        r matches Err(e) ==> e@ == "the engine is not inside an installation directory"@,
{
    match parent(target) {
        Some(dir) => match parent(dir.as_str()) {
            Some(root) => Ok(join(root.as_str(), ".tmp")),
            None => Err("the engine is not inside an installation directory".to_owned()),
        },
        None => Err("the engine is not inside an installation directory".to_owned()),
    }
}

/// The file name of a path: its last component, trailing separators ignored.
pub open spec fn file_name_of(p: Seq<char>) -> Seq<char> {
    let q = crate::text::trim_end_char(p, '/');
    q.skip(crate::paths::last_slash(q) + 1)
}

/// Index of the last `.` of a name, or `-1`.
pub open spec fn last_dot(p: Seq<char>) -> int
    decreases p.len(),
{
    if p.len() == 0 {
        -1
    } else if p.last() == '.' {
        p.len() - 1
    } else {
        last_dot(p.drop_last())
    }
}

/// `Path::extension`: what follows the last `.` of the file name, unless
/// that dot starts the name.
pub open spec fn extension_of(p: Seq<char>) -> Option<Seq<char>> {
    let name = file_name_of(p);
    let d = last_dot(name);
    if d <= 0 {
        None
    } else {
        Some(name.skip(d + 1))
    }
}

/// Whether a directory is an application bundle (`.app`, any case).
pub open spec fn is_app_bundle(p: Seq<char>) -> bool {
    match extension_of(p) {
        Some(e) => lower_seq(e) == "app"@,
        None => false,
    }
}

/// Le `.app` qui contient l'exécutable : trois crans au-dessus
/// (`<bundle>.app/Contents/MacOS/<binaire>`).
pub open spec fn bundle_of_spec(target: Seq<char>) -> Option<Seq<char>> {
    match path_parent(target) {
        Some(a) => match path_parent(a) {
            Some(b) => match path_parent(b) {
                Some(bundle) => if is_app_bundle(bundle) {
                    Some(bundle)
                } else {
                    None
                },
                None => None,
            },
            None => None,
        },
        None => None,
    }
}

fn last_dot_exec(p: &[char]) -> (r: Option<usize>)
    ensures
        r matches Some(i) ==> i == last_dot(p@) && i < p@.len(),
        r is None ==> last_dot(p@) == -1,
{
    let mut k: usize = p.len();
    assert(p@.take(p@.len() as int) =~= p@);
    while k > 0
        invariant
            k <= p@.len(),
            last_dot(p@) == last_dot(p@.take(k as int)),
        decreases k,
    {
        assert(p@.take(k as int).drop_last() =~= p@.take(k - 1));
        if p[k - 1] == '.' {
            return Some(k - 1);
        }
        k -= 1;
    }
    None
}

/// The file name of a path: its last component, trailing separators ignored.
pub(crate) fn file_name(p: &str) -> (r: Vec<char>)
    ensures
        r@ == file_name_of(p@),
{
    let q = crate::text::trim_end_matches(&to_chars(p), '/');
    let n = q.len();
    let start = match crate::paths::last_slash_exec(&q) {
        Some(i) => {
            assert(i < n);
            i + 1
        },
        None => 0,
    };
    let name = slice(&q, start, q.len());
    assert(name@ =~= file_name_of(p@));
    name
}

fn is_app_bundle_exec(p: &str) -> (r: bool)
    ensures
        r == is_app_bundle(p@),
{
    let name = file_name(p);
    let nl = name.len();
    match last_dot_exec(&name) {
        Some(d) => {
            if d == 0 {
                return false;
            }
            assert(d < nl);
            let ext = slice(&name, d + 1, name.len());
            assert(ext@ =~= name@.skip(d + 1));
            let lowered = to_ascii_lowercase(&ext);
            eq_chars(&lowered, &to_chars("app"))
        },
        None => false,
    }
}

/// Le `.app` qui contient l'exécutable courant.
pub fn bundle_of(target: &str) -> (r: Result<String, String>)
    ensures
        r matches Ok(s) ==> bundle_of_spec(target@) == Some(s@),
        r is Err ==> bundle_of_spec(target@) is None,
        r matches Err(e) ==> e@ == "the engine is not inside an application bundle"@,
{
    let a = match parent(target) {
        Some(a) => a,
        None => return Err("the engine is not inside an application bundle".to_owned()),
    };
    let b = match parent(a.as_str()) {
        Some(b) => b,
        None => return Err("the engine is not inside an application bundle".to_owned()),
    };
    let bundle = match parent(b.as_str()) {
        Some(c) => c,
        None => return Err("the engine is not inside an application bundle".to_owned()),
    };
    if is_app_bundle_exec(bundle.as_str()) {
        Ok(bundle)
    } else {
        Err("the engine is not inside an application bundle".to_owned())
    }
}

/// Où préparer la nouvelle version sous macOS : à côté du bundle, dans
/// `.luuxcraft-update`.
pub open spec fn macos_staging_dir_of(target: Seq<char>) -> Option<Seq<char>> {
    match bundle_of_spec(target) {
        Some(bundle) => match path_parent(bundle) {
            Some(dir) => Some(path_join(dir, ".luuxcraft-update"@)),
            None => None,
        },
        None => None,
    }
}

pub fn macos_staging_dir(target: &str) -> (r: Result<String, String>)
    ensures
        r matches Ok(s) ==> macos_staging_dir_of(target@) == Some(s@),
        r is Err ==> macos_staging_dir_of(target@) is None,
        r matches Err(e) ==> e@ == if bundle_of_spec(target@) is None {
            "the engine is not inside an application bundle"@
        } else {
            "the application bundle has no parent directory"@
        },
{
    let bundle = bundle_of(target)?;
    match parent(bundle.as_str()) {
        Some(dir) => Ok(join(dir.as_str(), ".luuxcraft-update")),
        None => Err("the application bundle has no parent directory".to_owned()),
    }
}

/// Un `sha256` annoncé : 64 chiffres hexadécimaux.
pub open spec fn digest_shape(d: Seq<char>) -> bool {
    d.len() == 64 && forall|i: int| 0 <= i < 64 ==> spec_is_ascii_hexdigit(#[trigger] d[i])
}

/// Ce que le manifeste demande, face à ce qui tourne.
pub enum UpdatePlan {
    /// La version publiée est celle qui tourne.
    UpToDate,
    /// Une autre version est publiée, et elle peut être installée.
    Install,
}

/// The decision on a manifest: `Err(())` when it must be refused, or when the
/// game runs.
pub open spec fn plan_of(
    schema: u32,
    version: Seq<char>,
    url: Seq<char>,
    sha: Seq<char>,
    running: Seq<char>,
    api_base: Seq<char>,
    game_busy: bool,
) -> Result<bool, ()> {
    if schema != 1 {
        Err(())
    } else if version == running {
        Ok(false)
    } else {
        match origin_spec(api_base) {
            None => Err(()),
            Some(origin) => if !same_origin_spec(url, origin) || !digest_shape(sha) || game_busy {
                Err(())
            } else {
                Ok(true)
            },
        }
    }
}

/// Why a manifest is refused, when `plan_of` refuses it.
pub open spec fn plan_refusal(
    schema: u32,
    url: Seq<char>,
    sha: Seq<char>,
    api_base: Seq<char>,
) -> Seq<char> {
    if schema != 1 {
        "unsupported manifest schema "@ + dec_seq(schema as nat)
    } else {
        match origin_spec(api_base) {
            None => "not an absolute url: "@ + api_base,
            Some(origin) => if !same_origin_spec(url, origin) {
                "engine url outside "@ + origin
            } else if !digest_shape(sha) {
                "engine sha256 is not a digest"@
            } else {
                "the game is running"@
            },
        }
    }
}

fn digest_shaped(d: &[char]) -> (r: bool)
    ensures
        r == digest_shape(d@),
{
    if d.len() != 64 {
        return false;
    }
    let mut i: usize = 0;
    while i < 64
        invariant
            i <= 64,
            d@.len() == 64,
            forall|j: int| 0 <= j < i ==> spec_is_ascii_hexdigit(#[trigger] d@[j]),
        decreases 64 - i,
    {
        if !is_ascii_hexdigit(d[i]) {
            return false;
        }
        i += 1;
    }
    true
}

/// Décide de ce qu'il faut faire d'un manifeste : rien (la version publiée
/// est celle qui tourne), l'installer, ou le refuser (schéma inconnu, URL
/// hors du panel du pack, empreinte qui n'en est pas une, jeu en cours).
pub fn plan_update(manifest: &Manifest, running: &str, api_base: &str, game_busy: bool) -> (r:
    Result<UpdatePlan, String>)
    ensures
        r is Err <==> plan_of(
            manifest.schema,
            manifest.engine.version@,
            manifest.engine.url@,
            manifest.engine.sha256@,
            running@,
            api_base@,
            game_busy,
        ) is Err,
        r matches Ok(p) ==> plan_of(
            manifest.schema,
            manifest.engine.version@,
            manifest.engine.url@,
            manifest.engine.sha256@,
            running@,
            api_base@,
            game_busy,
        ) == Ok::<bool, ()>(p is Install),
        r matches Err(e) ==> e@ == plan_refusal(
            manifest.schema,
            manifest.engine.url@,
            manifest.engine.sha256@,
            api_base@,
        ),
{
    if manifest.schema != 1 {
        let mut m = to_chars("unsupported manifest schema ");
        let digits = dec_chars(manifest.schema as u64);
        push_all(&mut m, &digits);
        return Err(from_chars(&m));
    }
    if eq_chars(&to_chars(manifest.engine.version.as_str()), &to_chars(running)) {
        return Ok(UpdatePlan::UpToDate);
    }
    let origin = origin_of(api_base)?;
    if !same_origin(manifest.engine.url.as_str(), origin.as_str()) {
        let mut m = to_chars("engine url outside ");
        push_str(&mut m, origin.as_str());
        return Err(from_chars(&m));
    }
    if !digest_shaped(&to_chars(manifest.engine.sha256.as_str())) {
        return Err("engine sha256 is not a digest".to_owned());
    }
    if game_busy {
        return Err("the game is running".to_owned());
    }
    Ok(UpdatePlan::Install)
}

/// The lower-case hexadecimal SHA-256 of `bytes` equals `expected`, ASCII
/// case ignored.
pub open spec fn digest_matches(bytes: Seq<u8>, expected: Seq<char>) -> bool {
    hex_bytes(sha256_of(bytes)) == lower_seq(expected)
}

/// Vérifie un moteur téléchargé : taille plausible et empreinte annoncée.
pub fn verify_download(bytes: &[u8], expected: &str) -> (r: Result<(), String>)
    ensures
        r is Ok <==> bytes@.len() <= MAX_ENGINE_BYTES && digest_matches(bytes@, expected@),
        r matches Err(e) ==> e@ == if bytes@.len() > MAX_ENGINE_BYTES {
            "engine is "@ + dec_seq(bytes@.len()) + " bytes"@
        } else {
            "downloaded engine does not match its digest"@
        },
{
    if bytes.len() as u64 > MAX_ENGINE_BYTES {
        let mut m = to_chars("engine is ");
        let digits = dec_chars(bytes.len() as u64);
        push_all(&mut m, &digits);
        push_str(&mut m, " bytes");
        return Err(from_chars(&m));
    }
    let digest = sha256(bytes);
    let mut got: Vec<char> = Vec::new();
    let mut i: usize = 0;
    while i < digest.len()
        invariant
            i <= digest@.len(),
            got@ == hex_bytes(digest@.take(i as int)),
        decreases digest@.len() - i,
    {
        let b = digest[i];
        assert(digest@.take(i + 1).drop_last() =~= digest@.take(i as int));
        let hi = b / 16;
        let lo = b % 16;
        got.push(if hi < 10 {
            (hi + 0x30) as char
        } else {
            (hi + 0x61 - 10) as char
        });
        got.push(if lo < 10 {
            (lo + 0x30) as char
        } else {
            (lo + 0x61 - 10) as char
        });
        i += 1;
    }
    assert(digest@.take(i as int) =~= digest@);
    let want = to_ascii_lowercase(&to_chars(expected));
    if eq_chars(&got, &want) {
        Ok(())
    } else {
        Err("downloaded engine does not match its digest".to_owned())
    }
}


// ── Fetching and unpacking ──────────────────────────────────────────────────

/// The manifest of the tenant's engine for this machine; `api_base` ends
/// with `/api`, the distribution routes are under `/api/v1`.
pub open spec fn manifest_url_of(api_base: Seq<char>, tenant_id: Seq<char>, os: Seq<char>, arch: Seq<char>) -> Seq<char> {
    crate::text::trim_end_char(api_base, '/') + "/v1/launchers/"@ + tenant_id + "/manifest?os="@
        + panel_os_of(os) + "&arch="@ + arch
}

pub fn manifest_url(api_base: &str, tenant_id: &str, os: &str, arch: &str) -> (r: String)
    ensures
        r@ == manifest_url_of(api_base@, tenant_id@, os@, arch@),
{
    let mut url = crate::text::trim_end_matches(&to_chars(api_base), '/');
    push_str(&mut url, "/v1/launchers/");
    push_str(&mut url, tenant_id);
    push_str(&mut url, "/manifest?os=");
    push_str(&mut url, panel_os(os));
    push_str(&mut url, "&arch=");
    push_str(&mut url, arch);
    from_chars(&url)
}

/// A download that announces more than an engine can weigh is refused
/// before it is read.
pub fn check_announced_size(length: Option<u64>) -> (r: Result<(), String>)
    ensures
        r is Err <==> (length matches Some(l) && l > MAX_ENGINE_BYTES),
        r matches Err(e) ==> e@ == "engine announces "@ + crate::text::dec_seq(length.unwrap() as nat)
            + " bytes"@,
{
    match length {
        Some(l) => if l > MAX_ENGINE_BYTES {
            let mut m = to_chars("engine announces ");
            let digits = crate::text::dec_chars(l);
            push_all(&mut m, &digits);
            push_str(&mut m, " bytes");
            Err(from_chars(&m))
        } else {
            Ok(())
        },
        None => Ok(()),
    }
}

/// An answer of the panel is read only when its status is a success
/// (`200` to `299`); otherwise `<what> answered <status>`.
pub fn check_status(what: &str, status: u16) -> (r: Result<(), String>)
    ensures
        r is Ok <==> 200 <= status <= 299,
        r matches Err(e) ==> e@ == what@ + " answered "@ + crate::text::dec_seq(status as nat),
{
    if 200 <= status && status <= 299 {
        Ok(())
    } else {
        let mut m = to_chars(what);
        push_str(&mut m, " answered ");
        let digits = crate::text::dec_chars(status as u64);
        push_all(&mut m, &digits);
        Err(from_chars(&m))
    }
}

// ── Swapping the engine ─────────────────────────────────────────────────────

/// What the swap does once the new engine was renamed into place, or failed
/// to be.
pub struct SwapEnd {
    /// Rename the old engine back where it was.
    pub put_back: bool,
    /// Remove what was set aside (best effort: it may still be open).
    pub clear_aside: bool,
    pub result: Result<(), String>,
}

/// Setting the old engine aside comes first; when it fails nothing else is
/// done and the swap fails with the reason.
pub fn after_move_aside(moved: Result<(), String>) -> (r: Result<(), String>)
    ensures
        match moved {
            Ok(()) => r is Ok,
            Err(reason) => r matches Err(e) && e@ == "cannot move the old engine aside: "@ + reason@,
        },
{
    match moved {
        Ok(()) => Ok(()),
        Err(reason) => {
            let mut m = to_chars("cannot move the old engine aside: ");
            push_str(&mut m, reason.as_str());
            Err(from_chars(&m))
        },
    }
}

/// Once the new engine is renamed into place the old one is cleared away;
/// when the rename fails, the old one is put back (when there was one), so
/// the player keeps a launcher that starts.
pub fn after_install(had_previous: bool, installed: Result<(), String>) -> (r: SwapEnd)
    ensures
        match installed {
            Ok(()) => !r.put_back && r.clear_aside && r.result is Ok,
            Err(reason) => {
                &&& r.put_back == had_previous
                &&& !r.clear_aside
                &&& r.result matches Err(e) && e@ == "cannot install the new engine: "@ + reason@
            },
        },
{
    match installed {
        Ok(()) => SwapEnd { put_back: false, clear_aside: true, result: Ok(()) },
        Err(reason) => {
            let mut m = to_chars("cannot install the new engine: ");
            push_str(&mut m, reason.as_str());
            SwapEnd { put_back: had_previous, clear_aside: false, result: Err(from_chars(&m)) }
        },
    }
}

/// The packaging of the engine on each OS.
pub open spec fn engine_format_of(os: Seq<char>) -> Seq<char> {
    if os == "windows"@ {
        "exezip"@
    } else if os == "macos"@ {
        "apptargz"@
    } else {
        "appimage"@
    }
}

/// The manifest's format must be the packaging of this OS, whatever its
/// spelling.
pub fn check_engine_format(os: &str, format: &str) -> (r: Result<(), String>)
    ensures
        r is Ok <==> normalized(format@) == engine_format_of(os@),
        r matches Err(e) ==> e@ == "unsupported engine format "@ + format@,
{
    let o = to_chars(os);
    let expected = if eq_chars(&o, &to_chars("windows")) {
        "exezip"
    } else if eq_chars(&o, &to_chars("macos")) {
        "apptargz"
    } else {
        "appimage"
    };
    let got = normalize(format);
    if eq_chars(&to_chars(got.as_str()), &to_chars(expected)) {
        Ok(())
    } else {
        let mut m = to_chars("unsupported engine format ");
        push_str(&mut m, format);
        Err(from_chars(&m))
    }
}

/// The entries of the Windows archive that are extracted: a plain `.exe`
/// file name, never a path (Zip Slip).
pub open spec fn engine_entry_ok(name: Seq<char>) -> bool {
    &&& !crate::text::spec_contains(name, "/"@)
    &&& !crate::text::spec_contains(name, "\\"@)
    &&& !crate::text::spec_contains(name, ".."@)
    &&& crate::text::spec_ends_with(lower_seq(name), ".exe"@)
}

pub fn is_engine_entry(name: &str) -> (r: bool)
    ensures
        r == engine_entry_ok(name@),
{
    let n = to_chars(name);
    !crate::text::contains(&n, &to_chars("/")) && !crate::text::contains(&n, &to_chars("\\"))
        && !crate::text::contains(&n, &to_chars("..")) && crate::text::ends_with(
        &to_ascii_lowercase(&n),
        &to_chars(".exe"),
    )
}


// ── Laws ────────────────────────────────────────────────────────────────────

/// An engine is installed only from the panel of the client pack, with an
/// announced digest, never over a running game, and only when it is not the
/// version that runs.
pub proof fn law_install_only_from_the_panel(
    schema: u32,
    version: Seq<char>,
    url: Seq<char>,
    sha: Seq<char>,
    running: Seq<char>,
    api_base: Seq<char>,
    game_busy: bool,
)
    ensures
        plan_of(schema, version, url, sha, running, api_base, game_busy) == Ok::<bool, ()>(true)
            ==> {
            &&& schema == 1
            &&& version != running
            &&& origin_spec(api_base) matches Some(o) && same_origin_spec(url, o)
            &&& digest_shape(sha)
            &&& !game_busy
        },
{
}

proof fn lemma_first_occurrence_exists(hay: Seq<char>, needle: Seq<char>, j: int)
    requires
        occurs_at(hay, needle, j),
    ensures
        exists|i: int| first_occurrence_from(hay, needle, 0, i),
    decreases j,
{
    if exists|k: int| 0 <= k < j && occurs_at(hay, needle, k) {
        let k = choose|k: int| 0 <= k < j && occurs_at(hay, needle, k);
        lemma_first_occurrence_exists(hay, needle, k);
    } else {
        assert(first_occurrence_from(hay, needle, 0, j));
    }
}

proof fn lemma_first_index_exists(s: Seq<char>, c: char, j: int)
    requires
        0 <= j < s.len(),
        s[j] == c,
    ensures
        exists|i: int| crate::text::first_index_of(s, c, i),
    decreases j,
{
    if exists|k: int| 0 <= k < j && s[k] == c {
        let k = choose|k: int| 0 <= k < j && s[k] == c;
        lemma_first_index_exists(s, c, k);
    } else {
        assert(crate::text::first_index_of(s, c, j));
    }
}

/// A URL accepted as being on the panel has the panel's origin as its own:
/// a lookalike host (`https://panel.fr.evil.example/…`) is not the panel.
pub proof fn law_same_origin_is_the_origin(url: Seq<char>, api_base: Seq<char>)
    requires
        origin_spec(api_base) matches Some(o) && same_origin_spec(url, o),
    ensures
        origin_spec(url) == origin_spec(api_base),
{
    reveal_strlit("://");
    let sep = "://"@;
    let o = origin_spec(api_base).unwrap();
    let j0 = choose|j: int| occurs_at(api_base, sep, j);
    lemma_first_occurrence_exists(api_base, sep, j0);
    let i0 = choose|i: int| first_occurrence_from(api_base, sep, 0, i);
    assert(0 <= i0 && i0 + 3 <= api_base.len());
    let rest_a = api_base.skip(i0 + 3);
    if rest_a.contains('/') {
        let t = choose|t: int| 0 <= t < rest_a.len() && rest_a[t] == '/';
        lemma_first_index_exists(rest_a, '/', t);
    }
    let host = if rest_a.contains('/') {
        rest_a.take(choose|k: int| crate::text::first_index_of(rest_a, '/', k))
    } else {
        rest_a
    };
    assert(o == api_base.take(i0) + sep + host);
    assert(!host.contains('/')) by {
        if rest_a.contains('/') {
            let k0 = choose|k: int| crate::text::first_index_of(rest_a, '/', k);
            if host.contains('/') {
                let t = choose|t: int| 0 <= t < host.len() && host[t] == '/';
                assert(rest_a[t] == '/');
            }
        }
    }
    let n = o.len();
    assert(n == i0 + 3 + host.len());
    assert(url.take(n as int) == o);
    // The separator comes first at the same place in the URL.
    assert(occurs_at(url, sep, i0)) by {
        assert(url.subrange(i0, i0 + 3) =~= o.subrange(i0, i0 + 3));
        assert(o.subrange(i0, i0 + 3) =~= sep);
    }
    assert forall|j: int| 0 <= j < i0 implies !occurs_at(url, sep, j) by {
        if occurs_at(url, sep, j) {
            assert(url.subrange(j, j + 3) =~= api_base.subrange(j, j + 3)) by {
                assert forall|t: int| j <= t < j + 3 implies url[t] == api_base[t] by {
                    assert(url[t] == o[t]);
                    if t < i0 {
                        assert(o[t] == api_base.take(i0)[t]);
                    } else {
                        assert(o[t] == sep[t - i0]);
                        assert(api_base.subrange(i0, i0 + 3) == sep);
                        assert(api_base.subrange(i0, i0 + 3)[t - i0] == api_base[t]);
                    }
                }
            }
            assert(occurs_at(api_base, sep, j));
        }
    }
    assert(first_occurrence_from(url, sep, 0, i0));
    assert(crate::text::spec_contains(url, sep));
    let iu = choose|i: int| first_occurrence_from(url, sep, 0, i);
    crate::text::lemma_first_occurrence_unique(url, sep, 0, i0, iu);
    // The host ends at the same place: the `/` that follows the origin.
    let rest_u = url.skip(i0 + 3);
    let h: int = host.len() as int;
    assert(rest_u[h] == '/');
    assert(rest_u.contains('/'));
    assert(crate::text::first_index_of(rest_u, '/', h)) by {
        assert forall|j: int| 0 <= j < h implies rest_u[j] != '/' by {
            assert(rest_u[j] == url[i0 + 3 + j]);
            assert(url.take(n as int)[i0 + 3 + j] == url[i0 + 3 + j]);
            assert(o[i0 + 3 + j] == host[j]);
            assert(rest_u[j] == host[j]);
            if host[j] == '/' {
                assert(host.contains('/'));
            }
        }
    }
    let ku = choose|k: int| crate::text::first_index_of(rest_u, '/', k);
    lemma_first_index_unique(rest_u, '/', h, ku);
    assert forall|j: int| 0 <= j < h implies #[trigger] rest_u.take(h)[j] == host[j] by {
        assert(rest_u[j] == url[i0 + 3 + j]);
        assert(url.take(n as int)[i0 + 3 + j] == url[i0 + 3 + j]);
        assert(o[i0 + 3 + j] == host[j]);
    }
    assert(rest_u.take(h) =~= host);
    assert(url.take(i0) =~= api_base.take(i0));
}

} // verus!
