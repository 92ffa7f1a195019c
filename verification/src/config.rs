//! Launcher identity, built-in defaults and the tenant's paths.
//!
//! Everything that can be published by the panel is published by the panel.
//! What it cannot give is its own address and the tenant this engine belongs
//! to: both come from the client pack (`client_config`). The rest of this
//! module is made of plain defaults, applied until the panel (or the user's
//! settings) says otherwise.

use vstd::prelude::*;

use crate::client_config::{CLIENT_DIR, ClientConfig};
use crate::paths::{join, path_join};
use crate::text::{
    eq_chars, from_chars, lead_char, lead_ws, push_all, push_str, remove_chars,
    spec_is_whitespace, string_views, to_chars, trail_char, trail_ws, trim, trim_char, trim_chars,
    trim_end_char, trim_end_matches, trim_matches, without_chars,
};

verus! {

/// Game folder under the platform data directory, until the panel announces
/// its own `dataDirectory`.
pub const DEFAULT_DATA_DIRECTORY: &'static str = "luuxcraft";

/// Route of the dynamic update server under the API base URL. The braces are
/// the placeholders the updater substitutes itself.
pub const UPDATER_ROUTE: &'static str = "/launcher/update/{{target}}/{{arch}}/{{current_version}}";

pub struct LauncherConfig {
    /// LuuxCraft panel user id (`users.id`): `{api.baseUrl}/user/{userId}/...`.
    pub user_id: String,
    /// Slug du tenant, qui nomme aussi son dossier de données.
    pub slug: String,
    pub display_name: String,
    pub api: ApiConfig,
    /// Folder name of the game data under the platform data directory, used
    /// when the panel config does not provide `dataDirectory`.
    pub data_directory: String,
    pub updater: UpdaterConfig,
    pub auth: AuthConfig,
    pub news: NewsConfig,
    pub server_status: ServerStatusConfig,
    pub downloads: DownloadsConfig,
    pub memory: MemoryConfig,
    pub game_window: GameWindowConfig,
}

pub struct ApiConfig {
    pub base_url: String,
    pub timeout_seconds: u64,
}

pub struct UpdaterConfig {
    /// Updater endpoints; empty means "auto-update disabled".
    pub endpoints: Vec<String>,
}

pub struct AuthConfig {
    /// Optional Yggdrasil-compatible server (authlib-injector style).
    pub yggdrasil_server: Option<String>,
}

pub struct NewsConfig {
    pub limit: u32,
}

pub struct ServerStatusConfig {
    pub refresh_seconds: u64,
    pub timeout_ms: u64,
}

pub struct DownloadsConfig {
    pub default_concurrency: usize,
    pub max_concurrency: usize,
}

pub struct MemoryConfig {
    pub default_min_mb: u64,
    pub default_max_mb: u64,
}

pub struct GameWindowConfig {
    pub default_width: u32,
    pub default_height: u32,
}

pub fn default_timeout() -> (r: u64)
    ensures
        r == 15,
{
    15
}

pub fn default_news_limit() -> (r: u32)
    ensures
        r == 12,
{
    12
}

pub fn default_refresh() -> (r: u64)
    ensures
        r == 30,
{
    30
}

pub fn default_status_timeout() -> (r: u64)
    ensures
        r == 3000,
{
    3000
}

pub fn default_concurrency() -> (r: usize)
    ensures
        r == 10,
{
    10
}

/// The download concurrency is clamped to 1..=30.
pub fn default_max_concurrency() -> (r: usize)
    ensures
        r == 30,
{
    30
}

pub fn default_min_mb() -> (r: u64)
    ensures
        r == 1024,
{
    1024
}

pub fn default_max_mb() -> (r: u64)
    ensures
        r == 4096,
{
    4096
}

pub fn default_width() -> (r: u32)
    ensures
        r == 1280,
{
    1280
}

pub fn default_height() -> (r: u32)
    ensures
        r == 720,
{
    720
}

impl Default for NewsConfig {
    fn default() -> (r: Self)
        ensures
            r.limit == 12,
    {
        NewsConfig { limit: default_news_limit() }
    }
}

impl Default for ServerStatusConfig {
    fn default() -> (r: Self)
        ensures
            r.refresh_seconds == 30,
            r.timeout_ms == 3000,
    {
        ServerStatusConfig {
            refresh_seconds: default_refresh(),
            timeout_ms: default_status_timeout(),
        }
    }
}

impl Default for DownloadsConfig {
    fn default() -> (r: Self)
        ensures
            r.default_concurrency == 10,
            r.max_concurrency == 30,
    {
        DownloadsConfig {
            default_concurrency: default_concurrency(),
            max_concurrency: default_max_concurrency(),
        }
    }
}

impl Default for MemoryConfig {
    fn default() -> (r: Self)
        ensures
            r.default_min_mb == 1024,
            r.default_max_mb == 4096,
    {
        MemoryConfig { default_min_mb: default_min_mb(), default_max_mb: default_max_mb() }
    }
}

impl Default for GameWindowConfig {
    fn default() -> (r: Self)
        ensures
            r.default_width == 1280,
            r.default_height == 720,
    {
        GameWindowConfig { default_width: default_width(), default_height: default_height() }
    }
}

/// The update endpoint of a panel: its API base, without trailing slash,
/// followed by the updater route.
pub open spec fn updater_endpoint(base_url: Seq<char>) -> Seq<char> {
    trim_end_char(base_url, '/') + UPDATER_ROUTE@
}

/// Panel route of the dynamic update server, built from the base URL so a
/// launcher pointed at another panel takes its updates from that panel too.
pub fn updater_endpoints_for(base_url: &str) -> (r: Vec<String>)
    ensures
        string_views(r@) == seq![updater_endpoint(base_url@)],
{
    let mut v = trim_end_matches(&to_chars(base_url), '/');
    push_str(&mut v, UPDATER_ROUTE);
    let mut r: Vec<String> = Vec::new();
    r.push(from_chars(&v));
    assert(string_views(r@) =~= seq![updater_endpoint(base_url@)]);
    r
}

/// `{baseUrl}/user/{userId}` without a trailing slash after the base.
pub open spec fn user_api(base_url: Seq<char>, user_id: Seq<char>) -> Seq<char> {
    trim_end_char(base_url, '/') + "/user/"@ + user_id
}

impl LauncherConfig {
    /// Construit la configuration à partir du pack client et des valeurs par
    /// défaut. Infaillible : c'est `ClientConfig` qui valide l'adresse du
    /// panel et l'identifiant du tenant.
    pub fn from_client(client: &ClientConfig) -> (r: Self)
        ensures
            r.user_id@ == client.tenant_id@,
            r.slug@ == client.slug@,
            r.display_name@ == client.display_name@,
            r.api.base_url@ == client.api_base_url@,
            r.api.timeout_seconds == 15,
            r.data_directory@ == DEFAULT_DATA_DIRECTORY@,
            string_views(r.updater.endpoints@) == seq![updater_endpoint(client.api_base_url@)],
            r.auth.yggdrasil_server is None,
            r.news.limit == 12,
            r.server_status.refresh_seconds == 30,
            r.server_status.timeout_ms == 3000,
            r.downloads.default_concurrency == 10,
            r.downloads.max_concurrency == 30,
            r.memory.default_min_mb == 1024,
            r.memory.default_max_mb == 4096,
            r.game_window.default_width == 1280,
            r.game_window.default_height == 720,
    {
        let base_url = client.api_base_url.clone();
        let endpoints = updater_endpoints_for(base_url.as_str());
        LauncherConfig {
            user_id: client.tenant_id.clone(),
            slug: client.slug.clone(),
            display_name: client.display_name.clone(),
            api: ApiConfig { base_url, timeout_seconds: default_timeout() },
            data_directory: DEFAULT_DATA_DIRECTORY.to_owned(),
            updater: UpdaterConfig { endpoints },
            auth: AuthConfig { yggdrasil_server: None },
            news: NewsConfig::default(),
            server_status: ServerStatusConfig::default(),
            downloads: DownloadsConfig::default(),
            memory: MemoryConfig::default(),
            game_window: GameWindowConfig::default(),
        }
    }

    /// `{baseUrl}/user/{userId}` without a trailing slash.
    pub fn user_api_url(&self) -> (r: String)
        ensures
            r@ == user_api(self.api.base_url@, self.user_id@),
    {
        let mut v = trim_end_matches(&to_chars(self.api.base_url.as_str()), '/');
        push_str(&mut v, "/user/");
        push_str(&mut v, self.user_id.as_str());
        from_chars(&v)
    }
}

// ── Paths ───────────────────────────────────────────────────────────────────

/// Fichier des comptes, dans le dossier du launcher.
pub const ACCOUNTS_FILE: &'static str = "accounts.json";

/// Where the launcher keeps its own files and where the game goes.
///
/// Tout ce qui appartient au tenant vit sous sa racine (`~/.<slug>`,
/// `%APPDATA%\.<slug>`) ; la racine du jeu, elle, est partagée entre tenants
/// sous le dossier de données de la plateforme.
pub struct Paths {
    /// `settings.json`, `accounts.json`, les skins et l'empreinte de l'entrée
    /// de bureau.
    pub launcher_dir: String,
    pub cache_dir: String,
    pub logs_dir: String,
    /// Profil de la webview, scopé au tenant.
    pub webview_dir: String,
    /// Platform data directory; the game root is `<base>/<dataDirectory>`.
    pub game_base_dir: String,
    /// Debug builds pin the game root here (`data/minecraft`).
    pub dev_game_root: Option<String>,
}

/// Racine des données d'un tenant sous `base` (le dossier personnel, ou celui
/// de configuration sous Windows) : `<base>/.<slug>`.
pub open spec fn tenant_root_of(base: Seq<char>, slug: Seq<char>) -> Seq<char> {
    path_join(base, "."@ + slug)
}

pub fn tenant_root(base: &str, slug: &str) -> (r: String)
    ensures
        r@ == tenant_root_of(base@, slug@),
{
    let mut name = to_chars(".");
    push_str(&mut name, slug);
    let name = from_chars(&name);
    join(base, name.as_str())
}

/// The characters a panel-provided directory name may not hold.
pub open spec fn reserved_dir_chars() -> Seq<char> {
    seq!['/', '\\', ':', '*', '?', '"', '<', '>', '|']
}

/// Keeps a directory name provided by the panel from escaping its parent:
/// separators and reserved characters removed, dots trimmed at both ends,
/// then white space; `luuxcraft` when nothing is left, or only `.` or `..`.
pub open spec fn sanitized_dir_name(name: Seq<char>) -> Seq<char> {
    let cleaned = trim(trim_char(without_chars(trim(name), reserved_dir_chars()), '.'));
    if cleaned.len() == 0 || cleaned == "."@ || cleaned == ".."@ {
        DEFAULT_DATA_DIRECTORY@
    } else {
        cleaned
    }
}

/// A name that stays inside its parent: not empty, neither `.` nor `..`,
/// neither opened nor closed by white space, and free of separators and
/// reserved characters.
pub open spec fn stays_inside(r: Seq<char>) -> bool {
    &&& r.len() > 0
    &&& r != "."@
    &&& r != ".."@
    &&& !spec_is_whitespace(r[0])
    &&& !spec_is_whitespace(r.last())
    &&& forall|j: int| 0 <= j < r.len() ==> !reserved_dir_chars().contains(#[trigger] r[j])
}

proof fn lemma_without_chars_free(s: Seq<char>, bad: Seq<char>)
    ensures
        forall|j: int|
            0 <= j < without_chars(s, bad).len() ==> !bad.contains(#[trigger] without_chars(s, bad)[j]),
    decreases s.len(),
{
    if s.len() > 0 {
        let p = without_chars(s.drop_last(), bad);
        lemma_without_chars_free(s.drop_last(), bad);
        if !bad.contains(s.last()) {
            assert forall|j: int| 0 <= j < p.len() + 1 implies !bad.contains(
                #[trigger] p.push(s.last())[j],
            ) by {
                if j < p.len() {
                    assert(p.push(s.last())[j] == p[j]);
                }
            }
        }
    }
}

proof fn lemma_lead_ws_stop(s: Seq<char>)
    ensures
        lead_ws(s) <= s.len(),
        lead_ws(s) < s.len() ==> !spec_is_whitespace(s[lead_ws(s) as int]),
    decreases s.len(),
{
    if s.len() > 0 && spec_is_whitespace(s[0]) {
        let t = s.drop_first();
        lemma_lead_ws_stop(t);
        if lead_ws(t) < t.len() {
            assert(t[lead_ws(t) as int] == s[lead_ws(s) as int]);
        }
    }
}

proof fn lemma_trail_ws_stop(s: Seq<char>)
    ensures
        trail_ws(s) <= s.len(),
        trail_ws(s) < s.len() ==> !spec_is_whitespace(s[s.len() - trail_ws(s) - 1]),
    decreases s.len(),
{
    if s.len() > 0 && spec_is_whitespace(s.last()) {
        let t = s.drop_last();
        lemma_trail_ws_stop(t);
        if trail_ws(t) < t.len() {
            assert(t[t.len() - trail_ws(t) - 1] == s[s.len() - trail_ws(s) - 1]);
        }
    }
}

/// What trimming leaves: a run of `s` neither opened nor closed by white
/// space.
proof fn lemma_trim_run(s: Seq<char>)
    ensures
        lead_ws(s) + trim(s).len() <= s.len(),
        forall|j: int| 0 <= j < trim(s).len() ==> #[trigger] trim(s)[j] == s[lead_ws(s) + j],
        trim(s).len() > 0 ==> !spec_is_whitespace(trim(s)[0]) && !spec_is_whitespace(
            trim(s).last(),
        ),
{
    lemma_lead_ws_stop(s);
    let t = s.skip(lead_ws(s) as int);
    lemma_trail_ws_stop(t);
    let c = trim(s);
    if c.len() > 0 {
        assert(c[0] == t[0]);
        assert(c.last() == t[t.len() - trail_ws(t) - 1]);
    }
}

proof fn lemma_lead_char_bound(s: Seq<char>, c: char)
    ensures
        lead_char(s, c) <= s.len(),
    decreases s.len(),
{
    if s.len() > 0 && s[0] == c {
        lemma_lead_char_bound(s.drop_first(), c);
    }
}

proof fn lemma_trail_char_bound(s: Seq<char>, c: char)
    ensures
        trail_char(s, c) <= s.len(),
    decreases s.len(),
{
    if s.len() > 0 && s.last() == c {
        lemma_trail_char_bound(s.drop_last(), c);
    }
}

/// What trimming a character leaves: a run of `s`.
proof fn lemma_trim_char_run(s: Seq<char>, c: char)
    ensures
        lead_char(s, c) + trim_char(s, c).len() <= s.len(),
        forall|j: int|
            0 <= j < trim_char(s, c).len() ==> #[trigger] trim_char(s, c)[j] == s[lead_char(s, c) + j],
{
    lemma_lead_char_bound(s, c);
    lemma_trail_char_bound(s.skip(lead_char(s, c) as int), c);
}

/// A directory name from the panel never escapes its parent.
pub proof fn law_dir_name_stays_inside(name: Seq<char>)
    ensures
        stays_inside(sanitized_dir_name(name)),
{
    let filtered = without_chars(trim(name), reserved_dir_chars());
    lemma_without_chars_free(trim(name), reserved_dir_chars());
    let dotless = trim_char(filtered, '.');
    lemma_trim_char_run(filtered, '.');
    let cleaned = trim(dotless);
    lemma_trim_run(dotless);
    reveal_strlit(".");
    reveal_strlit("..");
    reveal_strlit("luuxcraft");
    if cleaned.len() == 0 || cleaned == "."@ || cleaned == ".."@ {
        let d = DEFAULT_DATA_DIRECTORY@;
        assert(d =~= seq!['l', 'u', 'u', 'x', 'c', 'r', 'a', 'f', 't']);
        assert forall|j: int| 0 <= j < d.len() implies !reserved_dir_chars().contains(
            #[trigger] d[j],
        ) by {
            assert(!reserved_dir_chars().contains(d[j]));
        }
    } else {
        assert forall|j: int| 0 <= j < cleaned.len() implies !reserved_dir_chars().contains(
            #[trigger] cleaned[j],
        ) by {
            assert(cleaned[j] == dotless[lead_ws(dotless) + j]);
            assert(dotless[lead_ws(dotless) + j] == filtered[lead_char(filtered, '.') + lead_ws(
                dotless,
            ) + j]);
        }
    }
}

pub fn sanitize_dir_name(name: &str) -> (r: String)
    ensures
        r@ == sanitized_dir_name(name@),
        stays_inside(r@),
{
    let bad = vec!['/', '\\', ':', '*', '?', '"', '<', '>', '|'];
    assert(bad@ =~= reserved_dir_chars());
    let trimmed = trim_chars(&to_chars(name));
    let filtered = remove_chars(&trimmed, &bad);
    let cleaned = trim_chars(&trim_matches(&filtered, '.'));
    proof {
        law_dir_name_stays_inside(name@);
        reveal_strlit(".");
        reveal_strlit("..");
    }
    if cleaned.len() == 0 || eq_chars(&cleaned, &to_chars(".")) || eq_chars(
        &cleaned,
        &to_chars(".."),
    ) {
        DEFAULT_DATA_DIRECTORY.to_owned()
    } else {
        from_chars(&cleaned)
    }
}

impl Paths {
    /// Les chemins d'un tenant installé : tout sous `root`, le jeu sous
    /// `game_base_dir`.
    pub fn for_tenant(root: &str, game_base_dir: &str) -> (r: Self)
        ensures
            r.launcher_dir@ == root@,
            r.cache_dir@ == path_join(root@, "cache"@),
            r.logs_dir@ == path_join(root@, "logs"@),
            r.webview_dir@ == path_join(root@, "webview"@),
            r.game_base_dir@ == game_base_dir@,
            r.dev_game_root is None,
    {
        Paths {
            launcher_dir: root.to_owned(),
            cache_dir: join(root, "cache"),
            logs_dir: join(root, "logs"),
            webview_dir: join(root, "webview"),
            game_base_dir: game_base_dir.to_owned(),
            dev_game_root: None,
        }
    }

    /// Les chemins d'une build de développement : tout sous `data/` à la
    /// racine du dépôt, le jeu compris (`data/minecraft`).
    pub fn development(root: &str) -> (r: Self)
        ensures
            r.launcher_dir@ == path_join(root@, "launcher"@),
            r.cache_dir@ == path_join(root@, "cache"@),
            r.logs_dir@ == path_join(root@, "logs"@),
            r.webview_dir@ == path_join(root@, "webview"@),
            r.game_base_dir@ == root@,
            r.dev_game_root matches Some(d) && d@ == path_join(root@, "minecraft"@),
    {
        Paths {
            launcher_dir: join(root, "launcher"),
            cache_dir: join(root, "cache"),
            logs_dir: join(root, "logs"),
            webview_dir: join(root, "webview"),
            game_base_dir: root.to_owned(),
            dev_game_root: Some(join(root, "minecraft")),
        }
    }

    /// Fichier des comptes, jetons de session compris. Il suit le tenant,
    /// pas l'installation du jeu.
    pub fn accounts_file(&self) -> (r: String)
        ensures
            r@ == path_join(self.launcher_dir@, ACCOUNTS_FILE@),
    {
        join(self.launcher_dir.as_str(), ACCOUNTS_FILE)
    }

    /// The Minecraft root. A user-chosen install path wins, then the debug
    /// pin, then `<platform data dir>/<dataDirectory>`.
    pub fn game_root(&self, install_path: Option<&str>, data_directory: &str) -> (r: String)
        ensures
            r@ == match install_path {
                Some(custom) => custom@,
                None => match self.dev_game_root {
                    Some(dev) => dev@,
                    None => path_join(self.game_base_dir@, sanitized_dir_name(data_directory@)),
                },
            },
    {
        if let Some(custom) = install_path {
            return custom.to_owned();
        }
        if let Some(dev) = &self.dev_game_root {
            return dev.clone();
        }
        let name = sanitize_dir_name(data_directory);
        join(self.game_base_dir.as_str(), name.as_str())
    }

    pub fn settings_file(&self) -> (r: String)
        ensures
            r@ == path_join(self.launcher_dir@, "settings.json"@),
    {
        join(self.launcher_dir.as_str(), "settings.json")
    }

    pub fn remote_cache_file(&self) -> (r: String)
        ensures
            r@ == path_join(self.cache_dir@, "remote.json"@),
    {
        join(self.cache_dir.as_str(), "remote.json")
    }

    pub fn skins_cache_dir(&self) -> (r: String)
        ensures
            r@ == path_join(self.cache_dir@, "skins"@),
    {
        join(self.cache_dir.as_str(), "skins")
    }

    /// The user's own skin library: user data, not a cache.
    pub fn skins_library_dir(&self) -> (r: String)
        ensures
            r@ == path_join(self.launcher_dir@, "skins"@),
    {
        join(self.launcher_dir.as_str(), "skins")
    }

    pub fn game_logs_dir(&self) -> (r: String)
        ensures
            r@ == path_join(self.logs_dir@, "game"@),
    {
        join(self.logs_dir.as_str(), "game")
    }
}

/// Two tenants never share their sessions: under one base directory, two
/// different slugs give two different accounts files.
pub proof fn law_tenants_keep_separate_accounts(base: Seq<char>, a: Seq<char>, b: Seq<char>)
    requires
        crate::client_config::slug_ok(a),
        crate::client_config::slug_ok(b),
        a != b,
    ensures
        path_join(tenant_root_of(base, a), ACCOUNTS_FILE@) != path_join(
            tenant_root_of(base, b),
            ACCOUNTS_FILE@,
        ),
{
    reveal_strlit("accounts.json");
    reveal_strlit(".");
    let ra = tenant_root_of(base, a);
    let rb = tenant_root_of(base, b);
    let na = "."@ + a;
    let nb = "."@ + b;
    assert(na[0] == '.' && nb[0] == '.');
    let head = if base.len() == 0 {
        Seq::<char>::empty()
    } else if base.last() == '/' {
        base
    } else {
        base + seq!['/']
    };
    assert(ra =~= head + na);
    assert(rb =~= head + nb);
    assert(ra.last() == a.last());
    assert(rb.last() == b.last());
    assert(ra.last() != '/');
    assert(rb.last() != '/');
    let f = ACCOUNTS_FILE@;
    assert(f[0] == 'a');
    assert(path_join(ra, f) == ra + seq!['/'] + f);
    assert(path_join(rb, f) == rb + seq!['/'] + f);
    if path_join(ra, f) == path_join(rb, f) {
        if ra.len() == rb.len() {
            assert(ra =~= path_join(ra, f).take(ra.len() as int));
            assert(rb =~= path_join(rb, f).take(rb.len() as int));
            assert(na =~= ra.skip(head.len() as int));
            assert(nb =~= rb.skip(head.len() as int));
            assert(a =~= na.skip(1));
            assert(b =~= nb.skip(1));
        } else {
            assert(path_join(ra, f).len() != path_join(rb, f).len());
        }
    }
}

} // verus!
