//! Persistent user settings.
//!
//! Defaults come from the launcher configuration, the stored file is merged
//! over them with `json::merge` (the application reads and writes
//! `settings.json`), and every value is clamped to a safe range before use.

use vstd::prelude::*;

use crate::config::LauncherConfig;
use crate::error::{is_error, AppError, AppResult};
use crate::paths::absolute_on;
use crate::text::{copy_opt, eq_chars, opt_view, string_views, to_chars, trim, trim_chars};

verus! {

/// Lower bound of the JVM heap the launcher accepts, in MiB.
pub const MIN_MEMORY_MB: u64 = 512;

/// Smallest game window the launcher accepts.
pub const MIN_WINDOW_SIZE: u32 = 320;

#[derive(Clone, Copy, PartialEq, Eq, Debug, Structural)]
pub struct MemorySettings {
    pub min_mb: u64,
    pub max_mb: u64,
}

#[derive(Clone, Copy, PartialEq, Eq, Debug, Structural)]
pub struct GameWindowSettings {
    pub width: Option<u32>,
    pub height: Option<u32>,
    pub fullscreen: bool,
}

/// What the launcher does once Minecraft runs.
#[derive(Clone, Copy, PartialEq, Eq, Debug, Structural)]
pub enum LauncherBehavior {
    /// Stay open, do nothing.
    Stay,
    /// Hide the window while the game runs, show it again when it exits.
    Hide,
    /// Minecraft depends on the launcher: closing the launcher kills the game.
    Bound,
}

#[derive(Clone, Copy, PartialEq, Eq, Debug, Structural)]
pub enum JavaMode {
    /// Let the launcher pick the Mojang runtime.
    Auto,
    /// Use the executable in `path`.
    Custom,
}

#[derive(Clone)]
pub struct JavaSettings {
    pub mode: JavaMode,
    /// Path to a `java` executable when `mode` is `Custom`.
    pub path: Option<String>,
}

#[derive(Clone)]
pub struct InstanceSettings {
    pub memory: Option<MemorySettings>,
    pub java: Option<JavaSettings>,
    pub jvm_args: Option<Vec<String>>,
}

#[derive(Clone)]
pub struct UiSettings {
    /// `dark`, `light` or `system`.
    pub theme: String,
    pub reduce_motion: bool,
}

/// Per-instance overrides, keyed by instance id; one entry per id.
pub struct InstanceMap {
    entries: Vec<(String, InstanceSettings)>,
}

#[derive(Clone)]
pub struct Settings {
    pub selected_account: Option<String>,
    pub selected_instance: Option<String>,
    /// User-chosen Minecraft root; `None` means the platform default.
    pub install_path: Option<String>,
    /// `dataDirectory` last announced by the panel.
    pub resolved_data_directory: Option<String>,
    pub download_concurrency: usize,
    pub memory: MemorySettings,
    pub game_window: GameWindowSettings,
    pub launcher_behavior: LauncherBehavior,
    pub java: JavaSettings,
    pub jvm_args: Vec<String>,
    pub intel_enabled_mac: bool,
    /// Per-instance overrides, keyed by instance id.
    pub instances: InstanceMap,
    pub ui: UiSettings,
    pub server_status_refresh_seconds: u64,
    pub check_updates_on_startup: bool,
}

/// Effective values for one instance (instance override or global).
pub struct EffectiveSettings {
    pub memory: MemorySettings,
    pub java: JavaSettings,
    pub jvm_args: Vec<String>,
}

/// What a Java setting says, as plain values.
pub open spec fn java_view(j: JavaSettings) -> (JavaMode, Option<Seq<char>>) {
    (j.mode, opt_view(j.path))
}

pub fn clone_strings(v: &Vec<String>) -> (r: Vec<String>)
    ensures
        r@ == v@,
{
    let mut r: Vec<String> = Vec::new();
    let mut i: usize = 0;
    while i < v.len()
        invariant
            i <= v@.len(),
            r@ == v@.take(i as int),
        decreases v@.len() - i,
    {
        r.push(v[i].clone());
        i += 1;
        assert(r@ =~= v@.take(i as int));
    }
    assert(v@.take(i as int) =~= v@);
    r
}

impl JavaSettings {
    pub fn copy(&self) -> (r: Self)
        ensures
            r == *self,
    {
        JavaSettings { mode: self.mode, path: copy_opt(&self.path) }
    }
}

// ── The per-instance map ────────────────────────────────────────────────────

pub open spec fn entry_keys(e: Seq<(String, InstanceSettings)>) -> Seq<Seq<char>> {
    e.map_values(|p: (String, InstanceSettings)| p.0@)
}

/// The entries of a map as a function from instance id to overrides.
pub open spec fn entries_map(e: Seq<(String, InstanceSettings)>) -> Map<
    Seq<char>,
    InstanceSettings,
> {
    Map::new(
        |k: Seq<char>| entry_keys(e).contains(k),
        |k: Seq<char>| e[entry_keys(e).index_of(k)].1,
    )
}

impl InstanceMap {
    /// One entry per instance id.
    #[verifier::type_invariant]
    pub closed spec fn wf(&self) -> bool {
        entry_keys(self.entries@).no_duplicates()
    }

    pub closed spec fn view(&self) -> Map<Seq<char>, InstanceSettings> {
        entries_map(self.entries@)
    }

    /// The entries, in insertion order.
    pub closed spec fn entries(&self) -> Seq<(String, InstanceSettings)> {
        self.entries@
    }

    /// A copy with the same instance ids, in the same order.
    pub fn copy(&self) -> (r: Self)
        ensures
            entry_keys(r.entries()) == entry_keys(self.entries()),
    {
        proof {
            use_type_invariant(self);
        }
        let mut out: Vec<(String, InstanceSettings)> = Vec::new();
        let mut i: usize = 0;
        while i < self.entries.len()
            invariant
                i <= self.entries@.len(),
                entry_keys(self.entries@).no_duplicates(),
                entry_keys(out@) == entry_keys(self.entries@).take(i as int),
            decreases self.entries@.len() - i,
        {
            let key = self.entries[i].0.clone();
            let value = self.entries[i].1.clone();
            let ghost prev = out@;
            out.push((key, value));
            proof {
                assert(key == self.entries@[i as int].0);
                assert(entry_keys(out@) =~= entry_keys(prev).push(self.entries@[i as int].0@));
                assert(entry_keys(self.entries@).take(i + 1) =~= entry_keys(self.entries@).take(
                    i as int,
                ).push(entry_keys(self.entries@)[i as int]));
            }
            i += 1;
        }
        assert(entry_keys(self.entries@).take(i as int) =~= entry_keys(self.entries@));
        InstanceMap { entries: out }
    }

    pub fn new() -> (m: Self)
        ensures
            m.wf(),
            m.view() == Map::<Seq<char>, InstanceSettings>::empty(),
    {
        let m = InstanceMap { entries: Vec::new() };
        assert(m.view() =~= Map::<Seq<char>, InstanceSettings>::empty());
        m
    }

    /// The entries, in insertion order, as `settings.json` writes them.
    pub fn pairs(&self) -> (r: &Vec<(String, InstanceSettings)>)
        ensures
            r@ == self.entries(),
    {
        &self.entries
    }

    fn position(&self, key: &str) -> (r: Option<usize>)
        ensures
            r matches Some(i) ==> i < self.entries@.len() && self.entries@[i as int].0@ == key@,
            r is None ==> !entry_keys(self.entries@).contains(key@),
    {
        let k = to_chars(key);
        let mut i: usize = 0;
        while i < self.entries.len()
            invariant
                i <= self.entries@.len(),
                k@ == key@,
                forall|j: int| 0 <= j < i ==> self.entries@[j].0@ != key@,
            decreases self.entries@.len() - i,
        {
            if eq_chars(&to_chars(self.entries[i].0.as_str()), &k) {
                return Some(i);
            }
            i += 1;
        }
        proof {
            if entry_keys(self.entries@).contains(key@) {
                let j = entry_keys(self.entries@).index_of(key@);
                assert(entry_keys(self.entries@)[j] == self.entries@[j].0@);
            }
        }
        None
    }

    /// The overrides of an instance.
    pub fn get(&self, key: &str) -> (r: Option<&InstanceSettings>)
        ensures
            r matches Some(v) ==> self.view().contains_key(key@) && self.view()[key@] == *v,
            r is None ==> !self.view().contains_key(key@),
    {
        proof {
            use_type_invariant(self);
        }
        match self.position(key) {
            Some(i) => {
                proof {
                    let keys = entry_keys(self.entries@);
                    assert(keys[i as int] == key@);
                    assert(keys.contains(key@));
                    assert(keys.index_of(key@) == i) by {
                        let j = keys.index_of(key@);
                        assert(keys[j] == key@);
                    }
                }
                Some(&self.entries[i].1)
            },
            None => None,
        }
    }

    /// Sets the overrides of an instance, returning the ones it replaces.
    pub fn insert(&mut self, key: String, value: InstanceSettings) -> (r: Option<InstanceSettings>)
        ensures
            final(self).view() == old(self).view().insert(key@, value),
            r matches Some(v) ==> old(self).view().contains_key(key@) && old(self).view()[key@]
                == v,
            r is None ==> !old(self).view().contains_key(key@),
    {
        proof {
            use_type_invariant(&*self);
        }
        let ghost before = self.entries@;
        let found = self.position(key.as_str());
        let mut entries: Vec<(String, InstanceSettings)> = Vec::new();
        std::mem::swap(&mut entries, &mut self.entries);
        match found {
            Some(i) => {
                let previous = entries.remove(i);
                entries.insert(i, (key, value));
                proof {
                    let keys = entry_keys(before);
                    assert(keys[i as int] == previous.0@);
                    assert(keys.index_of(previous.0@) == i) by {
                        let j = keys.index_of(previous.0@);
                        assert(keys[j] == previous.0@);
                    }
                    assert(entry_keys(entries@) =~= keys);
                    assert(entries_map(entries@) =~= entries_map(before).insert(previous.0@, value)) by {
                        assert forall|k: Seq<char>| #[trigger]
                            entry_keys(entries@).contains(k) implies entries_map(entries@)[k]
                            == entries_map(before).insert(previous.0@, value)[k] by {
                            let j = keys.index_of(k);
                            assert(keys[j] == k);
                        }
                    }
                }
                self.entries = entries;
                Some(previous.1)
            },
            None => {
                entries.push((key, value));
                proof {
                    let keys = entry_keys(before);
                    let nk = entry_keys(entries@);
                    assert(nk =~= keys.push(key@));
                    assert(nk.no_duplicates()) by {
                        assert forall|a: int, b: int|
                            0 <= a < nk.len() && 0 <= b < nk.len() && a != b implies nk[a]
                            != nk[b] by {
                            if a < keys.len() && b < keys.len() {
                            } else if a < keys.len() {
                                assert(keys.contains(nk[a]));
                            } else {
                                assert(keys.contains(nk[b]));
                            }
                        }
                    }
                    assert(nk.index_of(key@) == keys.len()) by {
                        assert(nk[keys.len() as int] == key@);
                        let j = nk.index_of(key@);
                        if j < keys.len() {
                            assert(keys[j] == nk[j]);
                            assert(keys.contains(key@));
                        }
                    }
                    assert forall|k: Seq<char>| keys.contains(k) implies nk.index_of(k)
                        == keys.index_of(k) by {
                        let j = keys.index_of(k);
                        assert(nk[j] == k);
                    }
                    assert forall|k: Seq<char>| #[trigger] nk.contains(k) implies (k == key@
                        || keys.contains(k)) by {
                        let j = nk.index_of(k);
                        if j < keys.len() {
                            assert(keys[j] == k);
                        }
                    }
                    assert forall|k: Seq<char>| keys.contains(k) implies #[trigger] nk.contains(
                        k,
                    ) by {
                        let j = keys.index_of(k);
                        assert(nk[j] == k);
                    }
                    assert(nk.contains(key@)) by {
                        assert(nk[keys.len() as int] == key@);
                    }
                    assert forall|k: Seq<char>| #[trigger] entries_map(entries@).contains_key(k) implies
                        entries_map(entries@)[k] == entries_map(before).insert(key@, value)[k] by {
                        if k != key@ {
                            let j = keys.index_of(k);
                            assert(nk.index_of(k) == j);
                        }
                    }
                    assert(entries_map(entries@) =~= entries_map(before).insert(key@, value));
                }
                self.entries = entries;
                None
            },
        }
    }

    pub fn len(&self) -> (r: usize)
        ensures
            r == self.view().len(),
    {
        proof {
            use_type_invariant(self);
            entry_keys(self.entries@).unique_seq_to_set();
            assert(self.view().dom() =~= entry_keys(self.entries@).to_set());
        }
        self.entries.len()
    }
}

// ── Sanitizing ──────────────────────────────────────────────────────────────

pub open spec fn clamp(x: int, lo: int, hi: int) -> int {
    if x < lo {
        lo
    } else if x > hi {
        hi
    } else {
        x
    }
}

/// The heap ceiling: 1 GiB below the machine's memory, never under the floor.
pub open spec fn memory_ceiling(total_memory_mb: Option<u64>) -> int {
    match total_memory_mb {
        Some(total) => {
            let spare = if total >= 1024 {
                total - 1024
            } else {
                0
            };
            if spare >= MIN_MEMORY_MB {
                spare
            } else {
                MIN_MEMORY_MB as int
            }
        },
        None => u64::MAX as int,
    }
}

pub open spec fn sanitized_memory(m: MemorySettings, total_memory_mb: Option<u64>) -> MemorySettings {
    let max = clamp(m.max_mb as int, MIN_MEMORY_MB as int, memory_ceiling(total_memory_mb));
    MemorySettings {
        min_mb: clamp(m.min_mb as int, MIN_MEMORY_MB as int, max) as u64,
        max_mb: max as u64,
    }
}

pub fn sanitize_memory(memory: MemorySettings, total_memory_mb: Option<u64>) -> (r:
    MemorySettings)
    ensures
        r == sanitized_memory(memory, total_memory_mb),
        MIN_MEMORY_MB <= r.min_mb <= r.max_mb,
        r.max_mb as int <= memory_ceiling(total_memory_mb),
{
    let ceiling = match total_memory_mb {
        Some(total) => {
            let spare = total.saturating_sub(1024);
            if spare >= MIN_MEMORY_MB {
                spare
            } else {
                MIN_MEMORY_MB
            }
        },
        None => u64::MAX,
    };
    let mut m = memory;
    m.max_mb = if m.max_mb < MIN_MEMORY_MB {
        MIN_MEMORY_MB
    } else if m.max_mb > ceiling {
        ceiling
    } else {
        m.max_mb
    };
    m.min_mb = if m.min_mb < MIN_MEMORY_MB {
        MIN_MEMORY_MB
    } else if m.min_mb > m.max_mb {
        m.max_mb
    } else {
        m.min_mb
    };
    m
}

/// A blank path is no path, and a custom mode without a path is automatic.
pub open spec fn sanitized_java(j: (JavaMode, Option<Seq<char>>)) -> (JavaMode, Option<Seq<char>>) {
    let path = match j.1 {
        Some(p) => if trim(p).len() == 0 {
            None
        } else {
            Some(p)
        },
        None => None,
    };
    let mode = if j.0 == JavaMode::Custom && path is None {
        JavaMode::Auto
    } else {
        j.0
    };
    (mode, path)
}

pub fn sanitize_java(java: &mut JavaSettings)
    ensures
        java_view(*final(java)) == sanitized_java(java_view(*old(java))),
{
    let blank = match &java.path {
        Some(p) => trim_chars(&to_chars(p.as_str())).len() == 0,
        None => false,
    };
    if blank {
        java.path = None;
    }
    if java.mode == JavaMode::Custom && java.path.is_none() {
        java.mode = JavaMode::Auto;
    }
}

/// The arguments that are not blank, in order.
pub open spec fn non_blank(args: Seq<Seq<char>>) -> Seq<Seq<char>>
    decreases args.len(),
{
    if args.len() == 0 {
        args
    } else {
        let prev = non_blank(args.drop_last());
        if trim(args.last()).len() == 0 {
            prev
        } else {
            prev.push(args.last())
        }
    }
}

pub(crate) fn retain_non_blank(args: &mut Vec<String>)
    ensures
        string_views(final(args)@) == non_blank(string_views(old(args)@)),
{
    let mut kept: Vec<String> = Vec::new();
    let mut i: usize = 0;
    let ghost all = string_views(args@);
    while i < args.len()
        invariant
            i <= args@.len(),
            all == string_views(args@),
            string_views(kept@) == non_blank(all.take(i as int)),
        decreases args@.len() - i,
    {
        assert(all.take(i + 1).drop_last() =~= all.take(i as int));
        assert(all.take(i + 1).last() == args@[i as int]@);
        if trim_chars(&to_chars(args[i].as_str())).len() != 0 {
            let ghost before = string_views(kept@);
            kept.push(args[i].clone());
            assert(string_views(kept@) =~= before.push(args@[i as int]@));
        }
        i += 1;
    }
    assert(all.take(i as int) =~= all);
    *args = kept;
}

pub open spec fn theme_ok(theme: Seq<char>) -> bool {
    theme == "dark"@ || theme == "light"@ || theme == "system"@
}

pub open spec fn min_window(v: Option<u32>) -> Option<u32> {
    match v {
        Some(x) => Some(
            if x >= MIN_WINDOW_SIZE {
                x
            } else {
                MIN_WINDOW_SIZE
            },
        ),
        None => None,
    }
}

/// The overrides of one instance once sanitized.
pub open spec fn sanitized_instance(o: InstanceSettings, n: InstanceSettings, total_memory_mb: Option<
    u64,
>) -> bool {
    &&& n.memory == match o.memory {
        Some(m) => Some(sanitized_memory(m, total_memory_mb)),
        None => None,
    }
    &&& match (o.java, n.java) {
        (Some(a), Some(b)) => java_view(b) == sanitized_java(java_view(a)),
        (None, None) => true,
        _ => false,
    }
    &&& n.jvm_args == o.jvm_args
}

impl Settings {
    /// What `sanitize` makes of `old`, field by field.
    pub open spec fn sanitized_from(
        self,
        old: Settings,
        config: LauncherConfig,
        total_memory_mb: Option<u64>,
    ) -> bool {
        let max_concurrency = clamp(config.downloads.max_concurrency as int, 1, 30);
        &&& self.download_concurrency as int == clamp(
            old.download_concurrency as int,
            1,
            max_concurrency,
        )
        &&& self.memory == sanitized_memory(old.memory, total_memory_mb)
        &&& self.instances.wf()
        &&& self.instances.view().dom() == old.instances.view().dom()
        &&& forall|k: Seq<char>| #[trigger]
            old.instances.view().contains_key(k) ==> sanitized_instance(
                old.instances.view()[k],
                self.instances.view()[k],
                total_memory_mb,
            )
        &&& java_view(self.java) == sanitized_java(java_view(old.java))
        &&& self.game_window.width == min_window(old.game_window.width)
        &&& self.game_window.height == min_window(old.game_window.height)
        &&& self.game_window.fullscreen == old.game_window.fullscreen
        &&& self.ui.theme@ == if theme_ok(old.ui.theme@) {
            old.ui.theme@
        } else {
            "dark"@
        }
        &&& self.ui.reduce_motion == old.ui.reduce_motion
        &&& self.server_status_refresh_seconds as int == clamp(
            old.server_status_refresh_seconds as int,
            10,
            600,
        )
        &&& string_views(self.jvm_args@) == non_blank(string_views(old.jvm_args@))
        &&& opt_view(self.install_path) == match old.install_path {
            Some(p) => if trim(p@).len() == 0 {
                None
            } else {
                Some(p@)
            },
            None => None,
        }
        &&& self.selected_account == old.selected_account
        &&& self.selected_instance == old.selected_instance
        &&& self.resolved_data_directory == old.resolved_data_directory
        &&& self.launcher_behavior == old.launcher_behavior
        &&& self.intel_enabled_mac == old.intel_enabled_mac
        &&& self.check_updates_on_startup == old.check_updates_on_startup
    }
}

fn sanitize_instances(instances: &mut InstanceMap, total_memory_mb: Option<u64>)
    ensures
        final(instances).wf(),
        final(instances).view().dom() == old(instances).view().dom(),
        forall|k: Seq<char>| #[trigger]
            old(instances).view().contains_key(k) ==> sanitized_instance(
                old(instances).view()[k],
                final(instances).view()[k],
                total_memory_mb,
            ),
{
    proof {
        use_type_invariant(&*instances);
    }
    let ghost before = instances.entries@;
    let mut entries: Vec<(String, InstanceSettings)> = Vec::new();
    std::mem::swap(&mut entries, &mut instances.entries);
    let mut out: Vec<(String, InstanceSettings)> = Vec::new();
    let n = entries.len();
    let mut i: usize = 0;
    while i < n
        invariant
            i <= n == before.len(),
            entries@ == before.skip(i as int),
            out@.len() == i,
            forall|j: int| 0 <= j < i ==> (#[trigger] out@[j]).0 == before[j].0,
            forall|j: int|
                0 <= j < i ==> sanitized_instance(before[j].1, #[trigger] out@[j].1, total_memory_mb),
        decreases n - i,
    {
        let (key, mut value) = entries.remove(0);
        assert(before.skip(i + 1) =~= before.skip(i as int).remove(0));
        if let Some(memory) = value.memory {
            value.memory = Some(sanitize_memory(memory, total_memory_mb));
        }
        match &mut value.java {
            Some(java) => sanitize_java(java),
            None => {},
        }
        out.push((key, value));
        i += 1;
    }
    proof {
        let nk = entry_keys(out@);
        assert(nk =~= entry_keys(before));
        assert(entries_map(out@).dom() =~= entries_map(before).dom());
        assert forall|k: Seq<char>| #[trigger] entries_map(before).contains_key(k) implies
            sanitized_instance(
            entries_map(before)[k],
            entries_map(out@)[k],
            total_memory_mb,
        ) by {
            let j = nk.index_of(k);
            assert(nk[j] == k);
        }
    }
    instances.entries = out;
}

impl Default for UiSettings {
    fn default() -> (r: Self)
        ensures
            r.theme@ == "dark"@,
            !r.reduce_motion,
    {
        UiSettings { theme: "dark".to_owned(), reduce_motion: false }
    }
}

impl Default for JavaSettings {
    fn default() -> (r: Self)
        ensures
            r.mode == JavaMode::Auto,
            r.path is None,
    {
        JavaSettings { mode: JavaMode::Auto, path: None }
    }
}

impl Default for GameWindowSettings {
    fn default() -> (r: Self)
        ensures
            r.width is None && r.height is None && !r.fullscreen,
    {
        GameWindowSettings { width: None, height: None, fullscreen: false }
    }
}

impl Default for InstanceSettings {
    fn default() -> (r: Self)
        ensures
            r.memory is None && r.java is None && r.jvm_args is None,
    {
        InstanceSettings { memory: None, java: None, jvm_args: None }
    }
}

impl Default for Settings {
    fn default() -> (r: Self)
        ensures
            r.selected_account is None,
            r.selected_instance is None,
            r.install_path is None,
            r.resolved_data_directory is None,
            r.download_concurrency == 10,
            r.memory == (MemorySettings { min_mb: 1024, max_mb: 4096 }),
            r.game_window.width is None && r.game_window.height is None,
            !r.game_window.fullscreen,
            r.launcher_behavior == LauncherBehavior::Stay,
            r.java.mode == JavaMode::Auto && r.java.path is None,
            r.jvm_args@.len() == 0,
            !r.intel_enabled_mac,
            r.instances.wf() && r.instances.view() == Map::<Seq<char>, InstanceSettings>::empty(),
            r.ui.theme@ == "dark"@ && !r.ui.reduce_motion,
            r.server_status_refresh_seconds == 30,
            r.check_updates_on_startup,
    {
        Settings {
            selected_account: None,
            selected_instance: None,
            install_path: None,
            resolved_data_directory: None,
            download_concurrency: 10,
            memory: MemorySettings { min_mb: 1024, max_mb: 4096 },
            game_window: GameWindowSettings::default(),
            launcher_behavior: LauncherBehavior::Stay,
            java: JavaSettings::default(),
            jvm_args: Vec::new(),
            intel_enabled_mac: false,
            instances: InstanceMap::new(),
            ui: UiSettings::default(),
            server_status_refresh_seconds: 30,
            check_updates_on_startup: true,
        }
    }
}

impl Settings {
    /// Defaults derived from the central configuration.
    pub fn from_config(config: &LauncherConfig) -> (r: Self)
        ensures
            r.download_concurrency == config.downloads.default_concurrency,
            r.memory == (MemorySettings {
                min_mb: config.memory.default_min_mb,
                max_mb: config.memory.default_max_mb,
            }),
            r.game_window == (GameWindowSettings {
                width: Some(config.game_window.default_width),
                height: Some(config.game_window.default_height),
                fullscreen: false,
            }),
            r.server_status_refresh_seconds == config.server_status.refresh_seconds,
            r.selected_account is None,
            r.selected_instance is None,
            r.install_path is None,
            r.resolved_data_directory is None,
            r.launcher_behavior == LauncherBehavior::Stay,
            r.java.mode == JavaMode::Auto && r.java.path is None,
            r.jvm_args@.len() == 0,
            !r.intel_enabled_mac,
            r.instances.wf() && r.instances.view() == Map::<Seq<char>, InstanceSettings>::empty(),
            r.ui.theme@ == "dark"@ && !r.ui.reduce_motion,
            r.check_updates_on_startup,
    {
        let mut s = Self::default();
        s.download_concurrency = config.downloads.default_concurrency;
        s.memory = MemorySettings {
            min_mb: config.memory.default_min_mb,
            max_mb: config.memory.default_max_mb,
        };
        s.game_window = GameWindowSettings {
            width: Some(config.game_window.default_width),
            height: Some(config.game_window.default_height),
            fullscreen: false,
        };
        s.server_status_refresh_seconds = config.server_status.refresh_seconds;
        s
    }

    /// Clamps every value to a safe range. `total_memory_mb` bounds the heap
    /// so the machine cannot be starved.
    #[verifier::rlimit(40)]
    pub fn sanitize(&mut self, config: &LauncherConfig, total_memory_mb: Option<u64>)
        ensures
            final(self).sanitized_from(*old(self), *config, total_memory_mb),
    {
        let max_concurrency = if config.downloads.max_concurrency < 1 {
            1
        } else if config.downloads.max_concurrency > 30 {
            30
        } else {
            config.downloads.max_concurrency
        };
        self.download_concurrency = if self.download_concurrency < 1 {
            1
        } else if self.download_concurrency > max_concurrency {
            max_concurrency
        } else {
            self.download_concurrency
        };
        self.memory = sanitize_memory(self.memory, total_memory_mb);
        sanitize_instances(&mut self.instances, total_memory_mb);
        sanitize_java(&mut self.java);
        if let Some(width) = self.game_window.width {
            self.game_window.width = Some(
                if width >= MIN_WINDOW_SIZE {
                    width
                } else {
                    MIN_WINDOW_SIZE
                },
            );
        }
        if let Some(height) = self.game_window.height {
            self.game_window.height = Some(
                if height >= MIN_WINDOW_SIZE {
                    height
                } else {
                    MIN_WINDOW_SIZE
                },
            );
        }
        let theme = to_chars(self.ui.theme.as_str());
        if !(eq_chars(&theme, &to_chars("dark")) || eq_chars(&theme, &to_chars("light"))
            || eq_chars(&theme, &to_chars("system"))) {
            self.ui.theme = "dark".to_owned();
        }
        self.server_status_refresh_seconds = if self.server_status_refresh_seconds < 10 {
            10
        } else if self.server_status_refresh_seconds > 600 {
            600
        } else {
            self.server_status_refresh_seconds
        };
        retain_non_blank(&mut self.jvm_args);
        let blank = match &self.install_path {
            Some(path) => trim_chars(&to_chars(path.as_str())).len() == 0,
            None => false,
        };
        if blank {
            self.install_path = None;
        }
    }

    pub fn install_path(&self) -> (r: Option<String>)
        ensures
            r == self.install_path,
    {
        copy_opt(&self.install_path)
    }

    /// Effective values for one instance (instance override or global).
    pub fn for_instance(&self, instance_id: &str) -> (r: EffectiveSettings)
        ensures
            ({
                let o = if self.instances.view().contains_key(instance_id@) {
                    Some(self.instances.view()[instance_id@])
                } else {
                    None
                };
                &&& r.memory == match o {
                    Some(i) => match i.memory {
                        Some(m) => m,
                        None => self.memory,
                    },
                    None => self.memory,
                }
                &&& r.java == match o {
                    Some(i) => match i.java {
                        Some(j) => j,
                        None => self.java,
                    },
                    None => self.java,
                }
                &&& r.jvm_args@ == match o {
                    Some(i) => match i.jvm_args {
                        Some(a) => a@,
                        None => self.jvm_args@,
                    },
                    None => self.jvm_args@,
                }
            }),
    {
        let overrides = self.instances.get(instance_id);
        let memory = match overrides {
            Some(o) => match o.memory {
                Some(m) => m,
                None => self.memory,
            },
            None => self.memory,
        };
        let java = match overrides {
            Some(o) => match &o.java {
                Some(j) => j.copy(),
                None => self.java.copy(),
            },
            None => self.java.copy(),
        };
        let jvm_args = match overrides {
            Some(o) => match &o.jvm_args {
                Some(a) => clone_strings(a),
                None => clone_strings(&self.jvm_args),
            },
            None => clone_strings(&self.jvm_args),
        };
        EffectiveSettings { memory, java, jvm_args }
    }
}

/// Why incoming settings are refused, if they are: `None` when accepted.
pub open spec fn incoming_refusal(s: Settings, java_path_is_file: bool, windows: bool) -> Option<
    (Seq<char>, Seq<char>),
> {
    if s.memory.min_mb > s.memory.max_mb {
        Some(("settings_invalid"@, "minimum memory is above maximum memory"@))
    } else if s.install_path matches Some(p) && !absolute_on(p@, windows) {
        Some(("settings_invalid"@, "install path must be absolute"@))
    } else if s.java.mode == JavaMode::Custom && !(s.java.path is Some && java_path_is_file) {
        Some(("java_missing"@, "the custom Java executable does not exist"@))
    } else {
        None
    }
}

/// Validates a settings object coming from the frontend before it is stored.
/// `java_path_is_file` tells whether the custom Java path names a file, and
/// `windows` whether paths follow Windows' rules.
pub fn validate_incoming(settings: &Settings, java_path_is_file: bool, windows: bool) -> (r:
    AppResult<()>)
    ensures
        r is Ok <==> incoming_refusal(*settings, java_path_is_file, windows) is None,
        r matches Err(e) ==> incoming_refusal(*settings, java_path_is_file, windows) matches Some(
            (code, message),
        ) && is_error(e, code, message),
{
    if settings.memory.min_mb > settings.memory.max_mb {
        return Err(AppError::new("settings_invalid", "minimum memory is above maximum memory"));
    }
    if let Some(path) = &settings.install_path {
        if !crate::paths::is_absolute_on(path.as_str(), windows) {
            return Err(AppError::new("settings_invalid", "install path must be absolute"));
        }
    }
    if settings.java.mode == JavaMode::Custom {
        if !(settings.java.path.is_some() && java_path_is_file) {
            return Err(AppError::new("java_missing", "the custom Java executable does not exist"));
        }
    }
    Ok(())
}

// ── Laws ────────────────────────────────────────────────────────────────────

proof fn lemma_non_blank_idempotent(args: Seq<Seq<char>>)
    ensures
        non_blank(non_blank(args)) == non_blank(args),
        forall|i: int|
            0 <= i < non_blank(args).len() ==> trim(#[trigger] non_blank(args)[i]).len() > 0,
    decreases args.len(),
{
    if args.len() > 0 {
        lemma_non_blank_idempotent(args.drop_last());
        let prev = non_blank(args.drop_last());
        if trim(args.last()).len() > 0 {
            assert(prev.push(args.last()).drop_last() =~= prev);
        }
    }
}

/// Sanitizing is idempotent: settings already clamped stay as they are.
pub proof fn law_sanitize_is_idempotent(
    a: Settings,
    b: Settings,
    c: Settings,
    config: LauncherConfig,
    total_memory_mb: Option<u64>,
)
    requires
        b.sanitized_from(a, config, total_memory_mb),
        c.sanitized_from(b, config, total_memory_mb),
    ensures
        c.download_concurrency == b.download_concurrency,
        c.memory == b.memory,
        java_view(c.java) == java_view(b.java),
        c.game_window == b.game_window,
        c.ui.theme@ == b.ui.theme@,
        c.server_status_refresh_seconds == b.server_status_refresh_seconds,
        string_views(c.jvm_args@) == string_views(b.jvm_args@),
        opt_view(c.install_path) == opt_view(b.install_path),
        c.instances.view().dom() == b.instances.view().dom(),
        forall|k: Seq<char>| #[trigger]
            b.instances.view().contains_key(k) ==> c.instances.view()[k].memory
                == b.instances.view()[k].memory,
{
    reveal_strlit("dark");
    lemma_non_blank_idempotent(string_views(a.jvm_args@));
    assert forall|k: Seq<char>| #[trigger]
        b.instances.view().contains_key(k) implies c.instances.view()[k].memory
        == b.instances.view()[k].memory by {
        assert(a.instances.view().contains_key(k));
    }
    match a.install_path {
        Some(p) => {
            if trim(p@).len() > 0 {
                assert(b.install_path is Some);
            }
        },
        None => {},
    }
}

impl Clone for InstanceMap {
    fn clone(&self) -> (r: Self) {
        self.copy()
    }
}

/// Sanitizing keeps each of the three themes the interface offers, `dark`,
/// `light` and `system`, and turns any other value into `dark`.
pub proof fn law_sanitize_keeps_known_themes(
    old: Settings,
    new: Settings,
    config: LauncherConfig,
    total_memory_mb: Option<u64>,
)
    requires
        new.sanitized_from(old, config, total_memory_mb),
    ensures
        old.ui.theme@ == "dark"@ ==> new.ui.theme@ == "dark"@,
        old.ui.theme@ == "light"@ ==> new.ui.theme@ == "light"@,
        old.ui.theme@ == "system"@ ==> new.ui.theme@ == "system"@,
        old.ui.theme@ != "dark"@ && old.ui.theme@ != "light"@ && old.ui.theme@ != "system"@
            ==> new.ui.theme@ == "dark"@,
{
}

} // verus!
