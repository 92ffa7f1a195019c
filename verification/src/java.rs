//! Java installations: what a runtime says of itself.
//!
//! `java -XshowSettings:properties -version` prints the properties of the
//! runtime; this module reads that output. Running the executables and
//! listing the machine's installations is the application's part.

use vstd::prelude::*;

use crate::models::{
    law_sort_gt, lemma_insert_gt, sort_gt,
    sorted_by,
};
use crate::error::{is_error, AppError};
use crate::paths::{join, path_join};
use crate::text::{
    contains, from_chars, index_of, lemma_split_nonempty, lines, lines_seq, slice, spec_contains,
    split, split_seq, str_opt, string_views, to_chars, trim, trim_chars, trim_end_char,
    trim_end_matches, views,
};
use crate::util::{java_major, spec_java_major};

verus! {

/// Java 8 for versions whose manifest has no `javaVersion` (before 1.17).
pub const LEGACY_JAVA_MAJOR: u32 = 8;

pub struct JavaInstall {
    pub path: String,
    pub version: String,
    pub major: u32,
    pub vendor: String,
    pub arch: String,
    /// Where it was found: `custom`, `path`, `javaHome`, `system`, `managed`.
    pub source: String,
    /// Downloaded by the launcher (`<root>/runtime`).
    pub managed: bool,
}

pub struct JavaRequirement {
    pub instance_id: String,
    pub minecraft_version: String,
    pub major: u32,
    /// `panel` when the instance forces a version, `mojang` otherwise.
    pub source: String,
}

/// The name of the Java executable on an OS (`std::env::consts::OS`).
pub open spec fn executable_name_of(os: Seq<char>) -> Seq<char> {
    if os == "windows"@ {
        "java.exe"@
    } else {
        "java"@
    }
}

pub fn executable_name(os: &str) -> (r: &'static str)
    ensures
        r@ == executable_name_of(os@),
{
    if crate::text::eq_chars(&to_chars(os), &to_chars("windows")) {
        "java.exe"
    } else {
        "java"
    }
}

/// `key = value` on a line: both sides trimmed, split at the first `=`.
pub open spec fn property_of(line: Seq<char>) -> Option<(Seq<char>, Seq<char>)> {
    if line.contains('=') {
        let i = choose|i: int| crate::text::first_index_of(line, '=', i);
        Some((trim(line.take(i)), trim(line.skip(i + 1))))
    } else {
        None
    }
}

/// The value the last line setting `key` gives it.
pub open spec fn last_property(lines: Seq<Seq<char>>, key: Seq<char>) -> Option<Seq<char>>
    decreases lines.len(),
{
    if lines.len() == 0 {
        None
    } else {
        match property_of(trim(lines.last())) {
            Some((k, v)) if k == key => Some(v),
            _ => last_property(lines.drop_last(), key),
        }
    }
}

/// The quoted version of the first line that reads `version "…"`.
pub open spec fn banner_version(lines: Seq<Seq<char>>) -> Option<Seq<char>>
    decreases lines.len(),
{
    if lines.len() == 0 {
        None
    } else if spec_contains(lines[0], "version \""@) {
        let pieces = split_seq(lines[0], seq!['"']);
        if pieces.len() > 1 {
            Some(pieces[1])
        } else {
            None
        }
    } else {
        banner_version(lines.drop_first())
    }
}

/// The version a runtime reports: `java.version`, else its banner.
pub open spec fn reported_version(text: Seq<char>) -> Option<Seq<char>> {
    match last_property(lines_seq(text), "java.version"@) {
        Some(v) => Some(v),
        None => banner_version(lines_seq(text)),
    }
}

/// A path made of a single component, such as `java`.
pub open spec fn single_component(p: Seq<char>) -> bool {
    let q = trim_end_char(p, '/');
    q.len() > 0 && !q.contains('/')
}

/// Where the runtime says its executable lives, for a bare `java` that was
/// found on the `PATH`: `<java.home>/bin/<exe>`.
pub open spec fn home_candidate(text: Seq<char>, path: Seq<char>, exe: Seq<char>) -> Option<
    Seq<char>,
> {
    match last_property(lines_seq(text), "java.home"@) {
        Some(home) => if single_component(path) {
            Some(path_join(path_join(home, "bin"@), exe))
        } else {
            None
        },
        None => None,
    }
}

fn property(line: &[char]) -> (r: Option<(Vec<char>, Vec<char>)>)
    ensures
        r matches Some(p) ==> property_of(line@) == Some((p.0@, p.1@)),
        r is None ==> property_of(line@) is None,
{
    match index_of(line, '=') {
        None => None,
        Some(i) => {
            proof {
                let k = choose|k: int| crate::text::first_index_of(line@, '=', k);
                assert(line@[i as int] == '=');
                if k < i {
                    assert(line@[k] == '=');
                } else if i < k {
                    assert(line@[i as int] == '=');
                }
            }
            let n = line.len();
            assert(i < n);
            let key = slice(line, 0, i);
            let value = slice(line, i + 1, n);
            assert(key@ =~= line@.take(i as int));
            assert(value@ =~= line@.skip(i + 1));
            Some((trim_chars(&key), trim_chars(&value)))
        },
    }
}

fn find_property(ls: &Vec<Vec<char>>, key: &str) -> (r: Option<Vec<char>>)
    ensures
        r matches Some(v) ==> last_property(views(ls@), key@) == Some(v@),
        r is None ==> last_property(views(ls@), key@) is None,
{
    let k = to_chars(key);
    let mut i: usize = ls.len();
    assert(views(ls@).take(ls@.len() as int) =~= views(ls@));
    while i > 0
        invariant
            i <= ls@.len(),
            k@ == key@,
            last_property(views(ls@), key@) == last_property(views(ls@).take(i as int), key@),
        decreases i,
    {
        assert(views(ls@).take(i as int).drop_last() =~= views(ls@).take(i - 1));
        assert(views(ls@).take(i as int).last() == ls@[i - 1]@);
        let line = trim_chars(&ls[i - 1]);
        match property(&line) {
            Some((name, value)) => {
                if crate::text::eq_chars(&name, &k) {
                    return Some(value);
                }
            },
            None => {},
        }
        i -= 1;
    }
    None
}

fn find_banner(ls: &Vec<Vec<char>>) -> (r: Option<Vec<char>>)
    ensures
        r matches Some(v) ==> banner_version(views(ls@)) == Some(v@),
        r is None ==> banner_version(views(ls@)) is None,
{
    let marker = to_chars("version \"");
    let quote = vec!['"'];
    assert(quote@ =~= seq!['"']);
    let mut i: usize = 0;
    assert(views(ls@).skip(0) =~= views(ls@));
    while i < ls.len()
        invariant
            i <= ls@.len(),
            marker@ == "version \""@,
            quote@ == seq!['"'],
            banner_version(views(ls@)) == banner_version(views(ls@).skip(i as int)),
        decreases ls@.len() - i,
    {
        assert(views(ls@).skip(i as int).drop_first() =~= views(ls@).skip(i + 1));
        assert(views(ls@).skip(i as int)[0] == ls@[i as int]@);
        if contains(&ls[i], &marker) {
            let pieces = split(&ls[i], &quote);
            if pieces.len() > 1 {
                assert(views(pieces@)[1] == pieces@[1]@);
                return Some(slice(&pieces[1], 0, pieces[1].len()));
            } else {
                return None;
            }
        }
        i += 1;
    }
    None
}

fn is_single_component(p: &str) -> (r: bool)
    ensures
        r == single_component(p@),
{
    let q = trim_end_matches(&to_chars(p), '/');
    q.len() > 0 && index_of(&q, '/').is_none()
}

/// Where to look for the executable of a bare `java` found on the `PATH`,
/// from what it printed.
pub fn java_home_candidate(text: &str, path: &str, exe: &str) -> (r: Option<String>)
    ensures
        r matches Some(c) ==> home_candidate(text@, path@, exe@) == Some(c@),
        r is None ==> home_candidate(text@, path@, exe@) is None,
{
    let ls = lines(&to_chars(text));
    match find_property(&ls, "java.home") {
        Some(home) => {
            if is_single_component(path) {
                let home = from_chars(&home);
                let bin = join(home.as_str(), "bin");
                Some(join(bin.as_str(), exe))
            } else {
                None
            }
        },
        None => None,
    }
}

/// Reads the output of `java -XshowSettings:properties -version`.
/// `candidate_is_file` tells whether `java_home_candidate` names a file; the
/// install then points at it rather than at the bare `java`.
pub fn parse_properties(text: &str, path: &str, exe: &str, candidate_is_file: bool) -> (r: Option<
    JavaInstall,
>)
    ensures
        r is Some <==> (reported_version(text@) matches Some(v) && spec_java_major(v) is Some),
        r matches Some(install) ==> ({
            let v = reported_version(text@).unwrap();
            &&& install.version@ == v
            &&& Some(install.major) == spec_java_major(v)
            &&& install.vendor@ == match last_property(lines_seq(text@), "java.vendor"@) {
                Some(x) => x,
                None => "unknown"@,
            }
            &&& install.arch@ == match last_property(lines_seq(text@), "os.arch"@) {
                Some(x) => x,
                None => "unknown"@,
            }
            &&& install.path@ == match home_candidate(text@, path@, exe@) {
                Some(c) => if candidate_is_file {
                    c
                } else {
                    path@
                },
                None => path@,
            }
            &&& install.source@ == "system"@
            &&& !install.managed
        }),
{
    let ls = lines(&to_chars(text));
    let version = match find_property(&ls, "java.version") {
        Some(v) => v,
        None => match find_banner(&ls) {
            Some(v) => v,
            None => return None,
        },
    };
    let version = from_chars(&version);
    let major = match java_major(version.as_str()) {
        Some(m) => m,
        None => return None,
    };
    let vendor = match find_property(&ls, "java.vendor") {
        Some(v) => from_chars(&v),
        None => "unknown".to_owned(),
    };
    let arch = match find_property(&ls, "os.arch") {
        Some(v) => from_chars(&v),
        None => "unknown".to_owned(),
    };
    let resolved = match java_home_candidate(text, path, exe) {
        Some(c) => if candidate_is_file {
            c
        } else {
            path.to_owned()
        },
        None => path.to_owned(),
    };
    Some(
        JavaInstall {
            path: resolved,
            version,
            major,
            vendor,
            arch,
            source: "system".to_owned(),
            managed: false,
        },
    )
}


/// A runtime that could not be run: its path, and why.
pub fn probe_failure(path: &str, reason: &str) -> (e: AppError)
    ensures
        is_error(e, "java_missing"@, path@ + reason@),
{
    let mut m = to_chars(path);
    crate::text::push_str(&mut m, reason);
    let message = from_chars(&m);
    AppError::new("java_missing", message.as_str())
}

/// A program that ran but did not describe itself as a runtime.
pub fn not_a_runtime(path: &str) -> (e: AppError)
    ensures
        is_error(e, "java_incompatible"@, path@ + " is not a usable Java runtime"@),
{
    let mut m = to_chars(path);
    crate::text::push_str(&mut m, " is not a usable Java runtime");
    let message = from_chars(&m);
    AppError::new("java_incompatible", message.as_str())
}

// ── The Java an instance needs ─────────────────────────────────────────────

/// The Java major version a Minecraft version needs, from its manifest's
/// `javaVersion.majorVersion`; versions before 1.17 have none and run on 8.
pub fn required_major(manifest_major: Option<u32>) -> (r: u32)
    ensures
        r == match manifest_major {
            Some(m) => m,
            None => LEGACY_JAVA_MAJOR,
        },
{
    match manifest_major {
        Some(m) => m,
        None => LEGACY_JAVA_MAJOR,
    }
}

impl JavaRequirement {
    /// What the panel forces for an instance: the major of its `java`
    /// version, when it gives a readable one.
    pub fn from_panel(instance_id: &str, instance: &crate::models::Instance) -> (r: Option<
        JavaRequirement,
    >)
        ensures
            match r {
                Some(q) => instance.java_version matches Some(v) && spec_java_major(v@) == Some(
                    q.major,
                ) && q.instance_id@ == instance_id@ && q.minecraft_version@
                    == instance.minecraft_version@ && q.source@ == "panel"@,
                None => !(instance.java_version matches Some(v) && spec_java_major(v@) is Some),
            },
    {
        let forced = match &instance.java_version {
            Some(v) => java_major(v.as_str()),
            None => None,
        };
        match forced {
            Some(major) => Some(
                JavaRequirement {
                    instance_id: instance_id.to_owned(),
                    minecraft_version: instance.minecraft_version.clone(),
                    major,
                    source: "panel".to_owned(),
                },
            ),
            None => None,
        }
    }

    /// What Mojang's manifest requires for the instance's Minecraft version.
    pub fn from_manifest(instance_id: &str, instance: &crate::models::Instance, major: u32) -> (r:
        JavaRequirement)
        ensures
            r.instance_id@ == instance_id@,
            r.minecraft_version@ == instance.minecraft_version@,
            r.major == major,
            r.source@ == "mojang"@,
    {
        JavaRequirement {
            instance_id: instance_id.to_owned(),
            minecraft_version: instance.minecraft_version.clone(),
            major,
            source: "mojang".to_owned(),
        }
    }
}

// ── Where Java is looked for ────────────────────────────────────────────────

/// Vendors whose runtimes install under `Program Files` on Windows.
pub open spec fn windows_vendors() -> Seq<Seq<char>> {
    seq![
        "Java"@,
        "Eclipse Adoptium"@,
        "Eclipse Foundation"@,
        "Zulu"@,
        "Microsoft"@,
        "Amazon Corretto"@,
        "BellSoft"@,
        "AdoptOpenJDK"@,
    ]
}

/// Each vendor's directory under each `Program Files` directory, in order.
pub open spec fn vendor_dirs(bases: Seq<Seq<char>>) -> Seq<Seq<char>>
    decreases bases.len(),
{
    if bases.len() == 0 {
        Seq::empty()
    } else {
        vendor_dirs(bases.drop_last()) + windows_vendors().map_values(
            |v: Seq<char>| path_join(bases.last(), v),
        )
    }
}

/// The well-known installation roots of an OS (`std::env::consts::OS`);
/// each child of a root is a runtime's home. `program_files` holds the
/// `Program Files` directories the environment names, on Windows.
pub open spec fn java_roots_of(os: Seq<char>, home: Option<Seq<char>>, program_files: Seq<Seq<char>>) -> Seq<
    Seq<char>,
> {
    if os == "macos"@ {
        let first = seq!["/Library/Java/JavaVirtualMachines"@];
        let mine = match home {
            Some(h) => first.push(path_join(h, "Library/Java/JavaVirtualMachines"@)),
            None => first,
        };
        mine.push("/opt/homebrew/opt"@).push("/usr/local/opt"@)
    } else if os == "windows"@ {
        vendor_dirs(program_files)
    } else {
        let system = seq!["/usr/lib/jvm"@, "/usr/lib64/jvm"@, "/opt/java"@];
        match home {
            Some(h) => system.push(path_join(h, ".sdkman/candidates/java"@)).push(
                path_join(h, ".jdks"@),
            ),
            None => system,
        }
    }
}

fn push_joined(out: &mut Vec<String>, base: &str, rest: &str)
    ensures
        string_views(final(out)@) == string_views(old(out)@).push(path_join(base@, rest@)),
{
    let ghost before = out@;
    out.push(join(base, rest));
    assert(string_views(out@) =~= string_views(before).push(path_join(base@, rest@)));
}

fn push_text(out: &mut Vec<String>, text: &str)
    ensures
        string_views(final(out)@) == string_views(old(out)@).push(text@),
{
    let ghost before = out@;
    out.push(text.to_owned());
    assert(string_views(out@) =~= string_views(before).push(text@));
}

pub fn java_roots(os: &str, home: Option<&str>, program_files: &Vec<String>) -> (r: Vec<String>)
    ensures
        string_views(r@) == java_roots_of(os@, str_opt(home), string_views(program_files@)),
{
    let mut roots: Vec<String> = Vec::new();
    if crate::text::eq_chars(&to_chars(os), &to_chars("macos")) {
        push_text(&mut roots, "/Library/Java/JavaVirtualMachines");
        if let Some(h) = home {
            push_joined(&mut roots, h, "Library/Java/JavaVirtualMachines");
        }
        push_text(&mut roots, "/opt/homebrew/opt");
        push_text(&mut roots, "/usr/local/opt");
        assert(string_views(roots@) =~= java_roots_of(
            os@,
            str_opt(home),
            string_views(program_files@),
        ));
    } else if crate::text::eq_chars(&to_chars(os), &to_chars("windows")) {
        let vendors: Vec<&str> = vec![
            "Java",
            "Eclipse Adoptium",
            "Eclipse Foundation",
            "Zulu",
            "Microsoft",
            "Amazon Corretto",
            "BellSoft",
            "AdoptOpenJDK",
        ];
        assert(vendors@.map_values(|v: &str| v@) =~= windows_vendors());
        let ghost bases = string_views(program_files@);
        let mut i: usize = 0;
        while i < program_files.len()
            invariant
                i <= program_files@.len(),
                bases == string_views(program_files@),
                vendors@.map_values(|v: &str| v@) == windows_vendors(),
                string_views(roots@) == vendor_dirs(bases.take(i as int)),
            decreases program_files@.len() - i,
        {
            let ghost before = string_views(roots@);
            let mut k: usize = 0;
            while k < vendors.len()
                invariant
                    i < program_files@.len(),
                    k <= vendors@.len(),
                    vendors@.map_values(|v: &str| v@) == windows_vendors(),
                    string_views(roots@) == before + windows_vendors().take(k as int).map_values(
                        |v: Seq<char>| path_join(program_files@[i as int]@, v),
                    ),
                decreases vendors@.len() - k,
            {
                assert(windows_vendors()[k as int] == vendors@[k as int]@);
                push_joined(&mut roots, program_files[i].as_str(), vendors[k]);
                assert(windows_vendors().take(k + 1).map_values(
                    |v: Seq<char>| path_join(program_files@[i as int]@, v),
                ) =~= windows_vendors().take(k as int).map_values(
                    |v: Seq<char>| path_join(program_files@[i as int]@, v),
                ).push(path_join(program_files@[i as int]@, vendors@[k as int]@)));
                k += 1;
            }
            assert(windows_vendors().take(8) =~= windows_vendors());
            assert(bases.take(i + 1).drop_last() =~= bases.take(i as int));
            assert(string_views(roots@) =~= vendor_dirs(bases.take(i + 1)));
            i += 1;
        }
        assert(bases.take(i as int) =~= bases);
    } else {
        push_text(&mut roots, "/usr/lib/jvm");
        push_text(&mut roots, "/usr/lib64/jvm");
        push_text(&mut roots, "/opt/java");
        if let Some(h) = home {
            push_joined(&mut roots, h, ".sdkman/candidates/java");
            push_joined(&mut roots, h, ".jdks");
        }
        assert(string_views(roots@) =~= java_roots_of(
            os@,
            str_opt(home),
            string_views(program_files@),
        ));
    }
    roots
}

/// Homebrew's roots (`…/opt` on macOS) hold every formula: only the
/// `openjdk*` ones are runtimes, with their home inside the formula.
pub open spec fn homebrew_root(os: Seq<char>, root: Seq<char>) -> bool {
    os == "macos"@ && crate::update::file_name_of(root) == "opt"@
}

/// The runtime homes under a root, from the directories it holds.
pub open spec fn homes_under(os: Seq<char>, root: Seq<char>, children: Seq<Seq<char>>) -> Seq<Seq<char>>
    decreases children.len(),
{
    if children.len() == 0 {
        Seq::empty()
    } else {
        let before = homes_under(os, root, children.drop_last());
        let child = children.last();
        if !homebrew_root(os, root) {
            before.push(child)
        } else if crate::text::spec_starts_with(crate::update::file_name_of(child), "openjdk"@) {
            before.push(path_join(path_join(child, "libexec"@), "openjdk.jdk"@))
        } else {
            before
        }
    }
}

pub fn java_homes_under(os: &str, root: &str, children: &Vec<String>) -> (r: Vec<String>)
    ensures
        string_views(r@) == homes_under(os@, root@, string_views(children@)),
{
    let brew = crate::text::eq_chars(&to_chars(os), &to_chars("macos")) && crate::text::eq_chars(
        &crate::update::file_name(root),
        &to_chars("opt"),
    );
    let ghost all = string_views(children@);
    let mut homes: Vec<String> = Vec::new();
    let mut i: usize = 0;
    while i < children.len()
        invariant
            i <= children@.len(),
            all == string_views(children@),
            brew == homebrew_root(os@, root@),
            string_views(homes@) == homes_under(os@, root@, all.take(i as int)),
        decreases children@.len() - i,
    {
        assert(all.take(i + 1).drop_last() =~= all.take(i as int));
        assert(all.take(i + 1).last() == children@[i as int]@);
        if !brew {
            push_text(&mut homes, children[i].as_str());
        } else if crate::text::starts_with(
            &crate::update::file_name(children[i].as_str()),
            &to_chars("openjdk"),
        ) {
            let libexec = join(children[i].as_str(), "libexec");
            push_joined(&mut homes, libexec.as_str(), "openjdk.jdk");
        }
        i += 1;
    }
    assert(all.take(i as int) =~= all);
    homes
}

// ── Detection ───────────────────────────────────────────────────────────────

/// The executables to probe, each with where it was found: the custom one,
/// the one under `JAVA_HOME`, the bare name looked up on the `PATH`, then
/// the system installations and the launcher's own runtimes.
pub open spec fn candidates_of(
    custom: Option<Seq<char>>,
    java_home: Option<Seq<char>>,
    exe: Seq<char>,
    system: Seq<Seq<char>>,
    managed: Seq<Seq<char>>,
) -> Seq<(Seq<char>, Seq<char>)> {
    let a: Seq<(Seq<char>, Seq<char>)> = match custom {
        Some(c) => seq![(c, "custom"@)],
        None => Seq::empty(),
    };
    let b = match java_home {
        Some(h) => a.push((path_join(path_join(h, "bin"@), exe), "javaHome"@)),
        None => a,
    };
    b.push((exe, "path"@)) + system.map_values(|s: Seq<char>| (s, "system"@)) + managed.map_values(
        |m: Seq<char>| (m, "managed"@),
    )
}

pub open spec fn candidate_views(c: Seq<(String, &str)>) -> Seq<(Seq<char>, Seq<char>)> {
    c.map_values(|p: (String, &str)| (p.0@, p.1@))
}

fn push_tagged(out: &mut Vec<(String, &'static str)>, items: &Vec<String>, tag: &'static str)
    ensures
        candidate_views(final(out)@) == candidate_views(old(out)@) + string_views(items@).map_values(
            |s: Seq<char>| (s, tag@),
        ),
{
    let ghost before = candidate_views(out@);
    let mut i: usize = 0;
    while i < items.len()
        invariant
            i <= items@.len(),
            candidate_views(out@) == before + string_views(items@).take(i as int).map_values(
                |s: Seq<char>| (s, tag@),
            ),
        decreases items@.len() - i,
    {
        let ghost prev = candidate_views(out@);
        out.push((items[i].clone(), tag));
        assert(candidate_views(out@) =~= prev.push((items@[i as int]@, tag@)));
        assert(string_views(items@).take(i + 1).map_values(|s: Seq<char>| (s, tag@))
            =~= string_views(items@).take(i as int).map_values(|s: Seq<char>| (s, tag@)).push(
            (items@[i as int]@, tag@),
        ));
        assert(candidate_views(out@) =~= before + string_views(items@).take(i + 1).map_values(
            |s: Seq<char>| (s, tag@),
        ));
        i += 1;
    }
    assert(string_views(items@).take(i as int) =~= string_views(items@));
}

pub fn java_candidates(
    custom: Option<&str>,
    java_home: Option<&str>,
    exe: &str,
    system: &Vec<String>,
    managed: &Vec<String>,
) -> (r: Vec<(String, &'static str)>)
    ensures
        candidate_views(r@) == candidates_of(
            str_opt(custom),
            str_opt(java_home),
            exe@,
            string_views(system@),
            string_views(managed@),
        ),
{
    let mut out: Vec<(String, &'static str)> = Vec::new();
    if let Some(c) = custom {
        out.push((c.to_owned(), "custom"));
    }
    if let Some(h) = java_home {
        let bin = join(h, "bin");
        out.push((join(bin.as_str(), exe), "javaHome"));
    }
    out.push((exe.to_owned(), "path"));
    let ghost head = candidate_views(out@);
    assert(head =~= match java_home {
        Some(h) => match custom {
            Some(c) => seq![(c@, "custom"@)],
            None => Seq::<(Seq<char>, Seq<char>)>::empty(),
        }.push((path_join(path_join(h@, "bin"@), exe@), "javaHome"@)),
        None => match custom {
            Some(c) => seq![(c@, "custom"@)],
            None => Seq::<(Seq<char>, Seq<char>)>::empty(),
        },
    }.push((exe@, "path"@)));
    push_tagged(&mut out, system, "system");
    push_tagged(&mut out, managed, "managed");
    out
}

/// Whether each key is seen for the first time: the same runtime reached by
/// two paths is probed once.
pub fn first_seen(keys: &Vec<String>) -> (r: Vec<bool>)
    ensures
        r@.len() == keys@.len(),
        forall|i: int|
            0 <= i < keys@.len() ==> #[trigger] r@[i] == !string_views(keys@).take(i).contains(
                keys@[i]@,
            ),
{
    let ghost all = string_views(keys@);
    let mut fresh: Vec<bool> = Vec::new();
    let mut i: usize = 0;
    while i < keys.len()
        invariant
            i <= keys@.len(),
            all == string_views(keys@),
            fresh@.len() == i,
            forall|j: int| 0 <= j < i ==> #[trigger] fresh@[j] == !all.take(j).contains(keys@[j]@),
        decreases keys@.len() - i,
    {
        let key = to_chars(keys[i].as_str());
        let mut seen = false;
        let mut j: usize = 0;
        while j < i
            invariant
                j <= i < keys@.len(),
                all == string_views(keys@),
                key@ == keys@[i as int]@,
                seen == all.take(j as int).contains(key@),
            decreases i - j,
        {
            assert(all.take(j + 1) =~= all.take(j as int).push(all[j as int]));
            if crate::text::eq_chars(&to_chars(keys[j].as_str()), &key) {
                seen = true;
            }
            proof {
                let t = all.take(j as int);
                let x = all[j as int];
                assert(all.take(j + 1) =~= t.push(x));
                if t.push(x).contains(key@) {
                    let w = choose|w: int| 0 <= w < t.len() + 1 && #[trigger] t.push(x)[w] == key@;
                    if w < t.len() {
                        assert(t[w] == key@);
                    }
                }
                if t.contains(key@) {
                    let w = choose|w: int| 0 <= w < t.len() && #[trigger] t[w] == key@;
                    assert(t.push(x)[w] == key@);
                }
                if x == key@ {
                    assert(t.push(x)[t.len() as int] == key@);
                }
            }
            j += 1;
        }
        fresh.push(!seen);
        i += 1;
    }
    fresh
}

impl JavaInstall {
    /// A probed runtime, marked with where it was found; the launcher's own
    /// runtimes are the `managed` ones.
    pub fn found(self, source: &str) -> (r: JavaInstall)
        ensures
            r.path == self.path,
            r.version == self.version,
            r.major == self.major,
            r.vendor == self.vendor,
            r.arch == self.arch,
            r.source@ == source@,
            r.managed == (source@ == "managed"@),
    {
        let managed = crate::text::eq_chars(&to_chars(source), &to_chars("managed"));
        JavaInstall {
            path: self.path,
            version: self.version,
            major: self.major,
            vendor: self.vendor,
            arch: self.arch,
            source: source.to_owned(),
            managed,
        }
    }
}

/// What an installation shows, as plain values.
pub open spec fn install_view(j: JavaInstall) -> (u32, Seq<char>, Seq<char>, Seq<char>, Seq<char>, Seq<char>, bool) {
    (j.major, j.path@, j.version@, j.vendor@, j.arch@, j.source@, j.managed)
}

pub open spec fn install_views(v: Seq<JavaInstall>) -> Seq<(u32, Seq<char>, Seq<char>, Seq<char>, Seq<char>, Seq<char>, bool)> {
    v.map_values(|j: JavaInstall| install_view(j))
}

/// The rank of a character when paths are ordered: the separator before
/// every other character, the others by code point. With it, comparing two
/// paths character by character compares them component by component, as
/// `Path`'s order does (for paths without empty or `.` components).
pub open spec fn path_rank(c: char) -> int {
    if c == '/' {
        -1
    } else {
        c as u32 as int
    }
}

/// `a` comes after `b` in `Path`'s order.
pub open spec fn path_gt(a: Seq<char>, b: Seq<char>) -> bool
    decreases a.len(),
{
    if a.len() == 0 {
        false
    } else if b.len() == 0 {
        true
    } else if a[0] != b[0] {
        path_rank(a[0]) > path_rank(b[0])
    } else {
        path_gt(a.drop_first(), b.drop_first())
    }
}

fn path_greater(a: &[char], b: &[char]) -> (r: bool)
    ensures
        r == path_gt(a@, b@),
{
    let mut i: usize = 0;
    assert(a@.skip(0) =~= a@);
    assert(b@.skip(0) =~= b@);
    while i < a.len() && i < b.len()
        invariant
            i <= a@.len(),
            i <= b@.len(),
            path_gt(a@, b@) == path_gt(a@.skip(i as int), b@.skip(i as int)),
        decreases a@.len() - i,
    {
        if a[i] != b[i] {
            if a[i] == '/' {
                return false;
            }
            if b[i] == '/' {
                return true;
            }
            return (a[i] as u32) > (b[i] as u32);
        }
        assert(a@.skip(i as int).drop_first() =~= a@.skip(i + 1));
        assert(b@.skip(i as int).drop_first() =~= b@.skip(i + 1));
        i += 1;
    }
    i < a.len()
}

proof fn lemma_path_rank_injective(a: char, b: char)
    ensures
        a != b ==> path_rank(a) != path_rank(b),
{
    vstd::utf8::char_u32_cast(a, a as u32);
    vstd::utf8::char_u32_cast(b, b as u32);
}

proof fn lemma_path_gt_asymmetric(a: Seq<char>, b: Seq<char>)
    ensures
        path_gt(a, b) ==> !path_gt(b, a),
    decreases a.len(),
{
    if a.len() > 0 && b.len() > 0 {
        lemma_path_rank_injective(a[0], b[0]);
        if a[0] == b[0] {
            lemma_path_gt_asymmetric(a.drop_first(), b.drop_first());
        }
    }
}

proof fn lemma_path_le_transitive(a: Seq<char>, b: Seq<char>, c: Seq<char>)
    ensures
        !path_gt(a, b) && !path_gt(b, c) ==> !path_gt(a, c),
    decreases a.len(),
{
    if a.len() > 0 && b.len() > 0 && c.len() > 0 {
        lemma_path_rank_injective(a[0], b[0]);
        lemma_path_rank_injective(b[0], c[0]);
        lemma_path_rank_injective(a[0], c[0]);
        if a[0] == b[0] && b[0] == c[0] {
            lemma_path_le_transitive(a.drop_first(), b.drop_first(), c.drop_first());
        }
    }
}

/// Newest major first, then by path.
pub open spec fn install_gt() -> spec_fn(
    (u32, Seq<char>, Seq<char>, Seq<char>, Seq<char>, Seq<char>, bool),
    (u32, Seq<char>, Seq<char>, Seq<char>, Seq<char>, Seq<char>, bool),
) -> bool {
    |a: (u32, Seq<char>, Seq<char>, Seq<char>, Seq<char>, Seq<char>, bool), b: (u32, Seq<char>, Seq<char>, Seq<char>, Seq<char>, Seq<char>, bool)|
        a.0 < b.0 || (a.0 == b.0 && path_gt(a.1, b.1))
}

fn install_after(a: &JavaInstall, b: &JavaInstall) -> (r: bool)
    ensures
        r == (install_gt())(install_view(*a), install_view(*b)),
{
    a.major < b.major || (a.major == b.major && path_greater(
        &to_chars(a.path.as_str()),
        &to_chars(b.path.as_str()),
    ))
}

/// The installations in the order the interface lists them.
pub fn sort_installs(items: Vec<JavaInstall>) -> (r: Vec<JavaInstall>)
    ensures
        install_views(r@) == sort_gt(install_views(items@), install_gt()),
{
    let ghost all = install_views(items@);
    let mut rest = items;
    let mut out: Vec<JavaInstall> = Vec::new();
    let n = rest.len();
    let mut i: usize = 0;
    while i < n
        invariant
            i <= n == all.len(),
            install_views(rest@) == all.skip(i as int),
            install_views(out@) == sort_gt(all.take(i as int), install_gt()),
        decreases n - i,
    {
        assert(all.take(i + 1).drop_last() =~= all.take(i as int));
        assert(install_views(rest@)[0] == all[i as int]);
        let ghost rest_before = rest@;
        assert(install_views(rest_before).len() == rest_before.len());
        let x = rest.remove(0);
        assert(install_views(rest@) =~= all.skip(i + 1)) by {
            assert(rest@ =~= rest_before.remove(0));
            assert forall|j: int| 0 <= j < rest@.len() implies #[trigger] install_views(rest@)[j]
                == all.skip(i + 1)[j] by {
                assert(rest@[j] == rest_before[j + 1]);
                assert(install_views(rest_before)[j + 1] == all.skip(i as int)[j + 1]);
            }
        }
        let mut pos = out.len();
        while pos > 0 && install_after(&out[pos - 1], &x)
            invariant
                pos <= out@.len(),
                forall|j: int|
                    pos <= j < out@.len() ==> (install_gt())(
                        install_view(#[trigger] out@[j]),
                        install_view(x),
                    ),
            decreases pos,
        {
            pos -= 1;
        }
        proof {
            let s = install_views(out@);
            assert forall|j: int| pos <= j < s.len() implies (install_gt())(
                #[trigger] s[j],
                install_view(x),
            ) by {
                assert(s[j] == install_view(out@[j]));
            }
            if pos > 0 {
                assert(s[pos - 1] == install_view(out@[pos - 1]));
            }
            lemma_insert_gt(s, install_view(x), install_gt(), pos as int);
        }
        let ghost before = install_views(out@);
        out.insert(pos, x);
        assert(install_views(out@) =~= before.take(pos as int) + seq![install_view(x)]
            + before.skip(pos as int));
        i += 1;
    }
    assert(all.take(i as int) =~= all);
    out
}

/// Installations are listed newest major first, then by path, and the sort
/// loses and adds nothing.
pub proof fn law_installs_sorted(items: Seq<JavaInstall>)
    ensures
        sorted_by(sort_gt(install_views(items), install_gt()), install_gt()),
        sort_gt(install_views(items), install_gt()).to_multiset() == install_views(items).to_multiset(),
{
    assert forall|a: (u32, Seq<char>, Seq<char>, Seq<char>, Seq<char>, Seq<char>, bool), b: (u32, Seq<char>, Seq<char>, Seq<char>, Seq<char>, Seq<char>, bool)|
        #[trigger] (install_gt())(a, b) implies !(install_gt())(b, a) by {
        lemma_path_gt_asymmetric(a.1, b.1);
    }
    assert forall|a: (u32, Seq<char>, Seq<char>, Seq<char>, Seq<char>, Seq<char>, bool), b: (u32, Seq<char>, Seq<char>, Seq<char>, Seq<char>, Seq<char>, bool), c: (u32, Seq<char>, Seq<char>, Seq<char>, Seq<char>, Seq<char>, bool)|
        #![trigger (install_gt())(a, b), (install_gt())(b, c)]
        !(install_gt())(a, b) && !(install_gt())(b, c) implies !(install_gt())(a, c) by {
        lemma_path_le_transitive(a.1, b.1, c.1);
    }
    law_sort_gt(install_views(items), install_gt());
}

} // verus!
