//! Intégration au bureau Linux (standard XDG) : ce qu'il faut écrire.
//!
//! Une AppImage n'est qu'un fichier exécutable : le bureau ne sait rien d'elle
//! tant que personne ne le lui a dit. Ce module compose l'entrée `.desktop` du
//! tenant et l'emplacement de son icône ; l'application écrit les fichiers.
//!
//! ```text
//! ~/.local/share/applications/<app_id>.desktop
//! ~/.local/share/icons/hicolor/<taille>/apps/<app_id>.png
//! ```

use vstd::prelude::*;

use crate::paths::{is_absolute, join, path_join};
use crate::text::{
    dec_chars, dec_seq, from_chars, push_all, push_str, remove_controls, spec_is_control,
    take_chars, take_prefix, to_chars, trim, trim_char, trim_chars, trim_matches, without_controls,
};

verus! {

/// Tailles des dossiers `hicolor` de la spécification d'icônes XDG.
pub open spec fn hicolor_sizes() -> Seq<u32> {
    seq![16, 22, 24, 32, 36, 48, 64, 72, 96, 128, 192, 256, 512]
}

/// Empreinte de la dernière entrée écrite, dans le dossier du launcher.
pub const STAMP_FILE: &'static str = "desktop-entry.json";

/// Longueur maximale du nom affiché.
pub const MAX_NAME_CHARS: usize = 128;

/// Le dossier de données XDG : `$XDG_DATA_HOME` s'il est absolu, sinon
/// `$HOME/.local/share` si `$HOME` est absolu, sinon rien.
pub open spec fn xdg_data_home(xdg: Option<Seq<char>>, home: Option<Seq<char>>) -> Option<
    Seq<char>,
> {
    match xdg {
        Some(x) if is_absolute(x) => Some(x),
        _ => match home {
            Some(h) if is_absolute(h) => Some(path_join(h, ".local/share"@)),
            _ => None,
        },
    }
}

/// Le dossier de données XDG, à partir des deux variables d'environnement.
pub fn data_home(xdg: Option<&str>, home: Option<&str>) -> (r: Option<String>)
    ensures
        r matches Some(s) ==> xdg_data_home(
            match xdg {
                Some(x) => Some(x@),
                None => None,
            },
            match home {
                Some(h) => Some(h@),
                None => None,
            },
        ) == Some(s@),
        r is None ==> xdg_data_home(
            match xdg {
                Some(x) => Some(x@),
                None => None,
            },
            match home {
                Some(h) => Some(h@),
                None => None,
            },
        ) is None,
{
    if let Some(x) = xdg {
        if crate::paths::is_absolute_path(x) {
            return Some(x.to_owned());
        }
    }
    match home {
        Some(h) => {
            if crate::paths::is_absolute_path(h) {
                Some(join(h, ".local/share"))
            } else {
                None
            }
        },
        None => None,
    }
}

/// Identifiant de l'entrée : celui de l'application, sans point au bord.
pub fn app_id(identifier: &str) -> (r: String)
    ensures
        r@ == trim_char(identifier@, '.'),
{
    from_chars(&trim_matches(&to_chars(identifier), '.'))
}

/// Un nom réduit à ce qu'une valeur de fichier `.desktop` accepte : sans
/// caractère de contrôle, sans blanc au bord, 128 caractères au plus.
pub open spec fn entry_name_of(name: Seq<char>) -> Seq<char> {
    take_chars(trim(without_controls(name)), MAX_NAME_CHARS as nat)
}

pub fn entry_name(name: &str) -> (r: String)
    ensures
        r@ == entry_name_of(name@),
{
    let cleaned = remove_controls(&to_chars(name));
    let trimmed = trim_chars(&cleaned);
    from_chars(&take_prefix(&trimmed, MAX_NAME_CHARS))
}

/// Échappement d'un caractère du champ `Exec` : les quatre caractères
/// réservés prennent une barre oblique inverse devant eux.
pub open spec fn exec_escape(s: Seq<char>) -> Seq<char>
    decreases s.len(),
{
    if s.len() == 0 {
        s
    } else {
        let c = s.last();
        let prev = exec_escape(s.drop_last());
        if c == '\\' || c == '"' || c == '`' || c == '$' {
            prev + seq!['\\', c]
        } else {
            prev.push(c)
        }
    }
}

/// Un chemin pour le champ `Exec` : entre guillemets, réservés échappés.
pub open spec fn quoted_exec(path: Seq<char>) -> Seq<char> {
    seq!['"'] + exec_escape(path) + seq!['"']
}

pub fn quote_exec(path: &str) -> (r: String)
    ensures
        r@ == quoted_exec(path@),
{
    let p = to_chars(path);
    let mut out: Vec<char> = Vec::new();
    out.push('"');
    let mut i: usize = 0;
    while i < p.len()
        invariant
            i <= p@.len(),
            out@ == seq!['"'] + exec_escape(p@.take(i as int)),
        decreases p@.len() - i,
    {
        assert(p@.take(i + 1).drop_last() =~= p@.take(i as int));
        let c = p[i];
        let ghost before = out@;
        if c == '\\' || c == '"' || c == '`' || c == '$' {
            out.push('\\');
            out.push(c);
        } else {
            out.push(c);
        }
        assert(out@ =~= seq!['"'] + exec_escape(p@.take(i + 1)));
        i += 1;
    }
    assert(p@.take(i as int) =~= p@);
    out.push('"');
    from_chars(&out)
}

/// Big-endian `u32` at `at`.
pub open spec fn be_u32(b: Seq<u8>, at: int) -> u32 {
    (b[at] as u32 * 0x100_0000 + b[at + 1] as u32 * 0x1_0000 + b[at + 2] as u32 * 0x100 + b[at
        + 3] as u32) as u32
}

pub open spec fn png_magic() -> Seq<u8> {
    seq![0x89, 0x50, 0x4e, 0x47, 0x0d, 0x0a, 0x1a, 0x0a]
}

/// Dimensions d'un PNG lues dans son en-tête `IHDR`, à décalage fixe.
pub open spec fn png_dims(png: Seq<u8>) -> Option<(u32, u32)> {
    if png.len() < 24 || png.take(8) != png_magic() {
        None
    } else {
        let w = be_u32(png, 16);
        let h = be_u32(png, 20);
        if w > 0 && h > 0 {
            Some((w, h))
        } else {
            None
        }
    }
}

pub fn read_be_u32(b: &[u8], at: usize) -> (r: u32)
    requires
        at + 4 <= b@.len(),
    ensures
        r == be_u32(b@, at as int),
{
    (b[at] as u32) * 0x100_0000 + (b[at + 1] as u32) * 0x1_0000 + (b[at + 2] as u32) * 0x100 + (
    b[at + 3] as u32)
}

pub fn png_dimensions(png: &[u8]) -> (r: Option<(u32, u32)>)
    ensures
        r == png_dims(png@),
{
    if png.len() < 24 {
        return None;
    }
    let magic: [u8; 8] = [0x89, 0x50, 0x4e, 0x47, 0x0d, 0x0a, 0x1a, 0x0a];
    let mut i: usize = 0;
    while i < 8
        invariant
            i <= 8,
            png@.len() >= 24,
            magic@ == png_magic(),
            forall|j: int| 0 <= j < i ==> png@[j] == png_magic()[j],
        decreases 8 - i,
    {
        if png[i] != magic[i] {
            assert(png@.take(8)[i as int] != png_magic()[i as int]);
            return None;
        }
        i += 1;
    }
    assert(png@.take(8) =~= png_magic());
    let width = read_be_u32(png, 16);
    let height = read_be_u32(png, 20);
    if width > 0 && height > 0 {
        Some((width, height))
    } else {
        None
    }
}

pub open spec fn dist(a: u32, b: u32) -> int {
    if a >= b {
        a - b
    } else {
        b - a
    }
}

/// La première taille la plus proche de `size` (`min_by_key`).
pub open spec fn nearest_in(sizes: Seq<u32>, size: u32) -> u32
    decreases sizes.len(),
{
    if sizes.len() <= 1 {
        sizes[0]
    } else {
        let best = nearest_in(sizes.drop_last(), size);
        if dist(sizes.last(), size) < dist(best, size) {
            sizes.last()
        } else {
            best
        }
    }
}

/// Dossier `hicolor` le plus proche de la taille réelle de l'image, d'après
/// son plus grand côté : `<n>x<n>`.
pub open spec fn hicolor_dir_of(width: u32, height: u32) -> Seq<char> {
    let size = if width >= height {
        width
    } else {
        height
    };
    let n = nearest_in(hicolor_sizes(), size);
    dec_seq(n as nat) + seq!['x'] + dec_seq(n as nat)
}

pub fn hicolor_dir(width: u32, height: u32) -> (r: String)
    ensures
        r@ == hicolor_dir_of(width, height),
{
    let sizes: [u32; 13] = [16, 22, 24, 32, 36, 48, 64, 72, 96, 128, 192, 256, 512];
    assert(sizes@ =~= hicolor_sizes());
    let size = if width >= height {
        width
    } else {
        height
    };
    let mut best = sizes[0];
    let mut i: usize = 1;
    assert(sizes@.take(1).drop_last() =~= Seq::<u32>::empty());
    while i < 13
        invariant
            1 <= i <= 13,
            sizes@ == hicolor_sizes(),
            best == nearest_in(sizes@.take(i as int), size),
        decreases 13 - i,
    {
        let candidate = sizes[i];
        assert(sizes@.take(i + 1).drop_last() =~= sizes@.take(i as int));
        let d_candidate = if candidate >= size {
            candidate - size
        } else {
            size - candidate
        };
        let d_best = if best >= size {
            best - size
        } else {
            size - best
        };
        if d_candidate < d_best {
            best = candidate;
        }
        i += 1;
    }
    assert(sizes@.take(13) =~= sizes@);
    let mut v = dec_chars(best as u64);
    v.push('x');
    let tail = dec_chars(best as u64);
    push_all(&mut v, &tail);
    from_chars(&v)
}

pub fn applications_dir(data_home: &str) -> (r: String)
    ensures
        r@ == path_join(data_home@, "applications"@),
{
    join(data_home, "applications")
}

/// `<data_home>/icons/hicolor/<dir>/apps/<app_id>.png`.
pub open spec fn icon_path_of(data_home: Seq<char>, dir: Seq<char>, app_id: Seq<char>) -> Seq<
    char,
> {
    path_join(
        path_join(path_join(path_join(data_home, "icons/hicolor"@), dir), "apps"@),
        app_id + ".png"@,
    )
}

pub fn icon_path(data_home: &str, dir: &str, app_id: &str) -> (r: String)
    ensures
        r@ == icon_path_of(data_home@, dir@, app_id@),
{
    let a = join(data_home, "icons/hicolor");
    let b = join(a.as_str(), dir);
    let c = join(b.as_str(), "apps");
    let mut name = to_chars(app_id);
    push_str(&mut name, ".png");
    let name = from_chars(&name);
    join(c.as_str(), name.as_str())
}

/// Contenu du fichier `.desktop`.
pub open spec fn entry_contents_of(
    name: Seq<char>,
    exec: Seq<char>,
    app_id: Seq<char>,
    icon: bool,
    wm_class: Option<Seq<char>>,
) -> Seq<char> {
    "[Desktop Entry]\nType=Application\nVersion=1.5\n"@ + "Name="@ + name + "\n"@ + "Exec="@
        + exec + "\n"@ + (if icon {
        "Icon="@ + app_id + "\n"@
    } else {
        Seq::empty()
    }) + "Terminal=false\nCategories=Game;\n"@ + (match wm_class {
        Some(class) => "StartupWMClass="@ + class + "\n"@,
        None => Seq::empty(),
    }) + "StartupNotify=true\n"@
}

pub fn entry_contents(
    name: &str,
    exec: &str,
    app_id: &str,
    icon: bool,
    wm_class: Option<&str>,
) -> (r: String)
    ensures
        r@ == entry_contents_of(
            name@,
            exec@,
            app_id@,
            icon,
            match wm_class {
                Some(c) => Some(c@),
                None => None,
            },
        ),
{
    let mut entry: Vec<char> = Vec::new();
    push_str(&mut entry, "[Desktop Entry]\nType=Application\nVersion=1.5\n");
    push_str(&mut entry, "Name=");
    push_str(&mut entry, name);
    push_str(&mut entry, "\n");
    push_str(&mut entry, "Exec=");
    push_str(&mut entry, exec);
    push_str(&mut entry, "\n");
    let ghost before_icon = entry@;
    if icon {
        push_str(&mut entry, "Icon=");
        push_str(&mut entry, app_id);
        push_str(&mut entry, "\n");
    }
    let ghost after_icon = entry@;
    push_str(&mut entry, "Terminal=false\nCategories=Game;\n");
    let ghost before_class = entry@;
    if let Some(class) = wm_class {
        push_str(&mut entry, "StartupWMClass=");
        push_str(&mut entry, class);
        push_str(&mut entry, "\n");
    }
    push_str(&mut entry, "StartupNotify=true\n");
    assert(entry@ =~= entry_contents_of(
        name@,
        exec@,
        app_id@,
        icon,
        match wm_class {
            Some(c) => Some(c@),
            None => None,
        },
    ));
    from_chars(&entry)
}

pub fn stamp_path(launcher_dir: &str) -> (r: String)
    ensures
        r@ == path_join(launcher_dir@, STAMP_FILE@),
{
    join(launcher_dir, STAMP_FILE)
}

// ── What was written last ───────────────────────────────────────────────────

/// The fingerprint of the last entry written, so that nothing is rewritten
/// at every start.
pub struct Stamp {
    pub app_id: String,
    pub name: String,
    /// The `Exec=` value.
    pub command: String,
    /// Size of the PNG written: enough to notice a logo changed on the panel.
    pub icon_bytes: usize,
}

pub open spec fn stamp_view(s: Stamp) -> (Seq<char>, Seq<char>, Seq<char>, usize) {
    (s.app_id@, s.name@, s.command@, s.icon_bytes)
}

/// The entry must be written unless the stamp on disk is this one.
pub fn needs_refresh(stored: Option<&Stamp>, fresh: &Stamp) -> (r: bool)
    ensures
        r == match stored {
            Some(s) => stamp_view(*s) != stamp_view(*fresh),
            None => true,
        },
{
    match stored {
        Some(s) => !(crate::text::eq_chars(&to_chars(s.app_id.as_str()), &to_chars(fresh.app_id.as_str()))
            && crate::text::eq_chars(&to_chars(s.name.as_str()), &to_chars(fresh.name.as_str()))
            && crate::text::eq_chars(&to_chars(s.command.as_str()), &to_chars(fresh.command.as_str()))
            && s.icon_bytes == fresh.icon_bytes),
        None => true,
    }
}

/// `<applications>/<app_id>.desktop`.
pub fn entry_path(applications: &str, app_id: &str) -> (r: String)
    ensures
        r@ == path_join(applications@, app_id@ + ".desktop"@),
{
    let mut name = to_chars(app_id);
    push_str(&mut name, ".desktop");
    let name = from_chars(&name);
    join(applications, name.as_str())
}

/// A name from the panel cannot inject another key: the entry's name is a
/// single line without control characters, at most 128 characters long.
pub proof fn law_entry_name_is_one_line(name: Seq<char>)
    ensures
        entry_name_of(name).len() <= MAX_NAME_CHARS,
        forall|i: int|
            0 <= i < entry_name_of(name).len() ==> !spec_is_control(
                #[trigger] entry_name_of(name)[i],
            ),
{
    let c = without_controls(name);
    crate::text::lemma_without_controls_clean(name);
    let p = |ch: char| !spec_is_control(ch);
    assert forall|i: int| 0 <= i < c.len() implies p(#[trigger] c[i]) by {}
    crate::text::lemma_trim_keeps(c, p);
    let t = trim(c);
    assert forall|i: int| 0 <= i < entry_name_of(name).len() implies !spec_is_control(
        #[trigger] entry_name_of(name)[i],
    ) by {
        assert(entry_name_of(name)[i] == t[i]);
        assert(p(t[i]));
    }
}

} // verus!
