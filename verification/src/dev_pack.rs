//! Le pack client de développement, téléchargé depuis le panel.
//!
//! En debug il n'y a pas d'installation : le moteur peut aller chercher le
//! pack lui-même, d'après `--tenant-id=<users.id> [--api-url=<origin>]` ou les
//! variables `LUUXCRAFT_TENANT_ID` et `LUUXCRAFT_PANEL_URL`. Ce module lit
//! cette demande ; le téléchargement est fait par l'application.

use vstd::prelude::*;

use crate::json::{field, get, parsed_json, Json};
use crate::text::{
    dec_chars, dec_seq, push_all, ends_with, eq_chars, from_chars, is_ascii_alphanumeric, is_ascii_hexdigit, lemma_split_nonempty,
    lower_seq, opt_view, push_str, slice, spec_ends_with, spec_is_ascii_alphanumeric,
    spec_is_ascii_hexdigit, spec_starts_with, split, split_once, split_seq, starts_with,
    string_views, to_ascii_lowercase, to_chars, trim, trim_chars, trim_end_char, trim_end_matches,
    views,
};

verus! {

pub const TENANT_FLAG: &'static str = "--tenant-id";

pub const API_URL_FLAG: &'static str = "--api-url";

pub const TENANT_ENV: &'static str = "LUUXCRAFT_TENANT_ID";

pub const PANEL_ENV: &'static str = "LUUXCRAFT_PANEL_URL";

/// Le panel de production, quand `--api-url` n'est pas donné.
pub const DEFAULT_PANEL: &'static str = "https://luuxcraft.fr";

/// Ce qu'il faut écrire dans le message d'erreur d'un pack absent.
pub const USAGE: &'static str = "--tenant-id=<users.id> [--api-url=<origin>] (see `npm start`)";

/// Un tenant à aller chercher, et sur quel panel.
pub struct Request {
    pub tenant_id: String,
    /// Origine du panel, sans slash final ni `/api`.
    pub panel: String,
}

/// `8-4-4-4-12` hexadécimal : la forme d'un `users.id`.
pub open spec fn uuid_shape(v: Seq<char>) -> bool {
    let groups = split_seq(v, seq!['-']);
    groups.len() == 5 && groups[0].len() == 8 && groups[1].len() == 4 && groups[2].len() == 4
        && groups[3].len() == 4 && groups[4].len() == 12 && forall|g: int, i: int|
        0 <= g < 5 && 0 <= i < groups[g].len() ==> spec_is_ascii_hexdigit(#[trigger] groups[g][i])
}

/// `xxx-xxx-xxx` : le code d'appairage `users.client_id`.
pub open spec fn pairing_code_shape(v: Seq<char>) -> bool {
    let groups = split_seq(v, seq!['-']);
    groups.len() == 3 && forall|g: int|
        0 <= g < 3 ==> (#[trigger] groups[g]).len() == 3 && forall|i: int|
            0 <= i < 3 ==> spec_is_ascii_alphanumeric(#[trigger] groups[g][i])
}

fn all_hex(s: &[char]) -> (r: bool)
    ensures
        r == forall|i: int| 0 <= i < s@.len() ==> spec_is_ascii_hexdigit(#[trigger] s@[i]),
{
    let mut i: usize = 0;
    while i < s.len()
        invariant
            i <= s@.len(),
            forall|j: int| 0 <= j < i ==> spec_is_ascii_hexdigit(#[trigger] s@[j]),
        decreases s@.len() - i,
    {
        if !is_ascii_hexdigit(s[i]) {
            return false;
        }
        i += 1;
    }
    true
}

fn all_alnum(s: &[char]) -> (r: bool)
    ensures
        r == forall|i: int| 0 <= i < s@.len() ==> spec_is_ascii_alphanumeric(#[trigger] s@[i]),
{
    let mut i: usize = 0;
    while i < s.len()
        invariant
            i <= s@.len(),
            forall|j: int| 0 <= j < i ==> spec_is_ascii_alphanumeric(#[trigger] s@[j]),
        decreases s@.len() - i,
    {
        if !is_ascii_alphanumeric(s[i]) {
            return false;
        }
        i += 1;
    }
    true
}

pub fn is_uuid(value: &str) -> (r: bool)
    ensures
        r == uuid_shape(value@),
{
    let dash = vec!['-'];
    assert(dash@ =~= seq!['-']);
    let groups = split(&to_chars(value), &dash);
    if groups.len() != 5 {
        return false;
    }
    let lens: [usize; 5] = [8, 4, 4, 4, 12];
    let mut g: usize = 0;
    while g < 5
        invariant
            g <= 5,
            groups@.len() == 5,
            views(groups@) == split_seq(value@, seq!['-']),
            lens@ == seq![8usize, 4, 4, 4, 12],
            forall|k: int| 0 <= k < g ==> (#[trigger] groups@[k])@.len() == lens@[k],
            forall|k: int, i: int|
                0 <= k < g && 0 <= i < groups@[k]@.len() ==> spec_is_ascii_hexdigit(
                    #[trigger] groups@[k]@[i],
                ),
        decreases 5 - g,
    {
        if groups[g].len() != lens[g] || !all_hex(&groups[g]) {
            assert(views(groups@)[g as int] == groups@[g as int]@);
            return false;
        }
        g += 1;
    }
    proof {
        let sp = split_seq(value@, seq!['-']);
        assert forall|k: int| 0 <= k < 5 implies sp[k] == groups@[k]@ by {
            assert(views(groups@)[k] == groups@[k]@);
        }
    }
    true
}

pub fn is_pairing_code(value: &str) -> (r: bool)
    ensures
        r == pairing_code_shape(value@),
{
    let dash = vec!['-'];
    assert(dash@ =~= seq!['-']);
    let groups = split(&to_chars(value), &dash);
    if groups.len() != 3 {
        return false;
    }
    let mut g: usize = 0;
    while g < 3
        invariant
            g <= 3,
            groups@.len() == 3,
            views(groups@) == split_seq(value@, seq!['-']),
            forall|k: int|
                0 <= k < g ==> (#[trigger] groups@[k])@.len() == 3 && forall|i: int|
                    0 <= i < 3 ==> spec_is_ascii_alphanumeric(#[trigger] groups@[k]@[i]),
        decreases 3 - g,
    {
        assert(views(groups@)[g as int] == groups@[g as int]@);
        if groups[g].len() != 3 || !all_alnum(&groups[g]) {
            return false;
        }
        g += 1;
    }
    proof {
        let sp = split_seq(value@, seq!['-']);
        assert forall|k: int| 0 <= k < 3 implies sp[k] == groups@[k]@ by {
            assert(views(groups@)[k] == groups@[k]@);
        }
    }
    true
}

/// `_` read as `-`: flag names are compared with both spellings merged.
pub open spec fn dashed(s: Seq<char>) -> Seq<char> {
    s.map_values(
        |c: char|
            if c == '_' {
                '-'
            } else {
                c
            },
    )
}

/// What an argument says of `flag`: `None` when it is another argument,
/// `Some(Some(v))` for `flag=v`, `Some(None)` for a bare `flag`.
pub open spec fn flag_of(arg: Seq<char>, flag: Seq<char>) -> Option<Option<Seq<char>>> {
    if arg.contains('=') {
        let i = choose|i: int| crate::text::first_index_of(arg, '=', i);
        if dashed(arg.take(i)) == flag {
            Some(Some(arg.skip(i + 1)))
        } else {
            None
        }
    } else if dashed(arg) == flag {
        Some(None)
    } else {
        None
    }
}

/// The flags found from argument `i` on: `None` when a flag lacks its value.
pub open spec fn scan_flags(
    args: Seq<Seq<char>>,
    i: int,
    tenant: Option<Seq<char>>,
    panel: Option<Seq<char>>,
) -> Option<(Option<Seq<char>>, Option<Seq<char>>)>
    decreases args.len() - i,
{
    if i < 0 || i >= args.len() {
        Some((tenant, panel))
    } else {
        match flag_of(args[i], TENANT_FLAG@) {
            Some(Some(v)) => scan_flags(args, i + 1, Some(v), panel),
            Some(None) => if i + 1 < args.len() {
                scan_flags(args, i + 2, Some(args[i + 1]), panel)
            } else {
                None
            },
            None => match flag_of(args[i], API_URL_FLAG@) {
                Some(Some(v)) => scan_flags(args, i + 1, tenant, Some(v)),
                Some(None) => if i + 1 < args.len() {
                    scan_flags(args, i + 2, tenant, Some(args[i + 1]))
                } else {
                    None
                },
                None => scan_flags(args, i + 1, tenant, panel),
            },
        }
    }
}

/// The message of a flag given last without its value, from argument `i` on.
pub open spec fn missing_value(args: Seq<Seq<char>>, i: int) -> Seq<char>
    decreases args.len() - i,
{
    if i < 0 || i >= args.len() {
        Seq::empty()
    } else {
        match flag_of(args[i], TENANT_FLAG@) {
            Some(Some(_)) => missing_value(args, i + 1),
            Some(None) => if i + 1 < args.len() {
                missing_value(args, i + 2)
            } else {
                "--tenant-id expects a value"@
            },
            None => match flag_of(args[i], API_URL_FLAG@) {
                Some(Some(_)) => missing_value(args, i + 1),
                Some(None) => if i + 1 < args.len() {
                    missing_value(args, i + 2)
                } else {
                    "--api-url expects a value"@
                },
                None => missing_value(args, i + 1),
            },
        }
    }
}

/// What `str`'s `Debug` writes for `s`: the text in double quotes, with
/// quotes, backslashes and characters that are not printable escaped.
pub uninterp spec fn debug_quoted_of(s: Seq<char>) -> Seq<char>;

/// `<str as Debug>::fmt`, through `format!("{s:?}")`.
#[verifier::external_body]
fn debug_quoted(s: &str) -> (r: String)
    ensures
        r@ == debug_quoted_of(s@),
{
    format!("{s:?}")
}

/// The hint added when the tenant given is a pairing code.
pub open spec fn pairing_hint() -> Seq<char> {
    " (this is the pairing code; use the tenant's users.id, the UUID shown in the install command of the dashboard)"@
}

/// What a refused request is answered: the flag that lacks its value, the
/// tenant that is not a UUID (named, with a hint when it is a pairing code),
/// or the panel that is not an origin.
pub open spec fn request_refusal(
    args: Seq<Seq<char>>,
    env_tenant: Option<Seq<char>>,
    env_panel: Option<Seq<char>>,
) -> Seq<char> {
    match scan_flags(args, 0, None, None) {
        None => missing_value(args, 0),
        Some((tenant, panel)) => {
            let t = match tenant {
                Some(t) => t,
                None => env_tenant.unwrap(),
            };
            let tenant_id = lower_seq(trim(t));
            if !uuid_shape(tenant_id) {
                "--tenant-id must be a users.id UUID, got "@ + debug_quoted_of(tenant_id) + if pairing_code_shape(
                    tenant_id,
                ) {
                    pairing_hint()
                } else {
                    Seq::empty()
                }
            } else {
                "--api-url must be an http(s) origin: "@ + debug_quoted_of(
                    panel_origin(
                        match panel {
                            Some(p) => p,
                            None => match env_panel {
                                Some(p) => p,
                                None => DEFAULT_PANEL@,
                            },
                        },
                    ),
                )
            }
        },
    }
}

/// `scheme` followed by at least one character.
pub open spec fn has_host(url: Seq<char>, scheme: Seq<char>) -> bool {
    spec_starts_with(url, scheme) && url.len() > scheme.len()
}

/// L'origine du panel d'après ce que l'utilisateur a donné : sans blanc, sans
/// slash final, et sans `/api` final.
pub open spec fn panel_origin(given: Seq<char>) -> Seq<char> {
    let p = trim_end_char(trim(given), '/');
    if spec_ends_with(p, "/api"@) {
        p.take(p.len() - 4)
    } else {
        p
    }
}

/// Outcome of reading the request: `Err(())` for a refused request.
pub open spec fn request_of(
    args: Seq<Seq<char>>,
    env_tenant: Option<Seq<char>>,
    env_panel: Option<Seq<char>>,
) -> Result<Option<(Seq<char>, Seq<char>)>, ()> {
    match scan_flags(args, 0, None, None) {
        None => Err(()),
        Some((tenant, panel)) => {
            let tenant = match tenant {
                Some(t) => Some(t),
                None => env_tenant,
            };
            let panel = match panel {
                Some(p) => Some(p),
                None => env_panel,
            };
            match tenant {
                None => Ok(None),
                Some(t) => {
                    let tenant_id = lower_seq(trim(t));
                    let origin = panel_origin(
                        match panel {
                            Some(p) => p,
                            None => DEFAULT_PANEL@,
                        },
                    );
                    if !uuid_shape(tenant_id) {
                        Err(())
                    } else if !has_host(origin, "https://"@) && !has_host(origin, "http://"@) {
                        Err(())
                    } else {
                        Ok(Some((tenant_id, origin)))
                    }
                },
            }
        },
    }
}

/// The lowered, trimmed tenant the request would carry, if any.
pub open spec fn requested_tenant(
    args: Seq<Seq<char>>,
    env_tenant: Option<Seq<char>>,
) -> Option<Seq<char>> {
    match scan_flags(args, 0, None, None) {
        Some((Some(t), _)) => Some(lower_seq(trim(t))),
        Some((None, _)) => match env_tenant {
            Some(t) => Some(lower_seq(trim(t))),
            None => None,
        },
        None => None,
    }
}

fn dash_name(s: &[char]) -> (r: Vec<char>)
    ensures
        r@ == dashed(s@),
{
    let mut r: Vec<char> = Vec::new();
    let mut i: usize = 0;
    while i < s.len()
        invariant
            i <= s@.len(),
            r@ == dashed(s@.take(i as int)),
        decreases s@.len() - i,
    {
        r.push(
            if s[i] == '_' {
                '-'
            } else {
                s[i]
            },
        );
        i += 1;
        assert(r@ =~= dashed(s@.take(i as int)));
    }
    assert(s@.take(i as int) =~= s@);
    r
}

/// `--flag=valeur` ou `--flag` : ce que l'argument dit de `flag`.
fn flag_value(arg: &[char], flag: &[char]) -> (r: Option<Option<Vec<char>>>)
    ensures
        match r {
            None => flag_of(arg@, flag@) is None,
            Some(None) => flag_of(arg@, flag@) == Some(None::<Seq<char>>),
            Some(Some(v)) => flag_of(arg@, flag@) == Some(Some(v@)),
        },
{
    match split_once(arg, '=') {
        Some((name, value)) => {
            proof {
                let i = choose|i: int|
                    crate::text::first_index_of(arg@, '=', i) && name@ == arg@.take(i)
                        && value@ == arg@.skip(i + 1);
                let k = choose|k: int| crate::text::first_index_of(arg@, '=', k);
                if i < k {
                    assert(arg@[i] == '=');
                } else if k < i {
                    assert(arg@[k] == '=');
                }
                assert(i == k);
                assert(arg@.contains('=')) by {
                    assert(arg@[i] == '=');
                }
            }
            if eq_chars(&dash_name(&name), flag) {
                Some(Some(value))
            } else {
                None
            }
        },
        None => {
            if eq_chars(&dash_name(arg), flag) {
                Some(None)
            } else {
                None
            }
        },
    }
}

impl Request {
    /// La demande portée par les arguments, ou à défaut par l'environnement.
    /// Un argument mal formé est une erreur, pas une absence.
    pub fn parse(args: &[String], env_tenant: Option<String>, env_panel: Option<String>) -> (r:
        Result<Option<Self>, String>)
        ensures
            r is Err <==> request_of(string_views(args@), opt_view(env_tenant), opt_view(env_panel))
                is Err,
            r matches Ok(None) ==> request_of(
                string_views(args@),
                opt_view(env_tenant),
                opt_view(env_panel),
            ) == Ok::<Option<(Seq<char>, Seq<char>)>, ()>(None),
            r matches Ok(Some(q)) ==> request_of(
                string_views(args@),
                opt_view(env_tenant),
                opt_view(env_panel),
            ) == Ok::<Option<(Seq<char>, Seq<char>)>, ()>(Some((q.tenant_id@, q.panel@))),
            r matches Err(m) ==> m@ == request_refusal(
                string_views(args@),
                opt_view(env_tenant),
                opt_view(env_panel),
            ),
            r matches Err(m) ==> (requested_tenant(string_views(args@), opt_view(env_tenant))
                matches Some(t) && pairing_code_shape(t)) ==> crate::text::spec_contains(
                m@,
                "pairing code"@,
            ),
    {
        let ghost sargs = string_views(args@);
        let tflag = to_chars(TENANT_FLAG);
        let aflag = to_chars(API_URL_FLAG);
        let mut tenant: Option<Vec<char>> = None;
        let mut panel: Option<Vec<char>> = None;
        let mut i: usize = 0;
        while i < args.len()
            invariant
                i <= args@.len(),
                sargs == string_views(args@),
                tflag@ == TENANT_FLAG@,
                aflag@ == API_URL_FLAG@,
                missing_value(sargs, 0) == missing_value(sargs, i as int),
                scan_flags(sargs, 0, None, None) == scan_flags(
                    sargs,
                    i as int,
                    match tenant {
                        Some(t) => Some(t@),
                        None => None,
                    },
                    match panel {
                        Some(p) => Some(p@),
                        None => None,
                    },
                ),
            decreases args@.len() - i,
        {
            let arg = to_chars(args[i].as_str());
            assert(sargs[i as int] == arg@);
            match flag_value(&arg, &tflag) {
                Some(Some(v)) => {
                    tenant = Some(v);
                    i += 1;
                },
                Some(None) => {
                    if i + 1 < args.len() {
                        assert(sargs[i + 1] == args@[i + 1]@);
                        tenant = Some(to_chars(args[i + 1].as_str()));
                        i += 2;
                    } else {
                        return Err("--tenant-id expects a value".to_owned());
                    }
                },
                None => match flag_value(&arg, &aflag) {
                    Some(Some(v)) => {
                        panel = Some(v);
                        i += 1;
                    },
                    Some(None) => {
                        if i + 1 < args.len() {
                            assert(sargs[i + 1] == args@[i + 1]@);
                            panel = Some(to_chars(args[i + 1].as_str()));
                            i += 2;
                        } else {
                            return Err("--api-url expects a value".to_owned());
                        }
                    },
                    None => {
                        i += 1;
                    },
                },
            }
        }
        let tenant = match tenant {
            Some(t) => Some(t),
            None => match env_tenant {
                Some(t) => Some(to_chars(t.as_str())),
                None => None,
            },
        };
        let panel = match panel {
            Some(p) => Some(p),
            None => match env_panel {
                Some(p) => Some(to_chars(p.as_str())),
                None => None,
            },
        };
        let t = match tenant {
            None => return Ok(None),
            Some(t) => t,
        };
        let tenant_id = to_ascii_lowercase(&trim_chars(&t));
        let tenant_text = from_chars(&tenant_id);
        if !is_uuid(tenant_text.as_str()) {
            let mut message = to_chars("--tenant-id must be a users.id UUID, got ");
            let quoted = debug_quoted(tenant_text.as_str());
            push_str(&mut message, quoted.as_str());
            if is_pairing_code(tenant_text.as_str()) {
                let ghost before = message@;
                push_str(
                    &mut message,
                    " (this is the pairing code; use the tenant's users.id, the UUID shown in the install command of the dashboard)",
                );
                proof {
                    let hint = " (this is the pairing code; use the tenant's users.id, the UUID shown in the install command of the dashboard)"@;
                    reveal_strlit(
                        " (this is the pairing code; use the tenant's users.id, the UUID shown in the install command of the dashboard)",
                    );
                    reveal_strlit("pairing code");
                    let at: int = before.len() as int + 14;
                    assert(message@ == before + hint);
                    assert(message@.subrange(at, at + 12) =~= "pairing code"@);
                    assert(crate::text::occurs_at(message@, "pairing code"@, at));
                }
            }
            return Err(from_chars(&message));
        }
        let given = match panel {
            Some(p) => p,
            None => to_chars(DEFAULT_PANEL),
        };
        let p = trim_end_matches(&trim_chars(&given), '/');
        let api = to_chars("/api");
        let origin = if ends_with(&p, &api) {
            assert(api@.len() == 4) by {
                reveal_strlit("/api");
            }
            let o = slice(&p, 0, p.len() - 4);
            assert(o@ =~= p@.take(p@.len() - 4));
            o
        } else {
            p
        };
        let https = to_chars("https://");
        let http = to_chars("http://");
        if !(starts_with(&origin, &https) && origin.len() > https.len()) && !(starts_with(
            &origin,
            &http,
        ) && origin.len() > http.len()) {
            let mut message = to_chars("--api-url must be an http(s) origin: ");
            let quoted = debug_quoted(from_chars(&origin).as_str());
            push_str(&mut message, quoted.as_str());
            return Err(from_chars(&message));
        }
        Ok(Some(Request { tenant_id: tenant_text, panel: from_chars(&origin) }))
    }

    /// `{panel}/api/v1/launchers/{tenant}/pack/{file}`.
    pub fn file_url(&self, file: &str) -> (r: String)
        ensures
            r@ == self.panel@ + "/api/v1/launchers/"@ + self.tenant_id@ + "/pack/"@ + file@,
    {
        let mut v = to_chars(self.panel.as_str());
        push_str(&mut v, "/api/v1/launchers/");
        push_str(&mut v, self.tenant_id.as_str());
        push_str(&mut v, "/pack/");
        push_str(&mut v, file);
        from_chars(&v)
    }
}


// ── Laws ────────────────────────────────────────────────────────────────────

/// The flags win over the environment: when the arguments name both the
/// tenant and the panel, the environment changes nothing; when they name
/// neither and the environment is silent, nothing is requested.
pub proof fn law_flags_win_over_the_environment(
    args: Seq<Seq<char>>,
    env_tenant: Option<Seq<char>>,
    env_panel: Option<Seq<char>>,
)
    ensures
        scan_flags(args, 0, None, None) matches Some((Some(_), Some(_))) ==> request_of(
            args,
            env_tenant,
            env_panel,
        ) == request_of(args, None, None),
        scan_flags(args, 0, None, None) == Some::<(Option<Seq<char>>, Option<Seq<char>>)>(
            (None, None),
        ) ==> request_of(args, None, None) == Ok::<Option<(Seq<char>, Seq<char>)>, ()>(None),
{
}

// ── What the panel answers for a pack file ─────────────────────────────────

/// A pack file is at most this big.
pub const MAX_FILE_BYTES: usize = 8388608;

/// The `message` of a panel error: the string member `message` of a JSON
/// object body.
pub open spec fn panel_message(body: Seq<u8>) -> Option<Seq<char>> {
    match parsed_json(body) {
        Some(Json::Object(fields)) => match field(fields@, "message"@) {
            Some(Json::String(m)) => Some(m@),
            _ => None,
        },
        _ => None,
    }
}

/// What a download of a pack file gives, by the answer's status and body:
/// the file; `None` when the panel says (a JSON 404) that it does not have
/// it; or why it is refused.
pub open spec fn fetch_outcome(url: Seq<char>, status: u16, body: Seq<u8>) -> Result<
    Option<Seq<u8>>,
    Seq<char>,
> {
    if !(200 <= status <= 299) {
        match panel_message(body) {
            Some(m) => if status == 404 {
                Ok(None)
            } else {
                Err(url + " answered "@ + dec_seq(status as nat) + ": "@ + m)
            },
            None => Err(
                url + " answered "@ + dec_seq(status as nat)
                    + " without a panel error: does this panel serve launcher packs?"@,
            ),
        }
    } else if body.len() > MAX_FILE_BYTES {
        Err(url + " is "@ + dec_seq(body.len()) + " bytes, which is not a pack file"@)
    } else {
        Ok(Some(body))
    }
}

fn message_of(body: &[u8]) -> (r: Option<String>)
    ensures
        opt_view(r) == panel_message(body@),
{
    match Json::parse(body) {
        Some(Json::Object(fields)) => match get(&fields, &to_chars("message")) {
            Some(Json::String(m)) => Some(m.clone()),
            _ => None,
        },
        _ => None,
    }
}

/// Reads the panel's answer for a pack file at `url`.
pub fn fetched(url: &str, status: u16, body: &[u8]) -> (r: Result<Option<Vec<u8>>, String>)
    ensures
        match fetch_outcome(url@, status, body@) {
            Ok(None) => r matches Ok(None),
            Ok(Some(b)) => r matches Ok(Some(v)) && v@ == b,
            Err(m) => r matches Err(e) && e@ == m,
        },
{
    if !(200 <= status && status <= 299) {
        let message = message_of(body);
        let mut m = to_chars(url);
        push_str(&mut m, " answered ");
        let digits = dec_chars(status as u64);
        push_all(&mut m, &digits);
        return match message {
            Some(text) => if status == 404 {
                Ok(None)
            } else {
                push_str(&mut m, ": ");
                push_str(&mut m, text.as_str());
                Err(from_chars(&m))
            },
            None => {
                push_str(&mut m, " without a panel error: does this panel serve launcher packs?");
                Err(from_chars(&m))
            },
        };
    }
    if body.len() > MAX_FILE_BYTES {
        let mut m = to_chars(url);
        push_str(&mut m, " is ");
        let digits = dec_chars(body.len() as u64);
        push_all(&mut m, &digits);
        push_str(&mut m, " bytes, which is not a pack file");
        return Err(from_chars(&m));
    }
    let mut v: Vec<u8> = Vec::new();
    let mut i: usize = 0;
    while i < body.len()
        invariant
            i <= body@.len(),
            v@ == body@.take(i as int),
        decreases body@.len() - i,
    {
        v.push(body[i]);
        i += 1;
        assert(v@ =~= body@.take(i as int));
    }
    assert(body@.take(i as int) =~= body@);
    Ok(Some(v))
}

} // verus!
