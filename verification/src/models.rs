//! Models of the LuuxCraft panel API (`/api/user/{user_id}/...`).
//!
//! The panel evolves: fields get added, renamed or removed. Every model is
//! therefore built from a JSON document with tolerant accessors, keeps the
//! unknown members in `extra`, and never makes the launcher fail because a
//! member it does not need is missing.

use vstd::prelude::*;

use crate::json::{field, find_member, get, pick, pick_member, spec_pick, str_views, Json};
use crate::text::{
    chars_greater, chars_gt, dec_chars, dec_seq, ends_with, eq_chars, from_chars,
    lemma_split_nonempty, lower_seq, opt_view, parse_i64, parse_u64, push_all, push_str, slice,
    spec_ends_with, spec_is_whitespace, spec_parse_i64, spec_parse_u64, spec_starts_with, split,
    split_seq, starts_with, string_views, to_ascii_lowercase, to_ascii_uppercase, to_chars,
    to_lowercase, trim, trim_chars, unicode_lower, upper_seq, views,
};
use crate::text::{
    all_digits, digits_value, lead_ws, lemma_lead_ws, lemma_lead_ws_bound, lemma_trail_ws,
    lemma_trail_ws_bound, spec_ascii_upper, spec_is_ascii_digit, trail_ws,
};

verus! {

// ── Tolerant accessors ──────────────────────────────────────────────────────

pub open spec fn web_url(url: Seq<char>) -> bool {
    spec_starts_with(url, "https://"@) || spec_starts_with(url, "http://"@)
}

pub fn is_web_url(url: &str) -> (r: bool)
    ensures
        r == web_url(url@),
{
    let u = to_chars(url);
    starts_with(&u, &to_chars("https://")) || starts_with(&u, &to_chars("http://"))
}

/// A member read as text: a non-blank string (trimmed), a number or a boolean.
pub open spec fn text_of(v: Option<Json>) -> Option<Seq<char>> {
    match v {
        Some(Json::String(t)) => if trim(t@).len() > 0 {
            Some(trim(t@))
        } else {
            None
        },
        Some(Json::Number(n)) => Some(n.text@),
        Some(Json::Bool(b)) => Some(
            if b {
                "true"@
            } else {
                "false"@
            },
        ),
        _ => None,
    }
}

pub open spec fn spec_pick_string(fields: Seq<(String, Json)>, keys: Seq<Seq<char>>) -> Option<
    Seq<char>,
> {
    text_of(spec_pick(fields, keys))
}

/// A member read as a flag: a boolean, a number (non-zero), or a word.
pub open spec fn flag_of(v: Option<Json>) -> Option<bool> {
    match v {
        Some(Json::Bool(b)) => Some(b),
        Some(Json::Number(n)) => match n.int {
            Some(i) => Some(i != 0),
            None => None,
        },
        Some(Json::String(t)) => {
            let w = lower_seq(trim(t@));
            if w == "true"@ || w == "1"@ || w == "yes"@ || w == "on"@ {
                Some(true)
            } else if w == "false"@ || w == "0"@ || w == "no"@ || w == "off"@ {
                Some(false)
            } else {
                None
            }
        },
        _ => None,
    }
}

pub open spec fn spec_pick_bool(fields: Seq<(String, Json)>, keys: Seq<Seq<char>>) -> Option<bool> {
    flag_of(spec_pick(fields, keys))
}

/// A member read as an integer: a number, or the integer a string spells.
pub open spec fn int_of(v: Option<Json>) -> Option<i64> {
    match v {
        Some(Json::Number(n)) => n.int,
        Some(Json::String(t)) => spec_parse_i64(trim(t@)),
        _ => None,
    }
}

pub open spec fn spec_pick_i64(fields: Seq<(String, Json)>, keys: Seq<Seq<char>>) -> Option<i64> {
    int_of(spec_pick(fields, keys))
}

pub open spec fn spec_pick_u64(fields: Seq<(String, Json)>, keys: Seq<Seq<char>>) -> Option<u64> {
    match spec_pick_i64(fields, keys) {
        Some(i) => if i >= 0 {
            Some(i as u64)
        } else {
            None
        },
        None => None,
    }
}

/// Every character `char::is_whitespace` accepts.
pub open spec fn whitespace_chars() -> Seq<char> {
    seq![
        '\u{9}', '\u{a}', '\u{b}', '\u{c}', '\u{d}', '\u{20}', '\u{85}', '\u{a0}', '\u{1680}',
        '\u{2000}', '\u{2001}', '\u{2002}', '\u{2003}', '\u{2004}', '\u{2005}', '\u{2006}',
        '\u{2007}', '\u{2008}', '\u{2009}', '\u{200a}', '\u{2028}', '\u{2029}', '\u{202f}',
        '\u{205f}', '\u{3000}',
    ]
}

/// The pieces that are not empty, in order.
pub open spec fn non_empty(v: Seq<Seq<char>>) -> Seq<Seq<char>>
    decreases v.len(),
{
    if v.len() == 0 {
        v
    } else {
        let prev = non_empty(v.drop_last());
        if v.last().len() == 0 {
            prev
        } else {
            prev.push(v.last())
        }
    }
}

/// `str::split_whitespace`.
pub open spec fn words(s: Seq<char>) -> Seq<Seq<char>> {
    non_empty(split_seq(s, whitespace_chars()))
}

/// The non-blank strings of an array, trimmed.
pub open spec fn string_items(items: Seq<Json>) -> Seq<Seq<char>>
    decreases items.len(),
{
    if items.len() == 0 {
        Seq::empty()
    } else {
        let prev = string_items(items.drop_last());
        match items.last() {
            Json::String(t) => if trim(t@).len() > 0 {
                prev.push(trim(t@))
            } else {
                prev
            },
            _ => prev,
        }
    }
}

/// A member read as a list of words: an array of strings, or a string of
/// whitespace-separated words.
pub open spec fn list_of(v: Option<Json>) -> Seq<Seq<char>> {
    match v {
        Some(Json::Array(items)) => string_items(items@),
        Some(Json::String(t)) => words(t@),
        _ => Seq::empty(),
    }
}

pub open spec fn spec_pick_string_list(fields: Seq<(String, Json)>, keys: Seq<Seq<char>>) -> Seq<
    Seq<char>,
> {
    list_of(spec_pick(fields, keys))
}

pub open spec fn object_of(v: Option<Json>) -> Option<Seq<(String, Json)>> {
    match v {
        Some(Json::Object(f)) => Some(f@),
        _ => None,
    }
}

/// The members whose name is not in `known`, in order.
pub open spec fn spec_remaining(fields: Seq<(String, Json)>, known: Seq<Seq<char>>) -> Seq<
    (String, Json),
>
    decreases fields.len(),
{
    if fields.len() == 0 {
        fields
    } else {
        let prev = spec_remaining(fields.drop_last(), known);
        if known.contains(fields.last().0@) {
            prev
        } else {
            prev.push(fields.last())
        }
    }
}

fn text_value(v: Option<&Json>) -> (r: Option<String>)
    ensures
        opt_view(r) == text_of(
            match v {
                Some(j) => Some(*j),
                None => None,
            },
        ),
{
    match v {
        Some(Json::String(t)) => {
            let tr = trim_chars(&to_chars(t.as_str()));
            if tr.len() > 0 {
                Some(from_chars(&tr))
            } else {
                None
            }
        },
        Some(Json::Number(n)) => Some(n.text.clone()),
        Some(Json::Bool(b)) => Some(
            if *b {
                "true".to_owned()
            } else {
                "false".to_owned()
            },
        ),
        _ => None,
    }
}

pub fn pick_string(fields: &Vec<(String, Json)>, keys: &[&str]) -> (r: Option<String>)
    ensures
        opt_view(r) == spec_pick_string(fields@, str_views(keys@)),
{
    text_value(pick(fields, keys))
}

fn is_one_of(w: &[char], options: &[&str]) -> (r: bool)
    ensures
        r == exists|i: int| 0 <= i < options@.len() && w@ == options@[i]@,
{
    let mut i: usize = 0;
    while i < options.len()
        invariant
            i <= options@.len(),
            forall|j: int| 0 <= j < i ==> w@ != options@[j]@,
        decreases options@.len() - i,
    {
        if eq_chars(w, &to_chars(options[i])) {
            return true;
        }
        i += 1;
    }
    false
}

pub fn pick_bool(fields: &Vec<(String, Json)>, keys: &[&str]) -> (r: Option<bool>)
    ensures
        r == spec_pick_bool(fields@, str_views(keys@)),
{
    match pick(fields, keys) {
        Some(Json::Bool(b)) => Some(*b),
        Some(Json::Number(n)) => match n.int {
            Some(i) => Some(i != 0),
            None => None,
        },
        Some(Json::String(t)) => {
            let w = to_ascii_lowercase(&trim_chars(&to_chars(t.as_str())));
            let yes = ["true", "1", "yes", "on"];
            let no = ["false", "0", "no", "off"];
            proof {
                assert(yes@ =~= seq!["true", "1", "yes", "on"]);
                assert(no@ =~= seq!["false", "0", "no", "off"]);
            }
            if is_one_of(&w, &yes) {
                proof {
                    let i = choose|i: int| 0 <= i < 4 && w@ == yes@[i]@;
                }
                Some(true)
            } else if is_one_of(&w, &no) {
                proof {
                    assert(!(w@ == "true"@ || w@ == "1"@ || w@ == "yes"@ || w@ == "on"@)) by {
                        assert(w@ != yes@[0]@ && w@ != yes@[1]@ && w@ != yes@[2]@ && w@
                            != yes@[3]@);
                    }
                }
                Some(false)
            } else {
                proof {
                    assert(w@ != yes@[0]@ && w@ != yes@[1]@ && w@ != yes@[2]@ && w@ != yes@[3]@);
                    assert(w@ != no@[0]@ && w@ != no@[1]@ && w@ != no@[2]@ && w@ != no@[3]@);
                }
                None
            }
        },
        _ => None,
    }
}

pub fn pick_i64(fields: &Vec<(String, Json)>, keys: &[&str]) -> (r: Option<i64>)
    ensures
        r == spec_pick_i64(fields@, str_views(keys@)),
{
    match pick(fields, keys) {
        Some(Json::Number(n)) => n.int,
        Some(Json::String(t)) => parse_i64(&trim_chars(&to_chars(t.as_str()))),
        _ => None,
    }
}

pub fn pick_u64(fields: &Vec<(String, Json)>, keys: &[&str]) -> (r: Option<u64>)
    ensures
        r == spec_pick_u64(fields@, str_views(keys@)),
{
    match pick_i64(fields, keys) {
        Some(i) => if i >= 0 {
            Some(i as u64)
        } else {
            None
        },
        None => None,
    }
}

fn non_empty_pieces(v: &Vec<Vec<char>>) -> (r: Vec<String>)
    ensures
        string_views(r@) == non_empty(views(v@)),
{
    let mut r: Vec<String> = Vec::new();
    let mut i: usize = 0;
    while i < v.len()
        invariant
            i <= v@.len(),
            string_views(r@) == non_empty(views(v@).take(i as int)),
        decreases v@.len() - i,
    {
        assert(views(v@).take(i + 1).drop_last() =~= views(v@).take(i as int));
        assert(views(v@).take(i + 1).last() == v@[i as int]@);
        if v[i].len() > 0 {
            let ghost before = string_views(r@);
            r.push(from_chars(&v[i]));
            assert(string_views(r@) =~= before.push(v@[i as int]@));
        }
        i += 1;
    }
    assert(views(v@).take(i as int) =~= views(v@));
    r
}

fn string_list(v: Option<&Json>) -> (r: Vec<String>)
    ensures
        string_views(r@) == list_of(
            match v {
                Some(j) => Some(*j),
                None => None,
            },
        ),
{
    match v {
        Some(Json::Array(items)) => {
            let mut r: Vec<String> = Vec::new();
            let mut i: usize = 0;
            while i < items.len()
                invariant
                    i <= items@.len(),
                    string_views(r@) == string_items(items@.take(i as int)),
                decreases items@.len() - i,
            {
                assert(items@.take(i + 1).drop_last() =~= items@.take(i as int));
                match &items[i] {
                    Json::String(t) => {
                        let tr = trim_chars(&to_chars(t.as_str()));
                        if tr.len() > 0 {
                            let ghost before = string_views(r@);
                            r.push(from_chars(&tr));
                            assert(string_views(r@) =~= before.push(tr@));
                        }
                    },
                    _ => {},
                }
                i += 1;
            }
            assert(items@.take(i as int) =~= items@);
            r
        },
        Some(Json::String(t)) => {
            let ws = vec![
                '\u{9}',
                '\u{a}',
                '\u{b}',
                '\u{c}',
                '\u{d}',
                '\u{20}',
                '\u{85}',
                '\u{a0}',
                '\u{1680}',
                '\u{2000}',
                '\u{2001}',
                '\u{2002}',
                '\u{2003}',
                '\u{2004}',
                '\u{2005}',
                '\u{2006}',
                '\u{2007}',
                '\u{2008}',
                '\u{2009}',
                '\u{200a}',
                '\u{2028}',
                '\u{2029}',
                '\u{202f}',
                '\u{205f}',
                '\u{3000}',
            ];
            assert(ws@ =~= whitespace_chars());
            let pieces = split(&to_chars(t.as_str()), &ws);
            non_empty_pieces(&pieces)
        },
        _ => Vec::new(),
    }
}

pub fn pick_string_list(fields: &Vec<(String, Json)>, keys: &[&str]) -> (r: Vec<String>)
    ensures
        string_views(r@) == spec_pick_string_list(fields@, str_views(keys@)),
{
    string_list(pick(fields, keys))
}

pub fn pick_object<'a>(fields: &'a Vec<(String, Json)>, keys: &[&str]) -> (r: Option<
    &'a Vec<(String, Json)>,
>)
    ensures
        match r {
            Some(f) => object_of(spec_pick(fields@, str_views(keys@))) == Some(f@),
            None => object_of(spec_pick(fields@, str_views(keys@))) is None,
        },
{
    match pick(fields, keys) {
        Some(Json::Object(f)) => Some(f),
        _ => None,
    }
}

/// Keeps the members whose name is not in `known`, in order.
pub fn remaining(fields: Vec<(String, Json)>, known: &[&str]) -> (r: Vec<(String, Json)>)
    ensures
        r@ == spec_remaining(fields@, str_views(known@)),
{
    let ghost all = fields@;
    let mut rest = fields;
    let mut r: Vec<(String, Json)> = Vec::new();
    let n = rest.len();
    let mut i: usize = 0;
    while i < n
        invariant
            i <= n == all.len(),
            rest@ == all.skip(i as int),
            r@ == spec_remaining(all.take(i as int), str_views(known@)),
        decreases n - i,
    {
        assert(all.take(i + 1).drop_last() =~= all.take(i as int));
        assert(all.skip(i + 1) =~= all.skip(i as int).remove(0));
        let entry = rest.remove(0);
        let name = to_chars(entry.0.as_str());
        let mut found = false;
        let mut k: usize = 0;
        while k < known.len()
            invariant
                k <= known@.len(),
                name@ == entry.0@,
                found == exists|j: int| 0 <= j < k && str_views(known@)[j] == name@,
            decreases known@.len() - k,
        {
            assert(str_views(known@)[k as int] == known@[k as int]@);
            if eq_chars(&to_chars(known[k]), &name) {
                found = true;
            }
            k += 1;
        }
        proof {
            if found {
                let j = choose|j: int| 0 <= j < k && str_views(known@)[j] == name@;
                assert(str_views(known@).contains(name@));
            } else {
                if str_views(known@).contains(name@) {
                    let j = str_views(known@).index_of(name@);
                    assert(str_views(known@)[j] == name@);
                }
            }
        }
        if !found {
            r.push(entry);
        }
        i += 1;
    }
    assert(all.take(i as int) =~= all);
    r
}

/// Memory announced in MiB (`4096`), GiB (`4`) or strings (`4G`, `4096M`).
/// A value whose MiB count does not fit in 64 bits is unreadable.
pub open spec fn memory_mb_of(v: Json) -> Option<u64> {
    match v {
        Json::Number(n) => match n.uint {
            Some(x) => if x <= 64 {
                Some((x * 1024) as u64)
            } else {
                Some(x)
            },
            None => None,
        },
        Json::String(t) => {
            let u = upper_seq(trim(t@));
            if spec_ends_with(u, "G"@) {
                match spec_parse_u64(trim(u.drop_last())) {
                    Some(x) => if x * 1024 <= u64::MAX {
                        Some((x * 1024) as u64)
                    } else {
                        None
                    },
                    None => None,
                }
            } else if spec_ends_with(u, "M"@) {
                spec_parse_u64(trim(u.drop_last()))
            } else {
                match spec_parse_u64(u) {
                    Some(x) => if x <= 64 {
                        Some((x * 1024) as u64)
                    } else {
                        Some(x)
                    },
                    None => None,
                }
            }
        },
        _ => None,
    }
}

pub fn parse_memory_mb(value: &Json) -> (r: Option<u64>)
    ensures
        r == memory_mb_of(*value),
{
    match value {
        Json::Number(n) => match n.uint {
            Some(x) => Some(
                if x <= 64 {
                    x * 1024
                } else {
                    x
                },
            ),
            None => None,
        },
        Json::String(t) => {
            let u = to_ascii_uppercase(&trim_chars(&to_chars(t.as_str())));
            let g = to_chars("G");
            let m = to_chars("M");
            assert(g@ =~= seq!['G'] && m@ =~= seq!['M']) by {
                reveal_strlit("G");
                reveal_strlit("M");
            }
            if ends_with(&u, &g) {
                let body = slice(&u, 0, u.len() - 1);
                assert(body@ =~= u@.drop_last());
                match parse_u64(&trim_chars(&body)) {
                    Some(x) => x.checked_mul(1024),
                    None => None,
                }
            } else if ends_with(&u, &m) {
                let body = slice(&u, 0, u.len() - 1);
                assert(body@ =~= u@.drop_last());
                parse_u64(&trim_chars(&body))
            } else {
                match parse_u64(&u) {
                    Some(x) => Some(
                        if x <= 64 {
                            x * 1024
                        } else {
                            x
                        },
                    ),
                    None => None,
                }
            }
        },
        _ => None,
    }
}


// ── Stable sorting ──────────────────────────────────────────────────────────

/// `x` inserted into `s` after every element that does not come after it.
pub open spec fn insert_gt<A>(s: Seq<A>, x: A, gt: spec_fn(A, A) -> bool) -> Seq<A>
    decreases s.len(),
{
    if s.len() == 0 {
        seq![x]
    } else if !gt(s.last(), x) {
        s.push(x)
    } else {
        insert_gt(s.drop_last(), x, gt).push(s.last())
    }
}

/// The stable sort of `s` by `gt` (what `sort_by_key` and `sort_by` give).
pub open spec fn sort_gt<A>(s: Seq<A>, gt: spec_fn(A, A) -> bool) -> Seq<A>
    decreases s.len(),
{
    if s.len() == 0 {
        s
    } else {
        insert_gt(sort_gt(s.drop_last(), gt), s.last(), gt)
    }
}

pub proof fn lemma_insert_gt<A>(s: Seq<A>, x: A, gt: spec_fn(A, A) -> bool, p: int)
    requires
        0 <= p <= s.len(),
        p == 0 || !gt(s[p - 1], x),
        forall|j: int| p <= j < s.len() ==> gt(#[trigger] s[j], x),
    ensures
        insert_gt(s, x, gt) == s.take(p) + seq![x] + s.skip(p),
    decreases s.len(),
{
    if s.len() == 0 {
        assert(s.take(p) + seq![x] + s.skip(p) =~= seq![x]);
    } else if p == s.len() {
        assert(s.take(p) + seq![x] + s.skip(p) =~= s.push(x));
    } else {
        let t = s.drop_last();
        assert(gt(s[s.len() - 1], x));
        assert forall|j: int| p <= j < t.len() implies gt(#[trigger] t[j], x) by {
            assert(t[j] == s[j]);
        }
        if p > 0 {
            assert(t[p - 1] == s[p - 1]);
        }
        lemma_insert_gt(t, x, gt, p);
        assert((t.take(p) + seq![x] + t.skip(p)).push(s.last()) =~= s.take(p) + seq![x] + s.skip(
            p,
        ));
    }
}

// ── Models ──────────────────────────────────────────────────────────────────

/// Launcher identity: `prefix` + `suffix` in the title bar, the suffix being
/// the part painted in the brand gradient.
pub struct RemoteBrand {
    pub name: Option<String>,
    pub prefix: Option<String>,
    pub suffix: Option<String>,
    pub subtitle: Option<String>,
    pub website: Option<String>,
    /// Logo du client, dont le launcher fait l'icône de sa fenêtre.
    pub icon_url: Option<String>,
}

/// How players sign in, decided by the panel's `online` member: `true` →
/// Microsoft, `false` → offline, a URL → Azuriom (AZauth).
pub enum AuthMode {
    Microsoft,
    Offline,
    AzAuth { url: String },
}

pub struct Link {
    pub label: String,
    pub url: String,
    pub icon: Option<String>,
    pub order: Option<i64>,
}

/// `GET /config`.
pub struct RemoteConfig {
    pub maintenance: bool,
    pub maintenance_message: Option<String>,
    pub data_directory: Option<String>,
    pub auth: AuthMode,
    /// Microsoft Azure application id announced by the panel (optional).
    pub client_id: Option<String>,
    pub links: Vec<Link>,
    /// Module toggles published by the panel (`modules`, `features`).
    pub modules: Vec<(String, Json)>,
    pub brand: Option<RemoteBrand>,
    /// Updater endpoints published by the panel (https only).
    pub updater_endpoints: Vec<String>,
    /// Yggdrasil-compatible server enabling that extra sign-in method.
    pub yggdrasil: Option<String>,
    /// Every member the launcher does not model.
    pub extra: Vec<(String, Json)>,
}

pub struct LinkModel {
    pub label: Seq<char>,
    pub url: Seq<char>,
    pub icon: Option<Seq<char>>,
    pub order: Option<i64>,
}

pub open spec fn link_view(l: Link) -> LinkModel {
    LinkModel { label: l.label@, url: l.url@, icon: opt_view(l.icon), order: l.order }
}

pub open spec fn link_views(v: Seq<Link>) -> Seq<LinkModel> {
    v.map_values(|l: Link| link_view(l))
}

pub open spec fn order_key(order: Option<i64>) -> i64 {
    match order {
        Some(o) => o,
        None => i64::MAX,
    }
}

pub open spec fn link_gt() -> spec_fn(LinkModel, LinkModel) -> bool {
    |a: LinkModel, b: LinkModel| order_key(a.order) > order_key(b.order)
}

pub open spec fn keys(k: Seq<&str>) -> Seq<Seq<char>> {
    str_views(k)
}

/// A link read from a URL string or from an object.
pub open spec fn link_of(v: Json) -> Option<LinkModel> {
    match v {
        Json::String(u) => {
            let url = trim(u@);
            if web_url(url) {
                Some(LinkModel { label: url, url, icon: None, order: None })
            } else {
                None
            }
        },
        Json::Object(f) => match spec_pick_string(f@, keys(seq!["url", "link", "href"])) {
            Some(url) => if web_url(url) {
                let icon = spec_pick_string(
                    f@,
                    keys(seq!["icon", "type", "platform", "network", "kind"]),
                );
                let label = match spec_pick_string(f@, keys(seq!["label", "name", "title"])) {
                    Some(l) => l,
                    None => match icon {
                        Some(i) => i,
                        None => url,
                    },
                };
                Some(
                    LinkModel {
                        label,
                        url,
                        icon,
                        order: spec_pick_i64(f@, keys(seq!["order", "position", "sort"])),
                    },
                )
            } else {
                None
            },
            None => None,
        },
        _ => None,
    }
}

/// The links of a list of items, in order, unreadable items skipped.
pub open spec fn links_of_items(items: Seq<Json>) -> Seq<LinkModel>
    decreases items.len(),
{
    if items.len() == 0 {
        Seq::empty()
    } else {
        let prev = links_of_items(items.drop_last());
        match link_of(items.last()) {
            Some(l) => prev.push(l),
            None => prev,
        }
    }
}

pub open spec fn values_of(fields: Seq<(String, Json)>) -> Seq<Json> {
    fields.map_values(|p: (String, Json)| p.1)
}

/// An array of links, or an object whose values are links.
pub open spec fn link_items(v: Json) -> Seq<Json> {
    match v {
        Json::Array(items) => items@,
        Json::Object(f) => values_of(f@),
        _ => Seq::empty(),
    }
}

/// The links a value describes, sorted by `order` (unordered ones last).
pub open spec fn links_of(v: Json) -> Seq<LinkModel> {
    sort_gt(links_of_items(link_items(v)), link_gt())
}

fn link_from(v: &Json) -> (r: Option<Link>)
    ensures
        match r {
            Some(l) => link_of(*v) == Some(link_view(l)),
            None => link_of(*v) is None,
        },
{
    match v {
        Json::String(u) => {
            let url = from_chars(&trim_chars(&to_chars(u.as_str())));
            if !is_web_url(url.as_str()) {
                return None;
            }
            Some(Link { label: url.clone(), url, icon: None, order: None })
        },
        Json::Object(f) => {
            let url_keys = ["url", "link", "href"];
            let icon_keys = ["icon", "type", "platform", "network", "kind"];
            let label_keys = ["label", "name", "title"];
            let order_keys = ["order", "position", "sort"];
            assert(url_keys@ =~= seq!["url", "link", "href"]);
            assert(icon_keys@ =~= seq!["icon", "type", "platform", "network", "kind"]);
            assert(label_keys@ =~= seq!["label", "name", "title"]);
            assert(order_keys@ =~= seq!["order", "position", "sort"]);
            let url = match pick_string(f, &url_keys) {
                Some(u) => u,
                None => return None,
            };
            if !is_web_url(url.as_str()) {
                return None;
            }
            let icon = pick_string(f, &icon_keys);
            let label = match pick_string(f, &label_keys) {
                Some(l) => l,
                None => match &icon {
                    Some(i) => i.clone(),
                    None => url.clone(),
                },
            };
            let order = pick_i64(f, &order_keys);
            Some(Link { label, url, icon, order })
        },
        _ => None,
    }
}

fn order_of(link: &Link) -> (k: i64)
    ensures
        k == order_key(link.order),
{
    match link.order {
        Some(o) => o,
        None => i64::MAX,
    }
}

/// The `i`-th of the items a link list is read from.
fn link_item_at(value: &Json, i: usize) -> (r: &Json)
    requires
        i < link_items(*value).len(),
    ensures
        *r == link_items(*value)[i as int],
{
    match value {
        Json::Array(a) => &a[i],
        Json::Object(f) => &f[i].1,
        _ => value,
    }
}

fn sort_links(links: Vec<Link>) -> (r: Vec<Link>)
    ensures
        link_views(r@) == sort_gt(link_views(links@), link_gt()),
{
    let ghost all = link_views(links@);
    let mut rest = links;
    let mut out: Vec<Link> = Vec::new();
    let n = rest.len();
    let mut i: usize = 0;
    while i < n
        invariant
            i <= n == all.len(),
            link_views(rest@) == all.skip(i as int),
            link_views(out@) == sort_gt(all.take(i as int), link_gt()),
        decreases n - i,
    {
        assert(all.take(i + 1).drop_last() =~= all.take(i as int));
        assert(link_views(rest@)[0] == all[i as int]);
        let ghost rest_before = rest@;
        assert(link_views(rest_before).len() == rest_before.len());
        let x = rest.remove(0);
        assert(link_views(rest@) =~= all.skip(i + 1)) by {
            assert(rest@ =~= rest_before.remove(0));
            assert forall|j: int| 0 <= j < rest@.len() implies #[trigger] link_views(rest@)[j]
                == all.skip(i + 1)[j] by {
                assert(rest@[j] == rest_before[j + 1]);
                assert(link_views(rest_before)[j + 1] == all.skip(i as int)[j + 1]);
            }
        }
        let key = match x.order {
            Some(o) => o,
            None => i64::MAX,
        };
        let mut pos = out.len();
        while pos > 0 && order_of(&out[pos - 1]) > key
            invariant
                pos <= out@.len(),
                key == order_key(x.order),
                forall|j: int| pos <= j < out@.len() ==> order_key(#[trigger] out@[j].order) > key,
            decreases pos,
        {
            pos -= 1;
        }
        proof {
            let s = link_views(out@);
            assert forall|j: int| pos <= j < s.len() implies (link_gt())(#[trigger] s[j], link_view(x)) by {
                assert(s[j] == link_view(out@[j]));
            }
            if pos > 0 {
                assert(s[pos - 1] == link_view(out@[pos - 1]));
            }
            lemma_insert_gt(s, link_view(x), link_gt(), pos as int);
        }
        let ghost before = link_views(out@);
        out.insert(pos, x);
        assert(link_views(out@) =~= before.take(pos as int) + seq![link_view(x)] + before.skip(
            pos as int,
        ));
        i += 1;
    }
    assert(all.take(i as int) =~= all);
    out
}

impl Link {
    /// Accepts an array of objects, an array of URLs or an object map.
    pub fn list_from_value(value: &Json) -> (r: Vec<Link>)
        ensures
            link_views(r@) == links_of(*value),
    {
        let mut found: Vec<Link> = Vec::new();
        let ghost items = link_items(*value);
        let n = match value {
            Json::Array(items) => items.len(),
            Json::Object(f) => f.len(),
            _ => 0,
        };
        assert(n == items.len());
        let mut i: usize = 0;
        while i < n
            invariant
                i <= n == items.len(),
                items == link_items(*value),
                link_views(found@) == links_of_items(items.take(i as int)),
            decreases n - i,
        {
            assert(items.take(i + 1).drop_last() =~= items.take(i as int));
            let item = link_item_at(value, i);
            match link_from(item) {
                Some(l) => {
                    let ghost before = link_views(found@);
                    found.push(l);
                    assert(link_views(found@) =~= before.push(link_view(l)));
                },
                None => {},
            }
            i += 1;
        }
        assert(items.take(i as int) =~= items);
        sort_links(found)
    }
}

// ── Launcher configuration ──────────────────────────────────────────────────

pub struct BrandModel {
    pub name: Option<Seq<char>>,
    pub prefix: Option<Seq<char>>,
    pub suffix: Option<Seq<char>>,
    pub subtitle: Option<Seq<char>>,
    pub website: Option<Seq<char>>,
    pub icon_url: Option<Seq<char>>,
}

pub open spec fn brand_view(b: RemoteBrand) -> BrandModel {
    BrandModel {
        name: opt_view(b.name),
        prefix: opt_view(b.prefix),
        suffix: opt_view(b.suffix),
        subtitle: opt_view(b.subtitle),
        website: opt_view(b.website),
        icon_url: opt_view(b.icon_url),
    }
}

/// Keeps a URL only when it is `http(s)`.
pub open spec fn web_only(u: Option<Seq<char>>) -> Option<Seq<char>> {
    match u {
        Some(x) => if web_url(x) {
            Some(x)
        } else {
            None
        },
        None => None,
    }
}

/// The brand block: `{"name", "wordmark": {"prefix", "suffix"}}` or flat;
/// absent when nothing in it is readable.
pub open spec fn brand_of(f: Seq<(String, Json)>) -> Option<BrandModel> {
    match object_of(spec_pick(f, keys(seq!["brand"]))) {
        None => None,
        Some(b) => {
            let w = match object_of(spec_pick(b, keys(seq!["wordmark"]))) {
                Some(w) => w,
                None => b,
            };
            let m = BrandModel {
                name: spec_pick_string(b, keys(seq!["name", "title"])),
                prefix: spec_pick_string(w, keys(seq!["prefix"])),
                suffix: spec_pick_string(w, keys(seq!["suffix"])),
                subtitle: spec_pick_string(b, keys(seq!["subtitle", "tagline"])),
                website: spec_pick_string(b, keys(seq!["website", "url", "site"])),
                icon_url: web_only(
                    spec_pick_string(b, keys(seq!["iconUrl", "icon_url", "icon", "logo"])),
                ),
            };
            if m.name is None && m.prefix is None && m.suffix is None && m.subtitle is None
                && m.website is None && m.icon_url is None {
                None
            } else {
                Some(m)
            }
        },
    }
}

fn keep_web(u: Option<String>) -> (r: Option<String>)
    ensures
        opt_view(r) == web_only(opt_view(u)),
{
    match u {
        Some(x) => if is_web_url(x.as_str()) {
            Some(x)
        } else {
            None
        },
        None => None,
    }
}

impl RemoteBrand {
    /// Accepts `{"name": …, "wordmark": {"prefix": …, "suffix": …}}` as well as
    /// a flat `{"name": …, "prefix": …, "suffix": …}`.
    pub fn from_object(object: &Vec<(String, Json)>) -> (r: Option<RemoteBrand>)
        ensures
            match r {
                Some(b) => brand_of(object@) == Some(brand_view(b)),
                None => brand_of(object@) is None,
            },
    {
        let k_brand = ["brand"];
        let k_wordmark = ["wordmark"];
        let k_name = ["name", "title"];
        let k_prefix = ["prefix"];
        let k_suffix = ["suffix"];
        let k_subtitle = ["subtitle", "tagline"];
        let k_website = ["website", "url", "site"];
        let k_icon = ["iconUrl", "icon_url", "icon", "logo"];
        assert(k_brand@ =~= seq!["brand"]);
        assert(k_wordmark@ =~= seq!["wordmark"]);
        assert(k_name@ =~= seq!["name", "title"]);
        assert(k_prefix@ =~= seq!["prefix"]);
        assert(k_suffix@ =~= seq!["suffix"]);
        assert(k_subtitle@ =~= seq!["subtitle", "tagline"]);
        assert(k_website@ =~= seq!["website", "url", "site"]);
        assert(k_icon@ =~= seq!["iconUrl", "icon_url", "icon", "logo"]);
        let brand = match pick_object(object, &k_brand) {
            Some(b) => b,
            None => return None,
        };
        let wordmark = match pick_object(brand, &k_wordmark) {
            Some(w) => w,
            None => brand,
        };
        let parsed = RemoteBrand {
            name: pick_string(brand, &k_name),
            prefix: pick_string(wordmark, &k_prefix),
            suffix: pick_string(wordmark, &k_suffix),
            subtitle: pick_string(brand, &k_subtitle),
            website: pick_string(brand, &k_website),
            icon_url: keep_web(pick_string(brand, &k_icon)),
        };
        if parsed.name.is_none() && parsed.prefix.is_none() && parsed.suffix.is_none()
            && parsed.subtitle.is_none() && parsed.website.is_none() && parsed.icon_url.is_none() {
            None
        } else {
            Some(parsed)
        }
    }
}

/// The URLs that start with `https://`, in order.
pub open spec fn https_only(s: Seq<Seq<char>>) -> Seq<Seq<char>>
    decreases s.len(),
{
    if s.len() == 0 {
        s
    } else {
        let prev = https_only(s.drop_last());
        if spec_starts_with(s.last(), "https://"@) {
            prev.push(s.last())
        } else {
            prev
        }
    }
}

/// `"updater": {"endpoints": [...]}`, `"updater": "https://…"` or a flat
/// `"updaterEndpoints": [...]`; only https URLs are kept.
pub open spec fn updater_endpoints_of(f: Seq<(String, Json)>) -> Seq<Seq<char>> {
    let first = match spec_pick(f, keys(seq!["updater"])) {
        Some(Json::Object(u)) => spec_pick_string_list(
            u@,
            keys(seq!["endpoints", "urls", "endpoint", "url"]),
        ),
        Some(Json::String(url)) => seq![trim(url@)],
        Some(Json::Array(_)) => spec_pick_string_list(f, keys(seq!["updater"])),
        _ => Seq::empty(),
    };
    https_only(
        if first.len() == 0 {
            spec_pick_string_list(f, keys(seq!["updaterEndpoints", "updater_endpoints"]))
        } else {
            first
        },
    )
}

fn retain_https(v: Vec<String>) -> (r: Vec<String>)
    ensures
        string_views(r@) == https_only(string_views(v@)),
{
    let https = to_chars("https://");
    let mut r: Vec<String> = Vec::new();
    let mut i: usize = 0;
    while i < v.len()
        invariant
            i <= v@.len(),
            https@ == "https://"@,
            string_views(r@) == https_only(string_views(v@).take(i as int)),
        decreases v@.len() - i,
    {
        assert(string_views(v@).take(i + 1).drop_last() =~= string_views(v@).take(i as int));
        assert(string_views(v@)[i as int] == v@[i as int]@);
        if starts_with(&to_chars(v[i].as_str()), &https) {
            let ghost before = string_views(r@);
            r.push(v[i].clone());
            assert(string_views(r@) =~= before.push(v@[i as int]@));
        }
        i += 1;
    }
    assert(string_views(v@).take(i as int) =~= string_views(v@));
    r
}

fn updater_endpoints(object: &Vec<(String, Json)>) -> (r: Vec<String>)
    ensures
        string_views(r@) == updater_endpoints_of(object@),
{
    let k_updater = ["updater"];
    let k_inner = ["endpoints", "urls", "endpoint", "url"];
    let k_flat = ["updaterEndpoints", "updater_endpoints"];
    assert(k_updater@ =~= seq!["updater"]);
    assert(k_inner@ =~= seq!["endpoints", "urls", "endpoint", "url"]);
    assert(k_flat@ =~= seq!["updaterEndpoints", "updater_endpoints"]);
    let mut found = match pick(object, &k_updater) {
        Some(Json::Object(updater)) => pick_string_list(updater, &k_inner),
        Some(Json::String(url)) => {
            let mut v: Vec<String> = Vec::new();
            v.push(from_chars(&trim_chars(&to_chars(url.as_str()))));
            assert(string_views(v@) =~= seq![trim(url@)]);
            v
        },
        Some(Json::Array(_)) => pick_string_list(object, &k_updater),
        _ => Vec::new(),
    };
    assert(found@.len() == string_views(found@).len());
    if found.len() == 0 {
        found = pick_string_list(object, &k_flat);
    }
    retain_https(found)
}

pub enum AuthModel {
    Microsoft,
    Offline,
    AzAuth { url: Seq<char> },
}

pub open spec fn auth_view(a: AuthMode) -> AuthModel {
    match a {
        AuthMode::Microsoft => AuthModel::Microsoft,
        AuthMode::Offline => AuthModel::Offline,
        AuthMode::AzAuth { url } => AuthModel::AzAuth { url: url@ },
    }
}

/// The panel's `online` member: `true` or absent → Microsoft, `false` →
/// offline, a URL → AZauth, an offline word → offline.
pub open spec fn auth_of(online: Option<Json>) -> AuthModel {
    match online {
        Some(Json::Bool(b)) => if b {
            AuthModel::Microsoft
        } else {
            AuthModel::Offline
        },
        Some(Json::String(u)) => {
            let t = trim(u@);
            if web_url(t) {
                AuthModel::AzAuth { url: t }
            } else {
                let w = lower_seq(t);
                if w == "false"@ || w == "0"@ || w == "offline"@ || w == "crack"@ {
                    AuthModel::Offline
                } else {
                    AuthModel::Microsoft
                }
            }
        },
        _ => AuthModel::Microsoft,
    }
}

fn auth_from(online: Option<&Json>) -> (r: AuthMode)
    ensures
        auth_view(r) == auth_of(
            match online {
                Some(j) => Some(*j),
                None => None,
            },
        ),
{
    match online {
        Some(Json::Bool(b)) => if *b {
            AuthMode::Microsoft
        } else {
            AuthMode::Offline
        },
        Some(Json::String(u)) => {
            let t = trim_chars(&to_chars(u.as_str()));
            let url = from_chars(&t);
            if is_web_url(url.as_str()) {
                AuthMode::AzAuth { url }
            } else {
                let w = to_ascii_lowercase(&t);
                let offline = ["false", "0", "offline", "crack"];
                assert(offline@ =~= seq!["false", "0", "offline", "crack"]);
                if is_one_of(&w, &offline) {
                    proof {
                        let i = choose|i: int| 0 <= i < 4 && w@ == offline@[i]@;
                    }
                    AuthMode::Offline
                } else {
                    assert(w@ != offline@[0]@ && w@ != offline@[1]@ && w@ != offline@[2]@ && w@
                        != offline@[3]@);
                    AuthMode::Microsoft
                }
            }
        },
        _ => AuthMode::Microsoft,
    }
}

/// Removing a member whose name is known leaves the unknown members as they were.
proof fn lemma_remaining_remove(s: Seq<(String, Json)>, known: Seq<Seq<char>>, j: int)
    requires
        0 <= j < s.len(),
        known.contains(s[j].0@),
    ensures
        spec_remaining(s.remove(j), known) == spec_remaining(s, known),
    decreases s.len(),
{
    if j == s.len() - 1 {
        assert(s.remove(j) =~= s.drop_last());
    } else {
        lemma_remaining_remove(s.drop_last(), known, j);
        assert(s.remove(j).drop_last() =~= s.drop_last().remove(j));
        assert(s.remove(j).last() == s.last());
    }
}

/// Moves out the member `pick` reads.
fn take_member(fields: &mut Vec<(String, Json)>, keys: &[&str]) -> (r: Option<Json>)
    ensures
        r == spec_pick(old(fields)@, str_views(keys@)),
        r is None ==> final(fields)@ == old(fields)@,
        r is Some ==> exists|j: int|
            0 <= j < old(fields)@.len() && str_views(keys@).contains(old(fields)@[j].0@)
                && final(fields)@ == old(fields)@.remove(j),
{
    match pick_member(fields, keys) {
        Some(j) => {
            let (_, v) = fields.remove(j);
            Some(v)
        },
        None => None,
    }
}

pub struct ConfigModel {
    pub maintenance: bool,
    pub maintenance_message: Option<Seq<char>>,
    pub data_directory: Option<Seq<char>>,
    pub auth: AuthModel,
    pub client_id: Option<Seq<char>>,
    pub links: Seq<LinkModel>,
    pub modules: Seq<(String, Json)>,
    pub brand: Option<BrandModel>,
    pub updater_endpoints: Seq<Seq<char>>,
    pub yggdrasil: Option<Seq<char>>,
    pub extra: Seq<(String, Json)>,
}

pub open spec fn config_view(c: RemoteConfig) -> ConfigModel {
    ConfigModel {
        maintenance: c.maintenance,
        maintenance_message: opt_view(c.maintenance_message),
        data_directory: opt_view(c.data_directory),
        auth: auth_view(c.auth),
        client_id: opt_view(c.client_id),
        links: link_views(c.links@),
        modules: c.modules@,
        brand: match c.brand {
            Some(b) => Some(brand_view(b)),
            None => None,
        },
        updater_endpoints: string_views(c.updater_endpoints@),
        yggdrasil: opt_view(c.yggdrasil),
        extra: c.extra@,
    }
}

/// The members `RemoteConfig` models.
pub open spec fn config_known() -> Seq<Seq<char>> {
    keys(
        seq![
            "maintenance",
            "maintenance_message",
            "maintenanceMessage",
            "dataDirectory",
            "data_directory",
            "online",
            "client_id",
            "clientId",
            "socialLinks",
            "social_links",
            "links",
            "modules",
            "features",
            "brand",
            "updater",
            "updaterEndpoints",
            "updater_endpoints",
            "yggdrasil",
            "yggdrasilServer",
            "yggdrasil_server",
        ],
    )
}

pub open spec fn config_of(value: Json) -> Option<ConfigModel> {
    match value {
        Json::Object(o) => {
            let f = o@;
            Some(
                ConfigModel {
                    maintenance: spec_pick_bool(f, keys(seq!["maintenance"])) == Some(true),
                    maintenance_message: spec_pick_string(
                        f,
                        keys(seq!["maintenance_message", "maintenanceMessage"]),
                    ),
                    data_directory: spec_pick_string(
                        f,
                        keys(seq!["dataDirectory", "data_directory"]),
                    ),
                    auth: auth_of(spec_pick(f, keys(seq!["online"]))),
                    client_id: spec_pick_string(f, keys(seq!["client_id", "clientId"])),
                    links: match spec_pick(f, keys(seq!["socialLinks", "social_links", "links"])) {
                        Some(v) => links_of(v),
                        None => Seq::empty(),
                    },
                    modules: match object_of(spec_pick(f, keys(seq!["modules", "features"]))) {
                        Some(m) => m,
                        None => Seq::empty(),
                    },
                    brand: brand_of(f),
                    updater_endpoints: updater_endpoints_of(f),
                    yggdrasil: web_only(
                        spec_pick_string(
                            f,
                            keys(seq!["yggdrasil", "yggdrasilServer", "yggdrasil_server"]),
                        ),
                    ),
                    extra: spec_remaining(f, config_known()),
                },
            )
        },
        _ => None,
    }
}

impl RemoteConfig {
    /// `GET /config`: anything but an object is refused.
    pub fn from_value(value: Json) -> (r: Result<RemoteConfig, String>)
        ensures
            match r {
                Ok(c) => config_of(value) == Some(config_view(c)),
                Err(e) => config_of(value) is None && e@ == "config is not a JSON object"@,
            },
    {
        let mut fields = match value {
            Json::Object(f) => f,
            _ => return Err("config is not a JSON object".to_owned()),
        };
        let ghost f = fields@;
        let k_online = ["online"];
        let k_links = ["socialLinks", "social_links", "links"];
        let k_modules = ["modules", "features"];
        let k_maintenance = ["maintenance"];
        let k_message = ["maintenance_message", "maintenanceMessage"];
        let k_data = ["dataDirectory", "data_directory"];
        let k_client = ["client_id", "clientId"];
        let k_ygg = ["yggdrasil", "yggdrasilServer", "yggdrasil_server"];
        let known = [
            "maintenance",
            "maintenance_message",
            "maintenanceMessage",
            "dataDirectory",
            "data_directory",
            "online",
            "client_id",
            "clientId",
            "socialLinks",
            "social_links",
            "links",
            "modules",
            "features",
            "brand",
            "updater",
            "updaterEndpoints",
            "updater_endpoints",
            "yggdrasil",
            "yggdrasilServer",
            "yggdrasil_server",
        ];
        assert(k_online@ =~= seq!["online"]);
        assert(k_links@ =~= seq!["socialLinks", "social_links", "links"]);
        assert(k_modules@ =~= seq!["modules", "features"]);
        assert(k_maintenance@ =~= seq!["maintenance"]);
        assert(k_message@ =~= seq!["maintenance_message", "maintenanceMessage"]);
        assert(k_data@ =~= seq!["dataDirectory", "data_directory"]);
        assert(k_client@ =~= seq!["client_id", "clientId"]);
        assert(k_ygg@ =~= seq!["yggdrasil", "yggdrasilServer", "yggdrasil_server"]);
        assert(known@ =~= seq![
            "maintenance",
            "maintenance_message",
            "maintenanceMessage",
            "dataDirectory",
            "data_directory",
            "online",
            "client_id",
            "clientId",
            "socialLinks",
            "social_links",
            "links",
            "modules",
            "features",
            "brand",
            "updater",
            "updaterEndpoints",
            "updater_endpoints",
            "yggdrasil",
            "yggdrasilServer",
            "yggdrasil_server",
        ]);
        let auth = auth_from(pick(&fields, &k_online));
        let links = match pick(&fields, &k_links) {
            Some(v) => Link::list_from_value(v),
            None => Vec::new(),
        };
        let maintenance = match pick_bool(&fields, &k_maintenance) {
            Some(b) => b,
            None => false,
        };
        let maintenance_message = pick_string(&fields, &k_message);
        let data_directory = pick_string(&fields, &k_data);
        let client_id = pick_string(&fields, &k_client);
        let brand = RemoteBrand::from_object(&fields);
        let updater_endpoints = updater_endpoints(&fields);
        let yggdrasil = keep_web(pick_string(&fields, &k_ygg));
        let modules = match take_member(&mut fields, &k_modules) {
            Some(Json::Object(m)) => m,
            _ => Vec::new(),
        };
        proof {
            if fields@ != f {
                let j = choose|j: int|
                    0 <= j < f.len() && str_views(k_modules@).contains(f[j].0@) && fields@
                        == f.remove(j);
                let name = f[j].0@;
                let i = choose|i: int| 0 <= i < str_views(k_modules@).len() && str_views(k_modules@)[i] == name;
                assert(config_known()[11] == str_views(k_modules@)[0]);
                assert(config_known()[12] == str_views(k_modules@)[1]);
                assert(config_known().contains(name)) by {
                    if i == 0 {
                        assert(config_known()[11] == name);
                    } else {
                        assert(config_known()[12] == name);
                    }
                }
                lemma_remaining_remove(f, config_known(), j);
            }
            assert(str_views(known@) =~= config_known());
        }
        let extra = remaining(fields, &known);
        let c = RemoteConfig {
            maintenance,
            maintenance_message,
            data_directory,
            auth,
            client_id,
            links,
            modules,
            brand,
            updater_endpoints,
            yggdrasil,
            extra,
        };
        proof {
            assert(link_views(c.links@) == match spec_pick(
                f,
                keys(seq!["socialLinks", "social_links", "links"]),
            ) {
                Some(v) => links_of(v),
                None => Seq::<LinkModel>::empty(),
            });
        }
        Ok(c)
    }
}

// ── Articles ────────────────────────────────────────────────────────────────

/// `GET /articles`.
pub struct Article {
    pub id: String,
    pub title: String,
    /// HTML produced by the panel editor; sanitized by the frontend.
    pub content: String,
    pub author: Option<String>,
    pub published_at: Option<String>,
    pub image: Option<String>,
    pub url: Option<String>,
    pub order: Option<i64>,
    pub extra: Vec<(String, Json)>,
}

pub struct ArticleModel {
    pub id: Seq<char>,
    pub title: Seq<char>,
    pub content: Seq<char>,
    pub author: Option<Seq<char>>,
    pub published_at: Option<Seq<char>>,
    pub image: Option<Seq<char>>,
    pub url: Option<Seq<char>>,
    pub order: Option<i64>,
    pub extra: Seq<(String, Json)>,
}

pub open spec fn article_view(a: Article) -> ArticleModel {
    ArticleModel {
        id: a.id@,
        title: a.title@,
        content: a.content@,
        author: opt_view(a.author),
        published_at: opt_view(a.published_at),
        image: opt_view(a.image),
        url: opt_view(a.url),
        order: a.order,
        extra: a.extra@,
    }
}

pub open spec fn article_views(v: Seq<Article>) -> Seq<ArticleModel> {
    v.map_values(|a: Article| article_view(a))
}

/// The members `Article` models.
pub open spec fn article_known() -> Seq<Seq<char>> {
    keys(
        seq![
            "id",
            "title",
            "content",
            "body",
            "author",
            "publish_date",
            "publishDate",
            "published_at",
            "publishedAt",
            "date",
            "created_at",
            "createdAt",
            "image",
            "thumbnail",
            "banner",
            "cover",
            "url",
            "link",
            "order",
            "position",
            "priority",
        ],
    )
}

pub open spec fn or_empty(s: Option<Seq<char>>) -> Seq<char> {
    match s {
        Some(x) => x,
        None => Seq::empty(),
    }
}

/// The `index`-th item of the list as an article; one without a title is skipped.
pub open spec fn article_of(v: Json, index: nat) -> Option<ArticleModel> {
    match v {
        Json::Object(o) => {
            let f = o@;
            match spec_pick_string(f, keys(seq!["title"])) {
                Some(title) => Some(
                    ArticleModel {
                        id: match spec_pick_string(f, keys(seq!["id"])) {
                            Some(i) => i,
                            None => "article-"@ + dec_seq(index),
                        },
                        title,
                        content: or_empty(spec_pick_string(f, keys(seq!["content", "body"]))),
                        author: spec_pick_string(f, keys(seq!["author"])),
                        published_at: spec_pick_string(
                            f,
                            keys(
                                seq![
                                    "publish_date",
                                    "publishDate",
                                    "published_at",
                                    "publishedAt",
                                    "date",
                                    "created_at",
                                    "createdAt",
                                ],
                            ),
                        ),
                        image: web_only(
                            spec_pick_string(
                                f,
                                keys(seq!["image", "thumbnail", "banner", "cover"]),
                            ),
                        ),
                        url: web_only(spec_pick_string(f, keys(seq!["url", "link"]))),
                        order: spec_pick_i64(f, keys(seq!["order", "position", "priority"])),
                        extra: spec_remaining(f, article_known()),
                    },
                ),
                None => None,
            }
        },
        _ => None,
    }
}

/// The articles of a list, in order, each numbered by its place in the list.
pub open spec fn articles_of_items(items: Seq<Json>) -> Seq<ArticleModel>
    decreases items.len(),
{
    if items.len() == 0 {
        Seq::empty()
    } else {
        let prev = articles_of_items(items.drop_last());
        match article_of(items.last(), (items.len() - 1) as nat) {
            Some(a) => prev.push(a),
            None => prev,
        }
    }
}

/// The list an articles answer holds: an array, or the `articles` (else
/// `data`) member of an object.
pub open spec fn article_list(v: Json) -> Option<Seq<Json>> {
    match v {
        Json::Array(items) => Some(items@),
        Json::Object(f) => match field(f@, "articles"@) {
            Some(Json::Array(items)) => Some(items@),
            Some(_) => None,
            None => match field(f@, "data"@) {
                Some(Json::Array(items)) => Some(items@),
                _ => None,
            },
        },
        _ => None,
    }
}

pub open spec fn article_gt() -> spec_fn(ArticleModel, ArticleModel) -> bool {
    |a: ArticleModel, b: ArticleModel| order_key(a.order) > order_key(b.order)
}

fn or_default(s: Option<String>) -> (r: String)
    ensures
        r@ == or_empty(opt_view(s)),
{
    match s {
        Some(x) => x,
        None => String::new(),
    }
}

impl Article {
    fn from_value(value: Json, index: usize) -> (r: Option<Article>)
        ensures
            match r {
                Some(a) => article_of(value, index as nat) == Some(article_view(a)),
                None => article_of(value, index as nat) is None,
            },
    {
        let fields = match value {
            Json::Object(f) => f,
            _ => return None,
        };
        let k_title = ["title"];
        let k_id = ["id"];
        let k_content = ["content", "body"];
        let k_author = ["author"];
        let k_date = [
            "publish_date",
            "publishDate",
            "published_at",
            "publishedAt",
            "date",
            "created_at",
            "createdAt",
        ];
        let k_image = ["image", "thumbnail", "banner", "cover"];
        let k_url = ["url", "link"];
        let k_order = ["order", "position", "priority"];
        let known = [
            "id",
            "title",
            "content",
            "body",
            "author",
            "publish_date",
            "publishDate",
            "published_at",
            "publishedAt",
            "date",
            "created_at",
            "createdAt",
            "image",
            "thumbnail",
            "banner",
            "cover",
            "url",
            "link",
            "order",
            "position",
            "priority",
        ];
        assert(k_title@ =~= seq!["title"]);
        assert(k_id@ =~= seq!["id"]);
        assert(k_content@ =~= seq!["content", "body"]);
        assert(k_author@ =~= seq!["author"]);
        assert(k_date@ =~= seq![
            "publish_date",
            "publishDate",
            "published_at",
            "publishedAt",
            "date",
            "created_at",
            "createdAt",
        ]);
        assert(k_image@ =~= seq!["image", "thumbnail", "banner", "cover"]);
        assert(k_url@ =~= seq!["url", "link"]);
        assert(k_order@ =~= seq!["order", "position", "priority"]);
        assert(str_views(known@) =~= article_known());
        let title = match pick_string(&fields, &k_title) {
            Some(t) => t,
            None => return None,
        };
        let id = match pick_string(&fields, &k_id) {
            Some(i) => i,
            None => {
                let mut v = to_chars("article-");
                push_all(&mut v, &dec_chars(index as u64));
                from_chars(&v)
            },
        };
        let content = or_default(pick_string(&fields, &k_content));
        let author = pick_string(&fields, &k_author);
        let published_at = pick_string(&fields, &k_date);
        let image = keep_web(pick_string(&fields, &k_image));
        let url = keep_web(pick_string(&fields, &k_url));
        let order = pick_i64(&fields, &k_order);
        let extra = remaining(fields, &known);
        Some(Article { id, title, content, author, published_at, image, url, order, extra })
    }

    /// `GET /articles`: an array, or an object holding one under `articles`
    /// or `data`; sorted by `order`, unordered ones last.
    pub fn list_from_value(value: Json) -> (r: Result<Vec<Article>, String>)
        ensures
            match r {
                Ok(v) => article_list(value) is Some && article_views(v@) == sort_gt(
                    articles_of_items(article_list(value).unwrap()),
                    article_gt(),
                ),
                Err(e) => article_list(value) is None && e@ == "articles response is not a list"@,
            },
    {
        let ghost list = article_list(value);
        let mut items = match value {
            Json::Array(items) => items,
            Json::Object(f) => {
                let mut f = f;
                let at = match find_member(&f, &to_chars("articles")) {
                    Some(j) => Some(j),
                    None => find_member(&f, &to_chars("data")),
                };
                match at {
                    Some(j) => {
                        let (_, v) = f.remove(j);
                        match v {
                            Json::Array(items) => items,
                            _ => return Err("articles response is not a list".to_owned()),
                        }
                    },
                    None => return Err("articles response is not a list".to_owned()),
                }
            },
            _ => return Err("articles response is not a list".to_owned()),
        };
        let ghost all = items@;
        assert(list == Some(all));
        let mut found: Vec<Article> = Vec::new();
        let n = items.len();
        let mut i: usize = 0;
        while i < n
            invariant
                i <= n == all.len(),
                items@ == all.skip(i as int),
                article_views(found@) == articles_of_items(all.take(i as int)),
            decreases n - i,
        {
            assert(all.take(i + 1).drop_last() =~= all.take(i as int));
            assert(all.skip(i + 1) =~= all.skip(i as int).remove(0));
            let item = items.remove(0);
            match Article::from_value(item, i) {
                Some(a) => {
                    let ghost before = article_views(found@);
                    found.push(a);
                    assert(article_views(found@) =~= before.push(article_view(a)));
                },
                None => {},
            }
            i += 1;
        }
        assert(all.take(i as int) =~= all);
        Ok(sort_articles(found))
    }
}

fn article_order(a: &Article) -> (k: i64)
    ensures
        k == order_key(a.order),
{
    match a.order {
        Some(o) => o,
        None => i64::MAX,
    }
}

fn sort_articles(items: Vec<Article>) -> (r: Vec<Article>)
    ensures
        article_views(r@) == sort_gt(article_views(items@), article_gt()),
{
    let ghost all = article_views(items@);
    let mut rest = items;
    let mut out: Vec<Article> = Vec::new();
    let n = rest.len();
    let mut i: usize = 0;
    while i < n
        invariant
            i <= n == all.len(),
            article_views(rest@) == all.skip(i as int),
            article_views(out@) == sort_gt(all.take(i as int), article_gt()),
        decreases n - i,
    {
        assert(all.take(i + 1).drop_last() =~= all.take(i as int));
        assert(article_views(rest@)[0] == all[i as int]);
        let ghost rest_before = rest@;
        assert(article_views(rest_before).len() == rest_before.len());
        let x = rest.remove(0);
        assert(article_views(rest@) =~= all.skip(i + 1)) by {
            assert(rest@ =~= rest_before.remove(0));
            assert forall|j: int| 0 <= j < rest@.len() implies #[trigger] article_views(rest@)[j]
                == all.skip(i + 1)[j] by {
                assert(rest@[j] == rest_before[j + 1]);
                assert(article_views(rest_before)[j + 1] == all.skip(i as int)[j + 1]);
            }
        }
        let key = article_order(&x);
        let mut pos = out.len();
        while pos > 0 && article_order(&out[pos - 1]) > key
            invariant
                pos <= out@.len(),
                key == order_key(x.order),
                forall|j: int| pos <= j < out@.len() ==> order_key(#[trigger] out@[j].order) > key,
            decreases pos,
        {
            pos -= 1;
        }
        proof {
            let s = article_views(out@);
            assert forall|j: int| pos <= j < s.len() implies (article_gt())(
                #[trigger] s[j],
                article_view(x),
            ) by {
                assert(s[j] == article_view(out@[j]));
            }
            if pos > 0 {
                assert(s[pos - 1] == article_view(out@[pos - 1]));
            }
            lemma_insert_gt(s, article_view(x), article_gt(), pos as int);
        }
        let ghost before = article_views(out@);
        out.insert(pos, x);
        assert(article_views(out@) =~= before.take(pos as int) + seq![article_view(x)]
            + before.skip(pos as int));
        i += 1;
    }
    assert(all.take(i as int) =~= all);
    out
}

// ── Instances ───────────────────────────────────────────────────────────────

pub struct InstanceLoader {
    /// `forge`, `neoforge`, `fabric`, `legacyfabric`, `quilt`, `mcp` or `none`.
    pub kind: String,
    /// `latest`, `recommended` or an exact build.
    pub version: String,
    pub mcp_file: Option<String>,
}

pub struct InstanceServer {
    pub name: Option<String>,
    pub host: String,
    pub port: Option<u16>,
}

pub struct InstanceMemory {
    pub min_mb: Option<u64>,
    pub max_mb: Option<u64>,
}

/// `GET /instances` entry.
pub struct Instance {
    pub id: String,
    pub name: String,
    pub description: Option<String>,
    pub image: Option<String>,
    /// URL of the custom files list (`path`, `hash`, `size`, `url`).
    pub files_url: Option<String>,
    pub minecraft_version: String,
    pub loader: InstanceLoader,
    pub verify: bool,
    pub ignored: Vec<String>,
    pub whitelist: Vec<String>,
    pub whitelist_active: bool,
    pub server: Option<InstanceServer>,
    /// Java major version required by the panel (overrides Mojang's manifest).
    pub java_version: Option<String>,
    pub jvm_args: Vec<String>,
    pub memory: Option<InstanceMemory>,
    pub order: Option<i64>,
    pub extra: Vec<(String, Json)>,
}

pub struct LoaderModel {
    pub kind: Seq<char>,
    pub version: Seq<char>,
    pub mcp_file: Option<Seq<char>>,
}

pub struct ServerModel {
    pub name: Option<Seq<char>>,
    pub host: Seq<char>,
    pub port: Option<u16>,
}

pub struct MemoryModel {
    pub min_mb: Option<u64>,
    pub max_mb: Option<u64>,
}

pub struct InstanceModel {
    pub id: Seq<char>,
    pub name: Seq<char>,
    pub description: Option<Seq<char>>,
    pub image: Option<Seq<char>>,
    pub files_url: Option<Seq<char>>,
    pub minecraft_version: Seq<char>,
    pub loader: LoaderModel,
    pub verify: bool,
    pub ignored: Seq<Seq<char>>,
    pub whitelist: Seq<Seq<char>>,
    pub whitelist_active: bool,
    pub server: Option<ServerModel>,
    pub java_version: Option<Seq<char>>,
    pub jvm_args: Seq<Seq<char>>,
    pub memory: Option<MemoryModel>,
    pub order: Option<i64>,
    pub extra: Seq<(String, Json)>,
}

pub open spec fn instance_view(i: Instance) -> InstanceModel {
    InstanceModel {
        id: i.id@,
        name: i.name@,
        description: opt_view(i.description),
        image: opt_view(i.image),
        files_url: opt_view(i.files_url),
        minecraft_version: i.minecraft_version@,
        loader: LoaderModel {
            kind: i.loader.kind@,
            version: i.loader.version@,
            mcp_file: opt_view(i.loader.mcp_file),
        },
        verify: i.verify,
        ignored: string_views(i.ignored@),
        whitelist: string_views(i.whitelist@),
        whitelist_active: i.whitelist_active,
        server: match i.server {
            Some(s) => Some(ServerModel { name: opt_view(s.name), host: s.host@, port: s.port }),
            None => None,
        },
        java_version: opt_view(i.java_version),
        jvm_args: string_views(i.jvm_args@),
        memory: match i.memory {
            Some(m) => Some(MemoryModel { min_mb: m.min_mb, max_mb: m.max_mb }),
            None => None,
        },
        order: i.order,
        extra: i.extra@,
    }
}

pub open spec fn instance_views(v: Seq<Instance>) -> Seq<InstanceModel> {
    v.map_values(|i: Instance| instance_view(i))
}

/// The members `Instance` models.
pub open spec fn instance_known() -> Seq<Seq<char>> {
    keys(
        seq![
            "id",
            "name",
            "description",
            "image",
            "icon",
            "thumbnail",
            "banner",
            "url",
            "loader",
            "loadder",
            "verify",
            "ignored",
            "whitelist",
            "whitelistActive",
            "whitelist_active",
            "status",
            "java",
            "java_version",
            "javaVersion",
            "jvm_args",
            "jvmArgs",
            "memory",
            "order",
            "position",
            "enabled",
            "disabled",
        ],
    )
}

pub open spec fn or_else(a: Option<Seq<char>>, b: Option<Seq<char>>) -> Option<Seq<char>> {
    match a {
        Some(x) => Some(x),
        None => b,
    }
}

/// A string member of an object that may be absent.
pub open spec fn pick_in(o: Option<Seq<(String, Json)>>, k: Seq<Seq<char>>) -> Option<Seq<char>> {
    match o {
        Some(f) => spec_pick_string(f, k),
        None => None,
    }
}

pub open spec fn version_keys() -> Seq<Seq<char>> {
    keys(seq!["minecraft_version", "minecraftVersion", "version"])
}

/// The game server of an instance; one without a host is none.
pub open spec fn server_of(status: Option<Seq<(String, Json)>>) -> Option<ServerModel> {
    match status {
        Some(st) => match spec_pick_string(st, keys(seq!["ip", "host", "address"])) {
            Some(host) => Some(
                ServerModel {
                    name: spec_pick_string(st, keys(seq!["nameServer", "name", "label"])),
                    host,
                    port: match spec_pick_u64(st, keys(seq!["port"])) {
                        Some(p) => if p <= u16::MAX {
                            Some(p as u16)
                        } else {
                            None
                        },
                        None => None,
                    },
                },
            ),
            None => None,
        },
        None => None,
    }
}

pub open spec fn memory_in(m: Seq<(String, Json)>, k: Seq<Seq<char>>) -> Option<u64> {
    match spec_pick(m, k) {
        Some(v) => memory_mb_of(v),
        None => None,
    }
}

pub open spec fn memory_of(memory: Option<Seq<(String, Json)>>) -> Option<MemoryModel> {
    match memory {
        Some(m) => Some(
            MemoryModel {
                min_mb: memory_in(m, keys(seq!["min", "minMb", "min_mb"])),
                max_mb: memory_in(m, keys(seq!["max", "maxMb", "max_mb"])),
            },
        ),
        None => None,
    }
}

/// The `index`-th entry, keyed by `key` when the panel answered an object.
/// A disabled entry, or one without a game version, is skipped.
pub open spec fn instance_of(key: Option<Seq<char>>, v: Json, index: nat) -> Option<InstanceModel> {
    match v {
        Json::Object(o) => {
            let f = o@;
            let lo = object_of(spec_pick(f, keys(seq!["loader", "loadder"])));
            if spec_pick_bool(f, keys(seq!["enabled"])) == Some(false) || spec_pick_bool(
                f,
                keys(seq!["disabled"]),
            ) == Some(true) {
                None
            } else {
                match or_else(pick_in(lo, version_keys()), spec_pick_string(f, version_keys())) {
                    None => None,
                    Some(mv) => {
                        let id = match or_else(spec_pick_string(f, keys(seq!["id"])), key) {
                            Some(i) => i,
                            None => "instance-"@ + dec_seq(index),
                        };
                        Some(
                            InstanceModel {
                                id,
                                name: match spec_pick_string(f, keys(seq!["name"])) {
                                    Some(n) => n,
                                    None => id,
                                },
                                description: spec_pick_string(f, keys(seq!["description"])),
                                image: web_only(
                                    spec_pick_string(
                                        f,
                                        keys(seq!["image", "icon", "thumbnail", "banner"]),
                                    ),
                                ),
                                files_url: web_only(spec_pick_string(f, keys(seq!["url"]))),
                                minecraft_version: mv,
                                loader: LoaderModel {
                                    kind: match pick_in(
                                        lo,
                                        keys(seq!["loader_type", "loadder_type", "type", "kind"]),
                                    ) {
                                        Some(k) => lower_seq(k),
                                        None => "none"@,
                                    },
                                    version: match pick_in(
                                        lo,
                                        keys(
                                            seq![
                                                "loader_version",
                                                "loadder_version",
                                                "build",
                                                "version",
                                            ],
                                        ),
                                    ) {
                                        Some(b) => if lower_seq(b) == "none"@ {
                                            "latest"@
                                        } else {
                                            b
                                        },
                                        None => "latest"@,
                                    },
                                    mcp_file: pick_in(lo, keys(seq!["mcp_file", "mcpFile"])),
                                },
                                verify: spec_pick_bool(f, keys(seq!["verify"])) == Some(true),
                                ignored: spec_pick_string_list(f, keys(seq!["ignored"])),
                                whitelist: spec_pick_string_list(f, keys(seq!["whitelist"])),
                                whitelist_active: spec_pick_bool(
                                    f,
                                    keys(seq!["whitelistActive", "whitelist_active"]),
                                ) == Some(true),
                                server: server_of(
                                    object_of(spec_pick(f, keys(seq!["status", "server"]))),
                                ),
                                java_version: or_else(
                                    pick_in(
                                        object_of(spec_pick(f, keys(seq!["java"]))),
                                        keys(seq!["version", "major"]),
                                    ),
                                    spec_pick_string(f, keys(seq!["java_version", "javaVersion"])),
                                ),
                                jvm_args: spec_pick_string_list(f, keys(seq!["jvm_args", "jvmArgs"])),
                                memory: memory_of(object_of(spec_pick(f, keys(seq!["memory"])))),
                                order: spec_pick_i64(f, keys(seq!["order", "position"])),
                                extra: spec_remaining(f, instance_known()),
                            },
                        )
                    },
                }
            }
        },
        _ => None,
    }
}

pub open spec fn fields_of(o: Option<&Vec<(String, Json)>>) -> Option<Seq<(String, Json)>> {
    match o {
        Some(f) => Some(f@),
        None => None,
    }
}

fn pick_string_in(o: Option<&Vec<(String, Json)>>, keys: &[&str]) -> (r: Option<String>)
    ensures
        opt_view(r) == pick_in(fields_of(o), str_views(keys@)),
{
    match o {
        Some(f) => pick_string(f, keys),
        None => None,
    }
}

fn first_of(a: Option<String>, b: Option<String>) -> (r: Option<String>)
    ensures
        opt_view(r) == or_else(opt_view(a), opt_view(b)),
{
    match a {
        Some(x) => Some(x),
        None => b,
    }
}

fn loader_from(lo: Option<&Vec<(String, Json)>>) -> (r: InstanceLoader)
    ensures
        r.kind@ == match pick_in(
            fields_of(lo),
            keys(seq!["loader_type", "loadder_type", "type", "kind"]),
        ) {
            Some(k) => lower_seq(k),
            None => "none"@,
        },
        r.version@ == match pick_in(
            fields_of(lo),
            keys(seq!["loader_version", "loadder_version", "build", "version"]),
        ) {
            Some(b) => if lower_seq(b) == "none"@ {
                "latest"@
            } else {
                b
            },
            None => "latest"@,
        },
        opt_view(r.mcp_file) == pick_in(fields_of(lo), keys(seq!["mcp_file", "mcpFile"])),
{
    let k_kind = ["loader_type", "loadder_type", "type", "kind"];
    let k_version = ["loader_version", "loadder_version", "build", "version"];
    let k_mcp = ["mcp_file", "mcpFile"];
    assert(k_kind@ =~= seq!["loader_type", "loadder_type", "type", "kind"]);
    assert(k_version@ =~= seq!["loader_version", "loadder_version", "build", "version"]);
    assert(k_mcp@ =~= seq!["mcp_file", "mcpFile"]);
    let kind = match pick_string_in(lo, &k_kind) {
        Some(k) => from_chars(&to_ascii_lowercase(&to_chars(k.as_str()))),
        None => "none".to_owned(),
    };
    let version = match pick_string_in(lo, &k_version) {
        Some(b) => {
            let none = to_chars("none");
            if eq_chars(&to_ascii_lowercase(&to_chars(b.as_str())), &none) {
                "latest".to_owned()
            } else {
                b
            }
        },
        None => "latest".to_owned(),
    };
    InstanceLoader { kind, version, mcp_file: pick_string_in(lo, &k_mcp) }
}

fn server_from(status: Option<&Vec<(String, Json)>>) -> (r: Option<InstanceServer>)
    ensures
        match r {
            Some(s) => server_of(fields_of(status)) == Some(
                ServerModel { name: opt_view(s.name), host: s.host@, port: s.port },
            ),
            None => server_of(fields_of(status)) is None,
        },
{
    let k_host = ["ip", "host", "address"];
    let k_name = ["nameServer", "name", "label"];
    let k_port = ["port"];
    assert(k_host@ =~= seq!["ip", "host", "address"]);
    assert(k_name@ =~= seq!["nameServer", "name", "label"]);
    assert(k_port@ =~= seq!["port"]);
    let st = match status {
        Some(st) => st,
        None => return None,
    };
    let host = match pick_string(st, &k_host) {
        Some(h) => h,
        None => return None,
    };
    let port = match pick_u64(st, &k_port) {
        Some(p) => if p <= 65535 {
            Some(p as u16)
        } else {
            None
        },
        None => None,
    };
    Some(InstanceServer { name: pick_string(st, &k_name), host, port })
}

fn memory_from(memory: Option<&Vec<(String, Json)>>) -> (r: Option<InstanceMemory>)
    ensures
        match r {
            Some(m) => memory_of(fields_of(memory)) == Some(
                MemoryModel { min_mb: m.min_mb, max_mb: m.max_mb },
            ),
            None => memory_of(fields_of(memory)) is None,
        },
{
    let k_min = ["min", "minMb", "min_mb"];
    let k_max = ["max", "maxMb", "max_mb"];
    assert(k_min@ =~= seq!["min", "minMb", "min_mb"]);
    assert(k_max@ =~= seq!["max", "maxMb", "max_mb"]);
    match memory {
        Some(m) => {
            let min_mb = match pick(m, &k_min) {
                Some(v) => parse_memory_mb(v),
                None => None,
            };
            let max_mb = match pick(m, &k_max) {
                Some(v) => parse_memory_mb(v),
                None => None,
            };
            Some(InstanceMemory { min_mb, max_mb })
        },
        None => None,
    }
}

impl Instance {
    fn from_value(key: Option<String>, value: Json, index: usize) -> (r: Option<Instance>)
        ensures
            match r {
                Some(i) => instance_of(opt_view(key), value, index as nat) == Some(
                    instance_view(i),
                ),
                None => instance_of(opt_view(key), value, index as nat) is None,
            },
    {
        let fields = match value {
            Json::Object(f) => f,
            _ => return None,
        };
        let k_enabled = ["enabled"];
        let k_disabled = ["disabled"];
        let k_id = ["id"];
        let k_name = ["name"];
        let k_loader = ["loader", "loadder"];
        let k_mv = ["minecraft_version", "minecraftVersion", "version"];
        let k_status = ["status", "server"];
        let k_java = ["java"];
        let k_java_major = ["version", "major"];
        let k_java_flat = ["java_version", "javaVersion"];
        let k_memory = ["memory"];
        let k_description = ["description"];
        let k_image = ["image", "icon", "thumbnail", "banner"];
        let k_url = ["url"];
        let k_verify = ["verify"];
        let k_ignored = ["ignored"];
        let k_whitelist = ["whitelist"];
        let k_active = ["whitelistActive", "whitelist_active"];
        let k_jvm = ["jvm_args", "jvmArgs"];
        let k_order = ["order", "position"];
        let known = [
            "id",
            "name",
            "description",
            "image",
            "icon",
            "thumbnail",
            "banner",
            "url",
            "loader",
            "loadder",
            "verify",
            "ignored",
            "whitelist",
            "whitelistActive",
            "whitelist_active",
            "status",
            "java",
            "java_version",
            "javaVersion",
            "jvm_args",
            "jvmArgs",
            "memory",
            "order",
            "position",
            "enabled",
            "disabled",
        ];
        assert(k_enabled@ =~= seq!["enabled"]);
        assert(k_disabled@ =~= seq!["disabled"]);
        assert(k_id@ =~= seq!["id"]);
        assert(k_name@ =~= seq!["name"]);
        assert(k_loader@ =~= seq!["loader", "loadder"]);
        assert(str_views(k_mv@) =~= version_keys());
        assert(k_status@ =~= seq!["status", "server"]);
        assert(k_java@ =~= seq!["java"]);
        assert(k_java_major@ =~= seq!["version", "major"]);
        assert(k_java_flat@ =~= seq!["java_version", "javaVersion"]);
        assert(k_memory@ =~= seq!["memory"]);
        assert(k_description@ =~= seq!["description"]);
        assert(k_image@ =~= seq!["image", "icon", "thumbnail", "banner"]);
        assert(k_url@ =~= seq!["url"]);
        assert(k_verify@ =~= seq!["verify"]);
        assert(k_ignored@ =~= seq!["ignored"]);
        assert(k_whitelist@ =~= seq!["whitelist"]);
        assert(k_active@ =~= seq!["whitelistActive", "whitelist_active"]);
        assert(k_jvm@ =~= seq!["jvm_args", "jvmArgs"]);
        assert(k_order@ =~= seq!["order", "position"]);
        assert(str_views(known@) =~= instance_known());
        let enabled = pick_bool(&fields, &k_enabled);
        let disabled = pick_bool(&fields, &k_disabled);
        if enabled == Some(false) || disabled == Some(true) {
            return None;
        }
        let lo = pick_object(&fields, &k_loader);
        let minecraft_version = match first_of(
            pick_string_in(lo, &k_mv),
            pick_string(&fields, &k_mv),
        ) {
            Some(v) => v,
            None => return None,
        };
        let id = match first_of(pick_string(&fields, &k_id), key) {
            Some(i) => i,
            None => {
                let mut v = to_chars("instance-");
                push_all(&mut v, &dec_chars(index as u64));
                from_chars(&v)
            },
        };
        let name = match pick_string(&fields, &k_name) {
            Some(n) => n,
            None => id.clone(),
        };
        let loader = loader_from(lo);
        let server = server_from(pick_object(&fields, &k_status));
        let java_version = first_of(
            pick_string_in(pick_object(&fields, &k_java), &k_java_major),
            pick_string(&fields, &k_java_flat),
        );
        let memory = memory_from(pick_object(&fields, &k_memory));
        let description = pick_string(&fields, &k_description);
        let image = keep_web(pick_string(&fields, &k_image));
        let files_url = keep_web(pick_string(&fields, &k_url));
        let verify = pick_bool(&fields, &k_verify) == Some(true);
        let ignored = pick_string_list(&fields, &k_ignored);
        let whitelist = pick_string_list(&fields, &k_whitelist);
        let whitelist_active = pick_bool(&fields, &k_active) == Some(true);
        let jvm_args = pick_string_list(&fields, &k_jvm);
        let order = pick_i64(&fields, &k_order);
        let extra = remaining(fields, &known);
        Some(
            Instance {
                id,
                name,
                description,
                image,
                files_url,
                minecraft_version,
                loader,
                verify,
                ignored,
                whitelist,
                whitelist_active,
                server,
                java_version,
                jvm_args,
                memory,
                order,
                extra,
            },
        )
    }
}

/// The entries of an instances answer: an object's members with their key,
/// or an array's items without one.
pub open spec fn instance_entries(v: Json) -> Option<Seq<(Option<String>, Json)>> {
    match v {
        Json::Object(f) => Some(f@.map_values(|p: (String, Json)| (Some(p.0), p.1))),
        Json::Array(items) => Some(items@.map_values(|j: Json| (None::<String>, j))),
        _ => None,
    }
}

/// The instances of the entries, in order, each numbered by its place.
pub open spec fn instances_of_entries(e: Seq<(Option<String>, Json)>) -> Seq<InstanceModel>
    decreases e.len(),
{
    if e.len() == 0 {
        Seq::empty()
    } else {
        let prev = instances_of_entries(e.drop_last());
        match instance_of(opt_view(e.last().0), e.last().1, (e.len() - 1) as nat) {
            Some(i) => prev.push(i),
            None => prev,
        }
    }
}

/// By `order` (unordered ones last), then by lower-cased name.
pub open spec fn instance_gt() -> spec_fn(InstanceModel, InstanceModel) -> bool {
    |a: InstanceModel, b: InstanceModel|
        order_key(a.order) > order_key(b.order) || (order_key(a.order) == order_key(b.order)
            && chars_gt(unicode_lower(a.name), unicode_lower(b.name)))
}

fn instance_after(a: &Instance, b: &Instance) -> (r: bool)
    ensures
        r == (instance_gt())(instance_view(*a), instance_view(*b)),
{
    let ka = match a.order {
        Some(o) => o,
        None => i64::MAX,
    };
    let kb = match b.order {
        Some(o) => o,
        None => i64::MAX,
    };
    if ka != kb {
        ka > kb
    } else {
        chars_greater(&to_lowercase(a.name.as_str()), &to_lowercase(b.name.as_str()))
    }
}

fn sort_instances(items: Vec<Instance>) -> (r: Vec<Instance>)
    ensures
        instance_views(r@) == sort_gt(instance_views(items@), instance_gt()),
{
    let ghost all = instance_views(items@);
    let mut rest = items;
    let mut out: Vec<Instance> = Vec::new();
    let n = rest.len();
    let mut i: usize = 0;
    while i < n
        invariant
            i <= n == all.len(),
            instance_views(rest@) == all.skip(i as int),
            instance_views(out@) == sort_gt(all.take(i as int), instance_gt()),
        decreases n - i,
    {
        assert(all.take(i + 1).drop_last() =~= all.take(i as int));
        assert(instance_views(rest@)[0] == all[i as int]);
        let ghost rest_before = rest@;
        assert(instance_views(rest_before).len() == rest_before.len());
        let x = rest.remove(0);
        assert(instance_views(rest@) =~= all.skip(i + 1)) by {
            assert(rest@ =~= rest_before.remove(0));
            assert forall|j: int| 0 <= j < rest@.len() implies #[trigger] instance_views(rest@)[j]
                == all.skip(i + 1)[j] by {
                assert(rest@[j] == rest_before[j + 1]);
                assert(instance_views(rest_before)[j + 1] == all.skip(i as int)[j + 1]);
            }
        }
        let mut pos = out.len();
        while pos > 0 && instance_after(&out[pos - 1], &x)
            invariant
                pos <= out@.len(),
                forall|j: int|
                    pos <= j < out@.len() ==> (instance_gt())(
                        instance_view(#[trigger] out@[j]),
                        instance_view(x),
                    ),
            decreases pos,
        {
            pos -= 1;
        }
        proof {
            let s = instance_views(out@);
            assert forall|j: int| pos <= j < s.len() implies (instance_gt())(
                #[trigger] s[j],
                instance_view(x),
            ) by {
                assert(s[j] == instance_view(out@[j]));
            }
            if pos > 0 {
                assert(s[pos - 1] == instance_view(out@[pos - 1]));
            }
            lemma_insert_gt(s, instance_view(x), instance_gt(), pos as int);
        }
        let ghost before = instance_views(out@);
        out.insert(pos, x);
        assert(instance_views(out@) =~= before.take(pos as int) + seq![instance_view(x)]
            + before.skip(pos as int));
        i += 1;
    }
    assert(all.take(i as int) =~= all);
    out
}

impl Instance {
    /// The panel answers `{ "<uuid>": {...}, ... }`; a list is accepted too.
    pub fn list_from_value(value: Json) -> (r: Result<Vec<Instance>, String>)
        ensures
            match r {
                Ok(v) => instance_entries(value) is Some && instance_views(v@) == sort_gt(
                    instances_of_entries(instance_entries(value).unwrap()),
                    instance_gt(),
                ),
                Err(e) => instance_entries(value) is None && e@
                    == "instances response is not an object"@,
            },
    {
        let ghost entries_spec = instance_entries(value);
        let mut entries: Vec<(Option<String>, Json)> = Vec::new();
        match value {
            Json::Object(f) => {
                let ghost all = f@;
                let mut rest = f;
                let n = rest.len();
                let mut i: usize = 0;
                while i < n
                    invariant
                        i <= n == all.len(),
                        rest@ == all.skip(i as int),
                        entries@ == all.take(i as int).map_values(
                            |p: (String, Json)| (Some(p.0), p.1),
                        ),
                    decreases n - i,
                {
                    assert(all.skip(i + 1) =~= all.skip(i as int).remove(0));
                    let (k, v) = rest.remove(0);
                    entries.push((Some(k), v));
                    i += 1;
                    assert(entries@ =~= all.take(i as int).map_values(
                        |p: (String, Json)| (Some(p.0), p.1),
                    ));
                }
                assert(all.take(i as int) =~= all);
            },
            Json::Array(items) => {
                let ghost all = items@;
                let mut rest = items;
                let n = rest.len();
                let mut i: usize = 0;
                while i < n
                    invariant
                        i <= n == all.len(),
                        rest@ == all.skip(i as int),
                        entries@ == all.take(i as int).map_values(|j: Json| (None::<String>, j)),
                    decreases n - i,
                {
                    assert(all.skip(i + 1) =~= all.skip(i as int).remove(0));
                    let v = rest.remove(0);
                    entries.push((None, v));
                    i += 1;
                    assert(entries@ =~= all.take(i as int).map_values(
                        |j: Json| (None::<String>, j),
                    ));
                }
                assert(all.take(i as int) =~= all);
            },
            _ => return Err("instances response is not an object".to_owned()),
        }
        let ghost all = entries@;
        assert(entries_spec == Some(all));
        let mut found: Vec<Instance> = Vec::new();
        let n = entries.len();
        let mut i: usize = 0;
        while i < n
            invariant
                i <= n == all.len(),
                entries@ == all.skip(i as int),
                instance_views(found@) == instances_of_entries(all.take(i as int)),
            decreases n - i,
        {
            assert(all.take(i + 1).drop_last() =~= all.take(i as int));
            assert(all.skip(i + 1) =~= all.skip(i as int).remove(0));
            let (key, item) = entries.remove(0);
            match Instance::from_value(key, item, i) {
                Some(x) => {
                    let ghost before = instance_views(found@);
                    found.push(x);
                    assert(instance_views(found@) =~= before.push(instance_view(x)));
                },
                None => {},
            }
            i += 1;
        }
        assert(all.take(i as int) =~= all);
        Ok(sort_instances(found))
    }

    /// Whether `player` may see this instance.
    pub fn allows(&self, player: Option<&str>) -> (r: bool)
        ensures
            r == (!self.whitelist_active || match player {
                Some(name) => string_views(self.whitelist@).contains(name@),
                None => false,
            }),
    {
        if !self.whitelist_active {
            return true;
        }
        match player {
            Some(name) => {
                let wanted = to_chars(name);
                let mut i: usize = 0;
                while i < self.whitelist.len()
                    invariant
                        i <= self.whitelist@.len(),
                        wanted@ == name@,
                        self.whitelist_active,
                        player == Some(name),
                        forall|j: int| 0 <= j < i ==> self.whitelist@[j]@ != name@,
                    decreases self.whitelist@.len() - i,
                {
                    if eq_chars(&to_chars(self.whitelist[i].as_str()), &wanted) {
                        assert(string_views(self.whitelist@).len() == self.whitelist@.len());
                        assert(string_views(self.whitelist@)[i as int] == name@);
                        assert(string_views(self.whitelist@).contains(name@));
                        return true;
                    }
                    i += 1;
                }
                assert(!string_views(self.whitelist@).contains(name@)) by {
                    if string_views(self.whitelist@).contains(name@) {
                        let j = choose|j: int| 0 <= j < string_views(self.whitelist@).len()
                            && string_views(self.whitelist@)[j] == name@;
                        assert(self.whitelist@[j]@ == name@);
                    }
                }
                false
            },
            None => false,
        }
    }
}

// ── API failures ────────────────────────────────────────────────────────────

/// The panel's error shape (`{ success: false, status: "error", message }`).
pub struct ApiFailure {
    pub success: Option<bool>,
    pub status: Option<String>,
    pub message: Option<String>,
}

pub struct FailureModel {
    pub success: Option<bool>,
    pub status: Option<Seq<char>>,
    pub message: Option<Seq<char>>,
}

/// An optional boolean member: absent or `null` is `None`; anything but a
/// boolean makes the whole value unreadable (the outer `None`).
pub open spec fn opt_bool_of(v: Option<Json>) -> Option<Option<bool>> {
    match v {
        None => Some(None),
        Some(Json::Null) => Some(None),
        Some(Json::Bool(b)) => Some(Some(b)),
        _ => None,
    }
}

/// An optional string member, read as `opt_bool_of` reads a boolean.
pub open spec fn opt_str_of(v: Option<Json>) -> Option<Option<Seq<char>>> {
    match v {
        None => Some(None),
        Some(Json::Null) => Some(None),
        Some(Json::String(s)) => Some(Some(s@)),
        _ => None,
    }
}

pub open spec fn failure_from(
    success: Option<Json>,
    status: Option<Json>,
    message: Option<Json>,
) -> Option<FailureModel> {
    match (opt_bool_of(success), opt_str_of(status), opt_str_of(message)) {
        (Some(a), Some(b), Some(c)) => Some(FailureModel { success: a, status: b, message: c }),
        _ => None,
    }
}

pub open spec fn item_at(items: Seq<Json>, i: int) -> Option<Json> {
    if i < items.len() {
        Some(items[i])
    } else {
        None
    }
}

/// The three optional members read from an object by name, or from an array
/// of at most three items by position; anything else is unreadable.
pub open spec fn failure_of(v: Json) -> Option<FailureModel> {
    match v {
        Json::Object(f) => failure_from(
            field(f@, "success"@),
            field(f@, "status"@),
            field(f@, "message"@),
        ),
        Json::Array(items) => if items.len() > 3 {
            None
        } else {
            failure_from(item_at(items@, 0), item_at(items@, 1), item_at(items@, 2))
        },
        _ => None,
    }
}

/// The message of a failure answer: `success` is `false` or `status` is
/// `"error"`.
pub open spec fn failure_message(v: Json) -> Option<Seq<char>> {
    match failure_of(v) {
        Some(m) => if m.success == Some(false) || m.status == Some("error"@) {
            Some(
                match m.message {
                    Some(x) => x,
                    None => "unknown API error"@,
                },
            )
        } else {
            None
        },
        None => None,
    }
}

fn opt_bool_from(v: Option<&Json>) -> (r: Option<Option<bool>>)
    ensures
        r == opt_bool_of(
            match v {
                Some(j) => Some(*j),
                None => None,
            },
        ),
{
    match v {
        None => Some(None),
        Some(Json::Null) => Some(None),
        Some(Json::Bool(b)) => Some(Some(*b)),
        _ => None,
    }
}

fn opt_str_from(v: Option<&Json>) -> (r: Option<Option<String>>)
    ensures
        match r {
            Some(x) => opt_str_of(
                match v {
                    Some(j) => Some(*j),
                    None => None,
                },
            ) == Some(opt_view(x)),
            None => opt_str_of(
                match v {
                    Some(j) => Some(*j),
                    None => None,
                },
            ) is None,
        },
{
    match v {
        None => Some(None),
        Some(Json::Null) => Some(None),
        Some(Json::String(s)) => Some(Some(s.clone())),
        _ => None,
    }
}

fn failure_parts(
    success: Option<&Json>,
    status: Option<&Json>,
    message: Option<&Json>,
) -> (r: Option<ApiFailure>)
    ensures
        match r {
            Some(a) => failure_from(
                match success {
                    Some(j) => Some(*j),
                    None => None,
                },
                match status {
                    Some(j) => Some(*j),
                    None => None,
                },
                match message {
                    Some(j) => Some(*j),
                    None => None,
                },
            ) == Some(
                FailureModel {
                    success: a.success,
                    status: opt_view(a.status),
                    message: opt_view(a.message),
                },
            ),
            None => failure_from(
                match success {
                    Some(j) => Some(*j),
                    None => None,
                },
                match status {
                    Some(j) => Some(*j),
                    None => None,
                },
                match message {
                    Some(j) => Some(*j),
                    None => None,
                },
            ) is None,
        },
{
    let a = match opt_bool_from(success) {
        Some(a) => a,
        None => return None,
    };
    let b = match opt_str_from(status) {
        Some(b) => b,
        None => return None,
    };
    let c = match opt_str_from(message) {
        Some(c) => c,
        None => return None,
    };
    Some(ApiFailure { success: a, status: b, message: c })
}

impl ApiFailure {
    /// Reads the failure shape the way `serde` reads this struct: members by
    /// name from an object, or by position from a short array.
    pub fn from_value(value: &Json) -> (r: Option<ApiFailure>)
        ensures
            match r {
                Some(a) => failure_of(*value) == Some(
                    FailureModel {
                        success: a.success,
                        status: opt_view(a.status),
                        message: opt_view(a.message),
                    },
                ),
                None => failure_of(*value) is None,
            },
    {
        match value {
            Json::Object(f) => failure_parts(
                get(f, &to_chars("success")),
                get(f, &to_chars("status")),
                get(f, &to_chars("message")),
            ),
            Json::Array(items) => {
                if items.len() > 3 {
                    return None;
                }
                let a = if items.len() > 0 {
                    Some(&items[0])
                } else {
                    None
                };
                let b = if items.len() > 1 {
                    Some(&items[1])
                } else {
                    None
                };
                let c = if items.len() > 2 {
                    Some(&items[2])
                } else {
                    None
                };
                failure_parts(a, b, c)
            },
            _ => None,
        }
    }

    /// The message of an answer in the panel's error shape, if it is one.
    pub fn detect(value: &Json) -> (r: Option<String>)
        ensures
            opt_view(r) == failure_message(*value),
    {
        let failure = match ApiFailure::from_value(value) {
            Some(f) => f,
            None => return None,
        };
        let is_error = match &failure.status {
            Some(s) => eq_chars(&to_chars(s.as_str()), &to_chars("error")),
            None => false,
        };
        if failure.success == Some(false) || is_error {
            Some(
                match failure.message {
                    Some(m) => m,
                    None => "unknown API error".to_owned(),
                },
            )
        } else {
            None
        }
    }
}

// ── Laws ────────────────────────────────────────────────────────────────────

/// Where `insert_gt` puts `x`: after the last element that does not come
/// after it, and after every such run.
pub open spec fn insert_pos<A>(s: Seq<A>, x: A, gt: spec_fn(A, A) -> bool) -> int
    decreases s.len(),
{
    if s.len() == 0 {
        0
    } else if !gt(s.last(), x) {
        s.len() as int
    } else {
        insert_pos(s.drop_last(), x, gt)
    }
}

proof fn lemma_insert_pos<A>(s: Seq<A>, x: A, gt: spec_fn(A, A) -> bool)
    ensures
        0 <= insert_pos(s, x, gt) <= s.len(),
        insert_gt(s, x, gt) == s.insert(insert_pos(s, x, gt), x),
        insert_pos(s, x, gt) == 0 || !gt(s[insert_pos(s, x, gt) - 1], x),
        forall|j: int| insert_pos(s, x, gt) <= j < s.len() ==> gt(#[trigger] s[j], x),
    decreases s.len(),
{
    if s.len() == 0 {
        assert(s.insert(0, x) =~= seq![x]);
    } else if !gt(s.last(), x) {
        assert(s.insert(s.len() as int, x) =~= s.push(x));
    } else {
        let t = s.drop_last();
        lemma_insert_pos(t, x, gt);
        let p = insert_pos(t, x, gt);
        assert(t.insert(p, x).push(s.last()) =~= s.insert(p, x));
        assert forall|j: int| p <= j < s.len() implies gt(#[trigger] s[j], x) by {
            if j < s.len() - 1 {
                assert(s[j] == t[j]);
            }
        }
        if p > 0 {
            assert(s[p - 1] == t[p - 1]);
        }
    }
}

/// No element comes after one that follows it.
pub open spec fn sorted_by<A>(s: Seq<A>, gt: spec_fn(A, A) -> bool) -> bool {
    forall|i: int, j: int| 0 <= i < j < s.len() ==> !gt(#[trigger] s[i], #[trigger] s[j])
}

/// `gt` orders: it is asymmetric, and "not after" is transitive.
pub open spec fn weak_order<A>(gt: spec_fn(A, A) -> bool) -> bool {
    &&& forall|a: A, b: A| #[trigger] gt(a, b) ==> !gt(b, a)
    &&& forall|a: A, b: A, c: A|
        #![trigger gt(a, b), gt(b, c)]
        !gt(a, b) && !gt(b, c) ==> !gt(a, c)
}

/// The stable sort sorts, and keeps every element: the result is ordered and
/// holds the same elements, as many times each.
pub proof fn law_sort_gt<A>(s: Seq<A>, gt: spec_fn(A, A) -> bool)
    requires
        weak_order(gt),
    ensures
        sorted_by(sort_gt(s, gt), gt),
        sort_gt(s, gt).to_multiset() == s.to_multiset(),
    decreases s.len(),
{
    broadcast use vstd::seq_lib::to_multiset_build, vstd::seq_lib::to_multiset_insert;

    if s.len() > 0 {
        let t = sort_gt(s.drop_last(), gt);
        let x = s.last();
        law_sort_gt(s.drop_last(), gt);
        lemma_insert_pos(t, x, gt);
        let p = insert_pos(t, x, gt);
        let r = t.insert(p, x);
        assert(sort_gt(s, gt) == r);
        assert forall|i: int, j: int| 0 <= i < j < r.len() implies !gt(
            #[trigger] r[i],
            #[trigger] r[j],
        ) by {
            if j < p {
                assert(r[i] == t[i] && r[j] == t[j]);
            } else if j == p {
                assert(r[i] == t[i] && r[j] == x);
                if i < p - 1 {
                    assert(!gt(t[i], t[p - 1]));
                    assert(!gt(t[p - 1], x));
                }
            } else if i < p {
                assert(r[i] == t[i] && r[j] == t[j - 1]);
            } else if i == p {
                assert(r[i] == x && r[j] == t[j - 1]);
                assert(gt(t[j - 1], x));
            } else {
                assert(r[i] == t[i - 1] && r[j] == t[j - 1]);
            }
        }
        assert(s.drop_last().push(x) =~= s);
    }
}

proof fn lemma_order_key_weak()
    ensures
        weak_order(link_gt()),
        weak_order(article_gt()),
{
}

/// Links come sorted by `order`, unordered ones last, and the sort loses and
/// adds nothing.
pub proof fn law_links_sorted(v: Json)
    ensures
        sorted_by(links_of(v), link_gt()),
        links_of(v).to_multiset() == links_of_items(link_items(v)).to_multiset(),
        forall|i: int, j: int|
            0 <= i < j < links_of(v).len() ==> order_key(#[trigger] links_of(v)[i].order)
                <= order_key(#[trigger] links_of(v)[j].order),
{
    lemma_order_key_weak();
    law_sort_gt(links_of_items(link_items(v)), link_gt());
    assert forall|i: int, j: int|
        0 <= i < j < links_of(v).len() implies order_key(#[trigger] links_of(v)[i].order)
        <= order_key(#[trigger] links_of(v)[j].order) by {
        assert(!(link_gt())(links_of(v)[i], links_of(v)[j]));
    }
}

/// Articles come sorted by `order`, unordered ones last, and the sort loses
/// and adds nothing.
pub proof fn law_articles_sorted(items: Seq<Json>)
    ensures
        sorted_by(sort_gt(articles_of_items(items), article_gt()), article_gt()),
        sort_gt(articles_of_items(items), article_gt()).to_multiset() == articles_of_items(
            items,
        ).to_multiset(),
{
    lemma_order_key_weak();
    law_sort_gt(articles_of_items(items), article_gt());
}

proof fn lemma_chars_gt_asymmetric(a: Seq<char>, b: Seq<char>)
    ensures
        chars_gt(a, b) ==> !chars_gt(b, a),
    decreases a.len(),
{
    if a.len() > 0 && b.len() > 0 {
        vstd::utf8::char_u32_cast(a[0], a[0] as u32);
        vstd::utf8::char_u32_cast(b[0], b[0] as u32);
        if a[0] == b[0] {
            lemma_chars_gt_asymmetric(a.drop_first(), b.drop_first());
        }
    }
}

proof fn lemma_chars_le_transitive(a: Seq<char>, b: Seq<char>, c: Seq<char>)
    ensures
        !chars_gt(a, b) && !chars_gt(b, c) ==> !chars_gt(a, c),
    decreases a.len(),
{
    if a.len() > 0 && b.len() > 0 && c.len() > 0 {
        vstd::utf8::char_u32_cast(a[0], a[0] as u32);
        vstd::utf8::char_u32_cast(b[0], b[0] as u32);
        vstd::utf8::char_u32_cast(c[0], c[0] as u32);
        if a[0] == b[0] && b[0] == c[0] {
            lemma_chars_le_transitive(a.drop_first(), b.drop_first(), c.drop_first());
        }
    }
}

proof fn lemma_instance_order_weak()
    ensures
        weak_order(instance_gt()),
{
    assert forall|a: InstanceModel, b: InstanceModel| #[trigger]
        (instance_gt())(a, b) implies !(instance_gt())(b, a) by {
        lemma_chars_gt_asymmetric(unicode_lower(a.name), unicode_lower(b.name));
    }
    assert forall|a: InstanceModel, b: InstanceModel, c: InstanceModel|
        #![trigger (instance_gt())(a, b), (instance_gt())(b, c)]
        !(instance_gt())(a, b) && !(instance_gt())(b, c) implies !(instance_gt())(a, c) by {
        lemma_chars_le_transitive(
            unicode_lower(a.name),
            unicode_lower(b.name),
            unicode_lower(c.name),
        );
    }
}

/// Instances come sorted by `order` (unordered ones last), then by
/// lower-cased name, and the sort loses and adds nothing.
pub proof fn law_instances_sorted(entries: Seq<(Option<String>, Json)>)
    ensures
        sorted_by(sort_gt(instances_of_entries(entries), instance_gt()), instance_gt()),
        sort_gt(instances_of_entries(entries), instance_gt()).to_multiset()
            == instances_of_entries(entries).to_multiset(),
{
    lemma_instance_order_weak();
    law_sort_gt(instances_of_entries(entries), instance_gt());
}

/// The unknown members are kept, and only they: every member of `extra`
/// comes from the object under a name the model does not read, and every
/// such member is in `extra`.
pub proof fn law_remaining_exact(f: Seq<(String, Json)>, known: Seq<Seq<char>>)
    ensures
        forall|i: int|
            0 <= i < spec_remaining(f, known).len() ==> !known.contains(
                (#[trigger] spec_remaining(f, known)[i]).0@,
            ) && f.contains(spec_remaining(f, known)[i]),
        forall|j: int|
            0 <= j < f.len() && !known.contains((#[trigger] f[j]).0@) ==> spec_remaining(
                f,
                known,
            ).contains(f[j]),
    decreases f.len(),
{
    if f.len() > 0 {
        let t = f.drop_last();
        law_remaining_exact(t, known);
        let prev = spec_remaining(t, known);
        let r = spec_remaining(f, known);
        assert forall|i: int| 0 <= i < r.len() implies !known.contains((#[trigger] r[i]).0@)
            && f.contains(r[i]) by {
            if i < prev.len() {
                assert(r[i] == prev[i]);
                let k = choose|k: int| 0 <= k < t.len() && t[k] == prev[i];
                assert(f[k] == t[k]);
            } else {
                assert(r[i] == f.last());
                assert(f[f.len() - 1] == f.last());
            }
        }
        assert forall|j: int| 0 <= j < f.len() && !known.contains((#[trigger] f[j]).0@) implies r.contains(
            f[j],
        ) by {
            if j < f.len() - 1 {
                assert(f[j] == t[j]);
                let k = choose|k: int| 0 <= k < prev.len() && prev[k] == t[j];
                assert(r[k] == prev[k]);
            } else {
                assert(r[r.len() - 1] == f[j]);
            }
        }
    }
}

/// A configuration is read from any object: a missing member never makes it
/// fail, and anything but an object is refused.
pub proof fn law_config_from_any_object(value: Json)
    ensures
        config_of(value) is Some <==> value is Object,
        value matches Json::Object(o) ==> forall|i: int|
            0 <= i < config_of(value)->Some_0.extra.len() ==> !config_known().contains(
                (#[trigger] config_of(value)->Some_0.extra[i]).0@,
            ),
{
    match value {
        Json::Object(o) => {
            law_remaining_exact(o@, config_known());
        },
        _ => {},
    }
}

// ── Laws of the memory values ───────────────────────────────────────────────

proof fn lemma_lead_ws_same(s1: Seq<char>, s2: Seq<char>)
    requires
        s1.len() == s2.len(),
        forall|k: int| 0 <= k < s1.len() ==> spec_is_whitespace(#[trigger] s1[k]) == spec_is_whitespace(s2[k]),
    ensures
        lead_ws(s1) == lead_ws(s2),
    decreases s1.len(),
{
    if s1.len() > 0 {
        let t1 = s1.drop_first();
        let t2 = s2.drop_first();
        assert forall|k: int| 0 <= k < t1.len() implies spec_is_whitespace(#[trigger] t1[k])
            == spec_is_whitespace(t2[k]) by {
            assert(t1[k] == s1[k + 1]);
            assert(t2[k] == s2[k + 1]);
        }
        lemma_lead_ws_same(t1, t2);
        assert(spec_is_whitespace(s1[0]) == spec_is_whitespace(s2[0]));
    }
}

proof fn lemma_trail_ws_same(s1: Seq<char>, s2: Seq<char>)
    requires
        s1.len() == s2.len(),
        forall|k: int| 0 <= k < s1.len() ==> spec_is_whitespace(#[trigger] s1[k]) == spec_is_whitespace(s2[k]),
    ensures
        trail_ws(s1) == trail_ws(s2),
    decreases s1.len(),
{
    if s1.len() > 0 {
        let t1 = s1.drop_last();
        let t2 = s2.drop_last();
        assert forall|k: int| 0 <= k < t1.len() implies spec_is_whitespace(#[trigger] t1[k])
            == spec_is_whitespace(t2[k]) by {
            assert(t1[k] == s1[k]);
            assert(t2[k] == s2[k]);
        }
        lemma_trail_ws_same(t1, t2);
        assert(spec_is_whitespace(s1.last()) == spec_is_whitespace(s2.last()));
    }
}

/// Two texts with white space at the same places and the same characters
/// once upper-cased read the same once trimmed and upper-cased.
proof fn lemma_upper_trim_same(s1: Seq<char>, s2: Seq<char>)
    requires
        s1.len() == s2.len(),
        forall|k: int|
            0 <= k < s1.len() ==> spec_is_whitespace(#[trigger] s1[k]) == spec_is_whitespace(s2[k])
                && spec_ascii_upper(s1[k]) == spec_ascii_upper(s2[k]),
    ensures
        upper_seq(trim(s1)) == upper_seq(trim(s2)),
{
    lemma_lead_ws_same(s1, s2);
    lemma_lead_ws_bound(s1);
    let l = lead_ws(s1) as int;
    let t1 = s1.skip(l);
    let t2 = s2.skip(l);
    assert forall|k: int| 0 <= k < t1.len() implies spec_is_whitespace(#[trigger] t1[k])
        == spec_is_whitespace(t2[k]) by {
        assert(t1[k] == s1[k + l]);
        assert(t2[k] == s2[k + l]);
    }
    lemma_trail_ws_same(t1, t2);
    lemma_trail_ws_bound(t1);
    let c1 = trim(s1);
    let c2 = trim(s2);
    assert(c1.len() == c2.len());
    assert forall|k: int| 0 <= k < c1.len() implies #[trigger] upper_seq(c1)[k] == upper_seq(c2)[k] by {
        assert(c1[k] == s1[k + l]);
        assert(c2[k] == s2[k + l]);
    }
    assert(upper_seq(c1) =~= upper_seq(c2));
}

/// A memory string's unit is read whatever its case: `<n>g` is read as
/// `<n>G`, and `<n>m` as `<n>M`, for every `n`.
pub proof fn law_memory_unit_any_case(n: Seq<char>, a: String, b: String)
    requires
        (a@ == n + "g"@ && b@ == n + "G"@) || (a@ == n + "m"@ && b@ == n + "M"@),
    ensures
        memory_mb_of(Json::String(a)) == memory_mb_of(Json::String(b)),
{
    reveal_strlit("g");
    reveal_strlit("G");
    reveal_strlit("m");
    reveal_strlit("M");
    let s1 = a@;
    let s2 = b@;
    assert forall|k: int|
        0 <= k < s1.len() implies spec_is_whitespace(#[trigger] s1[k]) == spec_is_whitespace(s2[k])
        && spec_ascii_upper(s1[k]) == spec_ascii_upper(s2[k]) by {
        if k < n.len() {
            assert(s1[k] == n[k]);
            assert(s2[k] == n[k]);
        } else {
            assert(k == n.len());
        }
    }
    lemma_upper_trim_same(s1, s2);
}

/// Digits `n` followed by `G` are `n` GiB, that is `n * 1024` MiB; followed
/// by `M` they are `n` MiB.
pub proof fn law_memory_units_scale(n: Seq<char>, g: String, m: String)
    requires
        n.len() > 0,
        forall|k: int| 0 <= k < n.len() ==> spec_is_ascii_digit(#[trigger] n[k]),
        digits_value(n) * 1024 <= u64::MAX,
        g@ == n + "G"@,
        m@ == n + "M"@,
    ensures
        memory_mb_of(Json::String(m)) == Some(digits_value(n) as u64),
        memory_mb_of(Json::String(g)) == Some((digits_value(n) * 1024) as u64),
{
    reveal_strlit("G");
    reveal_strlit("M");
    lemma_digits_read(n);
    assert("G"@ =~= seq!['G']);
    assert("M"@ =~= seq!['M']);
    assert(g@ =~= n.push('G'));
    assert(m@ =~= n.push('M'));
    lemma_digits_then_unit(n, 'G', g@);
    lemma_digits_then_unit(n, 'M', m@);
    assert(all_digits(n));
    assert(n[0] != '+');
    assert(crate::text::unsigned_body(n) == n);
    assert(spec_parse_u64(n) == Some(digits_value(n) as u64));
    let gs = g@;
    let ms = m@;
    assert(gs.skip(gs.len() - 1) =~= "G"@);
    assert(spec_ends_with(gs, "G"@));
    assert(ms.skip(ms.len() - 1) =~= "M"@);
    assert(spec_ends_with(ms, "M"@));
    assert(!spec_ends_with(ms, "G"@)) by {
        assert(ms.skip(ms.len() - 1)[0] == 'M');
    }
}

/// Digits read back as themselves: trimmed and upper-cased they do not
/// change.
proof fn lemma_digits_read(n: Seq<char>)
    requires
        n.len() > 0,
        forall|k: int| 0 <= k < n.len() ==> spec_is_ascii_digit(#[trigger] n[k]),
    ensures
        trim(n) == n,
{
    assert(!spec_is_whitespace(n[0]));
    lemma_lead_ws(n, 0);
    assert(!spec_is_whitespace(n[n.len() - 1]));
    lemma_trail_ws(n, 0);
    assert(trim(n) =~= n);
}

proof fn lemma_digits_then_unit(n: Seq<char>, unit: char, s: Seq<char>)
    requires
        n.len() > 0,
        forall|k: int| 0 <= k < n.len() ==> spec_is_ascii_digit(#[trigger] n[k]),
        unit == 'G' || unit == 'M',
        s == n.push(unit),
    ensures
        upper_seq(trim(s)) == s,
        s.drop_last() == n,
{
    assert(s[0] == n[0]);
    assert(!spec_is_whitespace(s[0]));
    lemma_lead_ws(s, 0);
    assert(!spec_is_whitespace(s[s.len() - 1]));
    lemma_trail_ws(s, 0);
    assert(trim(s) =~= s);
    assert forall|k: int| 0 <= k < s.len() implies #[trigger] upper_seq(s)[k] == s[k] by {
        if k < n.len() {
            assert(s[k] == n[k]);
        }
    }
    assert(upper_seq(s) =~= s);
    assert(s.drop_last() =~= n);
}

} // verus!
