//! JSON documents, as the library reads them.
//!
//! Parsing is `serde_json`'s: its `Value` is copied into `Json`, one node for
//! one node, so that the tolerant readers of the panel's answers and of the
//! client pack can be verified on plain values.

use vstd::prelude::*;

use crate::text::{eq_chars, to_chars};

verus! {

/// A JSON number, as `serde_json::Number` exposes it.
pub struct JsonNumber {
    /// `Number::to_string`.
    pub text: String,
    /// `Number::as_i64`.
    pub int: Option<i64>,
    /// `Number::as_u64`.
    pub uint: Option<u64>,
}

/// A JSON value. Object members keep the order `serde_json` gives them.
pub enum Json {
    Null,
    Bool(bool),
    Number(JsonNumber),
    String(String),
    Array(Vec<Json>),
    Object(Vec<(String, Json)>),
}

#[verifier::external_type_specification]
#[verifier::external_body]
pub struct ExJsonValue(serde_json::Value);

/// What `serde_json` reads from `bytes`: the document, or the text of its
/// error when they are not JSON.
pub uninterp spec fn json_read(bytes: Seq<u8>) -> Result<Json, Seq<char>>;

/// The document `serde_json` reads from `bytes`, `None` when they are not JSON.
pub open spec fn parsed_json(bytes: Seq<u8>) -> Option<Json> {
    match json_read(bytes) {
        Ok(j) => Some(j),
        Err(_) => None,
    }
}

/// `serde_json::from_slice::<serde_json::Value>`, copied into a `Json`; the
/// error is written as its `Display` writes it.
#[verifier::external_body]
pub(crate) fn parse_json(bytes: &[u8]) -> (r: Result<Json, String>)
    ensures
        match r {
            Ok(j) => json_read(bytes@) == Ok::<Json, Seq<char>>(j),
            Err(e) => json_read(bytes@) == Err::<Json, Seq<char>>(e@),
        },
{
    match serde_json::from_slice::<serde_json::Value>(bytes) {
        Ok(value) => Ok(json_of_value(&value)),
        Err(error) => Err(error.to_string()),
    }
}

impl Json {
    /// Reads a JSON document; `None` when the bytes are not one.
    pub fn parse(bytes: &[u8]) -> (r: Option<Json>)
        ensures
            r == parsed_json(bytes@),
    {
        match parse_json(bytes) {
            Ok(j) => Some(j),
            Err(_) => None,
        }
    }

    /// Reads a JSON document, or says why the bytes are not one.
    pub fn read(bytes: &[u8]) -> (r: Result<Json, String>)
        ensures
            match r {
                Ok(j) => json_read(bytes@) == Ok::<Json, Seq<char>>(j),
                Err(e) => json_read(bytes@) == Err::<Json, Seq<char>>(e@),
            },
    {
        parse_json(bytes)
    }
}

/// Node-for-node copy of a `serde_json::Value`.
#[verifier::external_body]
fn json_of_value(value: &serde_json::Value) -> Json {
    match value {
        serde_json::Value::Null => Json::Null,
        serde_json::Value::Bool(flag) => Json::Bool(*flag),
        serde_json::Value::Number(n) => Json::Number(
            JsonNumber { text: n.to_string(), int: n.as_i64(), uint: n.as_u64() },
        ),
        serde_json::Value::String(text) => Json::String(text.clone()),
        serde_json::Value::Array(items) => Json::Array(items.iter().map(json_of_value).collect()),
        serde_json::Value::Object(map) => Json::Object(
            map.iter().map(|(key, item)| (key.clone(), json_of_value(item))).collect(),
        ),
    }
}

/// The value of the first member named `key`.
pub open spec fn field(fields: Seq<(String, Json)>, key: Seq<char>) -> Option<Json>
    decreases fields.len(),
{
    if fields.len() == 0 {
        None
    } else if fields[0].0@ == key {
        Some(fields[0].1)
    } else {
        field(fields.drop_first(), key)
    }
}

pub open spec fn str_views(keys: Seq<&str>) -> Seq<Seq<char>> {
    keys.map_values(|k: &str| k@)
}

/// The first of `keys` present in the object, unless its value is `null`.
pub open spec fn spec_pick(fields: Seq<(String, Json)>, keys: Seq<Seq<char>>) -> Option<Json>
    decreases keys.len(),
{
    if keys.len() == 0 {
        None
    } else {
        match field(fields, keys[0]) {
            Some(v) => if v is Null {
                None
            } else {
                Some(v)
            },
            None => spec_pick(fields, keys.drop_first()),
        }
    }
}

pub fn get<'a>(fields: &'a [(String, Json)], key: &[char]) -> (r: Option<&'a Json>)
    ensures
        r matches Some(v) ==> field(fields@, key@) == Some(*v),
        r is None ==> field(fields@, key@) is None,
{
    let mut i: usize = 0;
    assert(fields@.skip(0) =~= fields@);
    while i < fields.len()
        invariant
            i <= fields@.len(),
            field(fields@, key@) == field(fields@.skip(i as int), key@),
        decreases fields@.len() - i,
    {
        assert(fields@.skip(i as int).drop_first() =~= fields@.skip(i + 1));
        let name = to_chars(fields[i].0.as_str());
        if eq_chars(&name, key) {
            return Some(&fields[i].1);
        }
        i += 1;
    }
    None
}

pub fn pick<'a>(fields: &'a [(String, Json)], keys: &[&str]) -> (r: Option<&'a Json>)
    ensures
        r matches Some(v) ==> spec_pick(fields@, str_views(keys@)) == Some(*v),
        r is None ==> spec_pick(fields@, str_views(keys@)) is None,
{
    let mut i: usize = 0;
    assert(str_views(keys@).skip(0) =~= str_views(keys@));
    while i < keys.len()
        invariant
            i <= keys@.len(),
            spec_pick(fields@, str_views(keys@)) == spec_pick(
                fields@,
                str_views(keys@).skip(i as int),
            ),
        decreases keys@.len() - i,
    {
        assert(str_views(keys@).skip(i as int).drop_first() =~= str_views(keys@).skip(i + 1));
        assert(str_views(keys@).skip(i as int)[0] == keys@[i as int]@);
        let key = to_chars(keys[i]);
        match get(fields, &key) {
            Some(v) => {
                return match v {
                    Json::Null => None,
                    _ => Some(v),
                };
            },
            None => {},
        }
        i += 1;
    }
    None
}

/// The index of the first member named `key`.
pub fn find_member(fields: &[(String, Json)], key: &[char]) -> (r: Option<usize>)
    ensures
        match r {
            Some(j) => j < fields@.len() && field(fields@, key@) == Some(fields@[j as int].1)
                && fields@[j as int].0@ == key@ && forall|t: int|
                0 <= t < j ==> fields@[t].0@ != key@,
            None => field(fields@, key@) is None,
        },
{
    let mut i: usize = 0;
    assert(fields@.skip(0) =~= fields@);
    while i < fields.len()
        invariant
            i <= fields@.len(),
            field(fields@, key@) == field(fields@.skip(i as int), key@),
            forall|t: int| 0 <= t < i ==> fields@[t].0@ != key@,
        decreases fields@.len() - i,
    {
        assert(fields@.skip(i as int).drop_first() =~= fields@.skip(i + 1));
        let name = to_chars(fields[i].0.as_str());
        if eq_chars(&name, key) {
            return Some(i);
        }
        i += 1;
    }
    None
}

/// The index of the member `pick` reads.
pub fn pick_member(fields: &[(String, Json)], keys: &[&str]) -> (r: Option<usize>)
    ensures
        match r {
            Some(j) => j < fields@.len() && spec_pick(fields@, str_views(keys@)) == Some(
                fields@[j as int].1,
            ) && str_views(keys@).contains(fields@[j as int].0@),
            None => spec_pick(fields@, str_views(keys@)) is None,
        },
{
    let mut i: usize = 0;
    assert(str_views(keys@).skip(0) =~= str_views(keys@));
    while i < keys.len()
        invariant
            i <= keys@.len(),
            spec_pick(fields@, str_views(keys@)) == spec_pick(
                fields@,
                str_views(keys@).skip(i as int),
            ),
        decreases keys@.len() - i,
    {
        assert(str_views(keys@).skip(i as int).drop_first() =~= str_views(keys@).skip(i + 1));
        assert(str_views(keys@).skip(i as int)[0] == keys@[i as int]@);
        let key = to_chars(keys[i]);
        match find_member(fields, &key) {
            Some(j) => {
                assert(str_views(keys@)[i as int] == key@);
                return match &fields[j].1 {
                    Json::Null => None,
                    _ => Some(j),
                };
            },
            None => {},
        }
        i += 1;
    }
    None
}


/// No two members of the object share a name.
pub open spec fn names_distinct(fields: Seq<(String, Json)>) -> bool {
    forall|i: int, j: int| 0 <= i < j < fields.len() ==> fields[i].0@ != fields[j].0@
}

/// Every object in `j`, `j` included and arrays left aside, has members with
/// distinct names, as a `serde_json::Map` has.
pub open spec fn object_names_distinct(j: Json) -> bool
    decreases j,
{
    match j {
        Json::Object(f) => names_distinct(f@) && forall|i: int|
            0 <= i < f@.len() ==> object_names_distinct(#[trigger] f@[i].1),
        _ => true,
    }
}

/// `r` is `overlay` merged into `base`: objects member by member, recursively;
/// a member that only `base` has stays; anything else `overlay` gives wins.
pub open spec fn merge_of(base: Json, overlay: Json, r: Json) -> bool
    decreases overlay,
{
    match overlay {
        Json::Object(o) => match base {
            Json::Object(b) => match r {
                Json::Object(m) => {
                    &&& forall|i: int|
                        0 <= i < o@.len() ==> match #[trigger] field(b@, o@[i].0@) {
                            Some(bv) => match field(m@, o@[i].0@) {
                                Some(mv) => merge_of(bv, o@[i].1, mv),
                                None => false,
                            },
                            None => field(m@, o@[i].0@) == Some(o@[i].1),
                        }
                    &&& forall|k: Seq<char>|
                        (forall|i: int| 0 <= i < o@.len() ==> o@[i].0@ != k) ==> #[trigger] field(
                            m@,
                            k,
                        ) == field(b@, k)
                },
                _ => false,
            },
            _ => r == overlay,
        },
        _ => r == overlay,
    }
}

/// Merges `overlay` into `base`: two objects are merged member by member,
/// recursively; in every other case `overlay` replaces `base`.
pub fn merge(base: Json, overlay: Json) -> (r: Json)
    requires
        object_names_distinct(overlay),
    ensures
        merge_of(base, overlay, r),
    decreases overlay,
{
    match overlay {
        Json::Object(o) => match base {
            Json::Object(b) => {
                let ghost whole = o@;
                let mut fields = b;
                let mut rest = o;
                let mut n: usize = 0;
                let total: usize = rest.len();
                while rest.len() > 0
                    invariant
                        n <= whole.len(),
                        whole.len() == total,
                        rest@ == whole.skip(n as int),
                        overlay == Json::Object(o),
                        o@ == whole,
                        names_distinct(whole),
                        forall|i: int| 0 <= i < whole.len() ==> object_names_distinct(#[trigger] whole[i].1),
                        forall|i: int|
                            0 <= i < n ==> match #[trigger] field(b@, whole[i].0@) {
                                Some(bv) => match field(fields@, whole[i].0@) {
                                    Some(mv) => merge_of(bv, whole[i].1, mv),
                                    None => false,
                                },
                                None => field(fields@, whole[i].0@) == Some(whole[i].1),
                            },
                        forall|k: Seq<char>|
                            (forall|i: int| 0 <= i < n ==> whole[i].0@ != k) ==> #[trigger] field(
                                fields@,
                                k,
                            ) == field(b@, k),
                    decreases rest.len(),
                {
                    assert(rest@.len() == whole.len() - n);
                    let (key, value) = rest.remove(0);
                    assert(key@ == whole[n as int].0@ && value == whole[n as int].1);
                    let name = to_chars(key.as_str());
                    let ghost before = fields@;
                    match find_member(&fields, &name) {
                        Some(at) => {
                            let (held, old_value) = fields.remove(at);
                            proof {
                                let ghost members = overlay->Object_0;
                                assert(decreases_to!(overlay => members));
                                assert(decreases_to!(members => members@));
                                assert(decreases_to!(members@ => members@[n as int]));
                                assert(decreases_to!(members@[n as int] => members@[n as int].1));
                            }
                            let merged = merge(old_value, value);
                            fields.insert(at, (held, merged));
                            proof {
                                lemma_field_replaced(before, fields@, at as int);
                            }
                        },
                        None => {
                            fields.push((key, value));
                            proof {
                                assert forall|k: Seq<char>|
                                    k != key@ implies #[trigger] field(fields@, k) == field(
                                    before,
                                    k,
                                ) by {
                                    lemma_field_appended(before, fields@, k);
                                }
                                lemma_field_appended(before, fields@, key@);
                            }
                        },
                    }
                    n = n + 1;
                    assert(rest@ =~= whole.skip(n as int));
                }
                Json::Object(fields)
            },
            _ => Json::Object(o),
        },
        other => other,
    }
}

/// Merging objects keeps every member of `base` that `overlay` does not name,
/// with its value.
pub proof fn law_merge_keeps_omitted(base: Json, overlay: Json, r: Json, k: Seq<char>)
    requires
        merge_of(base, overlay, r),
        base is Object,
        overlay is Object,
        forall|i: int|
            0 <= i < overlay->Object_0@.len() ==> #[trigger] overlay->Object_0@[i].0@ != k,
    ensures
        r is Object,
        field(r->Object_0@, k) == field(base->Object_0@, k),
{
}

/// Merging objects gives every member of `overlay` whose value is not an
/// object that very value, whether `base` had the member or not.
pub proof fn law_merge_overlay_values_win(base: Json, overlay: Json, r: Json, i: int)
    requires
        merge_of(base, overlay, r),
        base is Object,
        overlay is Object,
        0 <= i < overlay->Object_0@.len(),
        !(overlay->Object_0@[i].1 is Object),
    ensures
        r is Object,
        field(r->Object_0@, overlay->Object_0@[i].0@) == Some(overlay->Object_0@[i].1),
{
    let o = overlay->Object_0@;
    let b = base->Object_0@;
    let m = r->Object_0@;
    match field(b, o[i].0@) {
        Some(bv) => {
            let mv = field(m, o[i].0@)->Some_0;
            assert(merge_of(bv, o[i].1, mv));
        },
        None => {},
    }
}

proof fn lemma_field_replaced(before: Seq<(String, Json)>, after: Seq<(String, Json)>, at: int)
    requires
        0 <= at < before.len(),
        after.len() == before.len(),
        after[at].0@ == before[at].0@,
        forall|i: int| 0 <= i < before.len() && i != at ==> after[i] == before[i],
        forall|i: int| 0 <= i < at ==> before[i].0@ != before[at].0@,
    ensures
        field(after, before[at].0@) == Some(after[at].1),
        forall|k: Seq<char>| k != before[at].0@ ==> #[trigger] field(after, k) == field(before, k),
    decreases before.len(),
{
    if at > 0 {
        lemma_field_replaced(before.drop_first(), after.drop_first(), at - 1);
    }
    assert forall|k: Seq<char>| k != before[at].0@ implies #[trigger] field(after, k) == field(
        before,
        k,
    ) by {
        lemma_field_other(before, after, at, k);
    }
}

proof fn lemma_field_other(
    before: Seq<(String, Json)>,
    after: Seq<(String, Json)>,
    at: int,
    k: Seq<char>,
)
    requires
        0 <= at < before.len(),
        after.len() == before.len(),
        after[at].0@ == before[at].0@,
        forall|i: int| 0 <= i < before.len() && i != at ==> after[i] == before[i],
        k != before[at].0@,
    ensures
        field(after, k) == field(before, k),
    decreases before.len(),
{
    if before.len() > 0 && at > 0 {
        lemma_field_other(before.drop_first(), after.drop_first(), at - 1, k);
    } else if before.len() > 0 {
        assert(before.drop_first() =~= after.drop_first());
    }
}

proof fn lemma_field_appended(before: Seq<(String, Json)>, after: Seq<(String, Json)>, k: Seq<char>)
    requires
        after.len() == before.len() + 1,
        forall|i: int| 0 <= i < before.len() ==> after[i] == before[i],
        field(before, after[before.len() as int].0@) is None,
    ensures
        field(after, after[before.len() as int].0@) == Some(after[before.len() as int].1),
        k != after[before.len() as int].0@ ==> field(after, k) == field(before, k),
    decreases before.len(),
{
    if before.len() > 0 {
        assert(after[0] == before[0]);
        assert(after.drop_first()[before.len() - 1] == after[before.len() as int]);
        lemma_field_appended(before.drop_first(), after.drop_first(), k);
    } else {
        reveal_with_fuel(field, 2);
        assert(after.drop_first().len() == 0);
    }
}

} // verus!
