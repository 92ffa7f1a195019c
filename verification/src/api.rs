//! The panel's answers: what an HTTP answer means, and how the three parts of
//! a snapshot (configuration, instances, articles) combine when some of them
//! fail.
//!
//! The launcher keeps the last successful snapshot on disk so it can start
//! (and launch already-installed instances) without a connection.

use vstd::prelude::*;

use crate::config::{user_api, LauncherConfig};
use crate::error::{is_error, AppError};
use crate::json::{json_read, Json};
use crate::models::{
    failure_message, link_view, link_views, ApiFailure, Article, Instance, Link, RemoteConfig,
};
use crate::text::{dec_chars, dec_seq, eq_chars, from_chars, push_all, push_str, to_chars};

verus! {

/// An optional part of the snapshot that could not be fetched.
pub struct PartialError {
    pub part: String,
    pub code: String,
    pub message: String,
}

/// Everything the interface needs from the panel, fetched in one go.
pub struct RemoteSnapshot {
    pub config: RemoteConfig,
    pub instances: Vec<Instance>,
    pub articles: Vec<Article>,
    /// Panel links, or the fallback ones when it has none.
    pub links: Vec<Link>,
    /// Errors of the optional parts (articles, instances) that did not block.
    pub partial_errors: Vec<PartialError>,
    /// Unix timestamp (seconds) of the fetch.
    pub fetched_at: u64,
    /// `true` when served from the disk cache because the panel is unreachable.
    pub stale: bool,
}

/// Index of the first instance with this id, or -1.
pub open spec fn instance_index(instances: Seq<Instance>, id: Seq<char>) -> int
    decreases instances.len(),
{
    if instances.len() == 0 {
        -1
    } else if instances[0].id@ == id {
        0
    } else {
        let k = instance_index(instances.drop_first(), id);
        if k < 0 {
            -1
        } else {
            k + 1
        }
    }
}

proof fn lemma_instance_index(instances: Seq<Instance>, id: Seq<char>, j: int)
    requires
        0 <= j <= instances.len(),
        forall|k: int| 0 <= k < j ==> instances[k].id@ != id,
    ensures
        j < instances.len() && instances[j].id@ == id ==> instance_index(instances, id) == j,
        j == instances.len() ==> instance_index(instances, id) == -1,
    decreases j,
{
    if j > 0 {
        lemma_instance_index(instances.drop_first(), id, j - 1);
    }
}

impl RemoteSnapshot {
    /// The first instance with this id.
    pub fn instance(&self, id: &str) -> (r: Option<&Instance>)
        ensures
            match r {
                Some(i) => instance_index(self.instances@, id@) >= 0 && *i
                    == self.instances@[instance_index(self.instances@, id@)],
                None => instance_index(self.instances@, id@) < 0,
            },
    {
        let wanted = to_chars(id);
        let mut i: usize = 0;
        while i < self.instances.len()
            invariant
                i <= self.instances@.len(),
                wanted@ == id@,
                forall|k: int| 0 <= k < i ==> self.instances@[k].id@ != id@,
            decreases self.instances@.len() - i,
        {
            if eq_chars(&to_chars(self.instances[i].id.as_str()), &wanted) {
                proof {
                    lemma_instance_index(self.instances@, id@, i as int);
                }
                return Some(&self.instances[i]);
            }
            i += 1;
        }
        proof {
            lemma_instance_index(self.instances@, id@, i as int);
        }
        None
    }
}

// ── Answers ─────────────────────────────────────────────────────────────────

/// The code of an answer whose body is not JSON.
pub open spec fn unreadable_code(status: u16) -> Seq<char> {
    if status >= 500 {
        "api_unavailable"@
    } else if status == 404 {
        "api_not_found"@
    } else if status == 429 {
        "api_rate_limited"@
    } else {
        "api_invalid"@
    }
}

/// The code of a JSON answer whose status is not a success.
pub open spec fn refused_code(status: u16) -> Seq<char> {
    if status == 404 {
        "api_not_found"@
    } else if status == 429 {
        "api_rate_limited"@
    } else if 500 <= status <= 599 {
        "api_unavailable"@
    } else {
        "api_invalid"@
    }
}

/// What an answer of the panel means: its JSON document, or the error the
/// interface is told, as a code and a message.
pub open spec fn answer_of(status: u16, body: Seq<u8>) -> Result<Json, (Seq<char>, Seq<char>)> {
    match json_read(body) {
        Err(reason) => Err(
            (unreadable_code(status), "status "@ + dec_seq(status as nat) + ": "@ + reason),
        ),
        Ok(value) => match failure_message(value) {
            Some(message) => Err(("api_error"@, message)),
            None => if 200 <= status < 300 {
                Ok(value)
            } else {
                Err((refused_code(status), "status "@ + dec_seq(status as nat)))
            },
        },
    }
}

/// Reads an answer of the panel: the body must be JSON, must not be the
/// panel's failure shape, and the status must be a success.
pub fn read_answer(status: u16, body: &[u8]) -> (r: Result<Json, AppError>)
    ensures
        match r {
            Ok(j) => answer_of(status, body@) == Ok::<Json, (Seq<char>, Seq<char>)>(j),
            Err(e) => answer_of(status, body@) is Err && e.details is None && (e.code@, e.message@)
                == answer_of(status, body@)->Err_0,
        },
{
    let value = match Json::read(body) {
        Ok(v) => v,
        Err(reason) => {
            let code = if status >= 500 {
                "api_unavailable"
            } else if status == 404 {
                "api_not_found"
            } else if status == 429 {
                "api_rate_limited"
            } else {
                "api_invalid"
            };
            let mut m = to_chars("status ");
            push_all(&mut m, &dec_chars(status as u64));
            push_str(&mut m, ": ");
            push_str(&mut m, reason.as_str());
            let message = from_chars(&m);
            return Err(AppError::new(code, message.as_str()));
        },
    };
    match ApiFailure::detect(&value) {
        Some(message) => {
            return Err(AppError::new("api_error", message.as_str()));
        },
        None => {},
    }
    if !(200 <= status && status < 300) {
        let code = if status == 404 {
            "api_not_found"
        } else if status == 429 {
            "api_rate_limited"
        } else if 500 <= status && status <= 599 {
            "api_unavailable"
        } else {
            "api_invalid"
        };
        let mut m = to_chars("status ");
        push_all(&mut m, &dec_chars(status as u64));
        let message = from_chars(&m);
        return Err(AppError::new(code, message.as_str()));
    }
    Ok(value)
}

// ── Snapshots ───────────────────────────────────────────────────────────────

pub open spec fn partial_view(p: PartialError) -> (Seq<char>, Seq<char>, Seq<char>) {
    (p.part@, p.code@, p.message@)
}

pub open spec fn partial_views(v: Seq<PartialError>) -> Seq<(Seq<char>, Seq<char>, Seq<char>)> {
    v.map_values(|p: PartialError| partial_view(p))
}

/// The partial error recorded for a part that failed with `e`.
pub open spec fn failed_part(part: Seq<char>, e: AppError) -> (Seq<char>, Seq<char>, Seq<char>) {
    (part, e.code@, e.message@)
}

fn partial(part: &str, e: &AppError) -> (r: PartialError)
    ensures
        partial_view(r) == failed_part(part@, *e),
{
    PartialError { part: part.to_owned(), code: e.code.clone(), message: e.message.clone() }
}

fn copy_link(l: &Link) -> (r: Link)
    ensures
        link_view(r) == link_view(*l),
{
    Link {
        label: l.label.clone(),
        url: l.url.clone(),
        icon: match &l.icon {
            Some(i) => Some(i.clone()),
            None => None,
        },
        order: l.order,
    }
}

fn copy_links(v: &Vec<Link>) -> (r: Vec<Link>)
    ensures
        link_views(r@) == link_views(v@),
{
    let mut r: Vec<Link> = Vec::new();
    let mut i: usize = 0;
    while i < v.len()
        invariant
            i <= v@.len(),
            link_views(r@) == link_views(v@.take(i as int)),
        decreases v@.len() - i,
    {
        let ghost before = r@;
        let l = copy_link(&v[i]);
        r.push(l);
        assert(r@ =~= before.push(l));
        assert(v@.take(i + 1) =~= v@.take(i as int).push(v@[i as int]));
        assert(link_views(r@) =~= link_views(before).push(link_view(l)));
        assert(link_views(v@.take(i + 1)) =~= link_views(v@.take(i as int)).push(
            link_view(v@[i as int]),
        ));
        assert(link_views(r@) =~= link_views(v@.take(i + 1)));
        i += 1;
    }
    assert(v@.take(i as int) =~= v@);
    r
}

/// Combines the three parts of a fetch. The configuration is mandatory: when
/// it fails, the cached snapshot is served, marked stale, with the failure
/// recorded (or the failure itself without a cache). A failed instances list
/// falls back to the cached one, failed articles to none; both are recorded.
/// Panel links, or `fallback_links` when the panel publishes none. The flag
/// says whether the snapshot is fresh (and so to be kept on disk).
pub fn combine_snapshot(
    config: Result<RemoteConfig, AppError>,
    instances: Result<Vec<Instance>, AppError>,
    articles: Result<Vec<Article>, AppError>,
    cached: Option<RemoteSnapshot>,
    fallback_links: Vec<Link>,
    now: u64,
) -> (r: Result<(RemoteSnapshot, bool), AppError>)
    ensures
        match config {
            Err(e) => match cached {
                None => r == Err::<(RemoteSnapshot, bool), AppError>(e),
                Some(c) => r matches Ok((s, fresh)) && {
                    &&& !fresh
                    &&& s.stale
                    &&& s.config == c.config
                    &&& s.instances == c.instances
                    &&& s.articles == c.articles
                    &&& s.links == c.links
                    &&& s.fetched_at == c.fetched_at
                    &&& partial_views(s.partial_errors@) == partial_views(c.partial_errors@).push(
                        failed_part("config"@, e),
                    )
                },
            },
            Ok(cfg) => r matches Ok((s, fresh)) && {
                &&& fresh
                &&& !s.stale
                &&& s.fetched_at == now
                &&& s.config == cfg
                &&& match instances {
                    Ok(v) => s.instances == v,
                    Err(_) => match cached {
                        Some(c) => s.instances == c.instances,
                        None => s.instances@.len() == 0,
                    },
                }
                &&& (articles matches Ok(v) ==> s.articles == v)
                &&& (articles is Err ==> s.articles@.len() == 0)
                &&& link_views(s.links@) == if cfg.links@.len() == 0 {
                    link_views(fallback_links@)
                } else {
                    link_views(cfg.links@)
                }
                &&& partial_views(s.partial_errors@) == (match instances {
                    Ok(_) => Seq::empty(),
                    Err(e) => seq![failed_part("instances"@, e)],
                }) + (match articles {
                    Ok(_) => Seq::empty(),
                    Err(e) => seq![failed_part("articles"@, e)],
                })
            },
        },
{
    let config = match config {
        Ok(c) => c,
        Err(e) => {
            return match cached {
                Some(c) => {
                    let mut c = c;
                    let ghost before = c.partial_errors@;
                    let p = partial("config", &e);
                    c.partial_errors.push(p);
                    assert(partial_views(c.partial_errors@) =~= partial_views(before).push(
                        partial_view(p),
                    ));
                    c.stale = true;
                    Ok((c, false))
                },
                None => Err(e),
            };
        },
    };
    let mut partial_errors: Vec<PartialError> = Vec::new();
    let ghost mut expected: Seq<(Seq<char>, Seq<char>, Seq<char>)> = Seq::empty();
    let instances = match instances {
        Ok(v) => v,
        Err(e) => {
            let p = partial("instances", &e);
            partial_errors.push(p);
            proof {
                expected = seq![failed_part("instances"@, e)];
            }
            assert(partial_views(partial_errors@) =~= expected);
            match cached {
                Some(c) => c.instances,
                None => Vec::new(),
            }
        },
    };
    assert(partial_views(partial_errors@) =~= expected);
    let articles = match articles {
        Ok(v) => v,
        Err(e) => {
            let ghost before = partial_errors@;
            let p = partial("articles", &e);
            partial_errors.push(p);
            assert(partial_views(partial_errors@) =~= partial_views(before).push(
                partial_view(p),
            ));
            proof {
                expected = expected + seq![failed_part("articles"@, e)];
            }
            Vec::new()
        },
    };
    let links = if config.links.len() == 0 {
        fallback_links
    } else {
        copy_links(&config.links)
    };
    let snapshot = RemoteSnapshot {
        config,
        instances,
        articles,
        links,
        partial_errors,
        fetched_at: now,
        stale: false,
    };
    Ok((snapshot, true))
}


// ── The panel's routes ──────────────────────────────────────────────────────

/// The panel's client: the routes under `{baseUrl}/user/{userId}` and the
/// timeout of each request. The requests themselves are the application's.
pub struct LuuxCraftApi {
    base_url: String,
    timeout_seconds: u64,
}

/// A request waits between 3 s and 2 min, whatever the configuration says.
pub open spec fn request_timeout(configured: u64) -> u64 {
    if configured < 3 {
        3
    } else if configured > 120 {
        120
    } else {
        configured
    }
}

impl LuuxCraftApi {
    pub closed spec fn base(&self) -> Seq<char> {
        self.base_url@
    }

    pub closed spec fn timeout(&self) -> u64 {
        self.timeout_seconds
    }

    pub fn new(config: &LauncherConfig) -> (r: LuuxCraftApi)
        ensures
            r.base() == user_api(config.api.base_url@, config.user_id@),
            r.timeout() == request_timeout(config.api.timeout_seconds),
    {
        let t = config.api.timeout_seconds;
        LuuxCraftApi {
            base_url: config.user_api_url(),
            timeout_seconds: if t < 3 {
                3
            } else if t > 120 {
                120
            } else {
                t
            },
        }
    }

    pub fn timeout_seconds(&self) -> (r: u64)
        ensures
            r == self.timeout(),
    {
        self.timeout_seconds
    }

    fn route(&self, tail: &str) -> (r: String)
        ensures
            r@ == self.base() + tail@,
    {
        let mut url = to_chars(self.base_url.as_str());
        push_str(&mut url, tail);
        from_chars(&url)
    }

    /// `GET {base}/config`.
    pub fn config_url(&self) -> (r: String)
        ensures
            r@ == self.base() + "/config"@,
    {
        self.route("/config")
    }

    /// `GET {base}/articles?limit={limit}`.
    pub fn articles_url(&self, limit: u32) -> (r: String)
        ensures
            r@ == self.base() + "/articles?limit="@ + dec_seq(limit as nat),
    {
        let mut url = to_chars(self.base_url.as_str());
        push_str(&mut url, "/articles?limit=");
        let digits = dec_chars(limit as u64);
        push_all(&mut url, &digits);
        from_chars(&url)
    }

    /// `GET {base}/instances`.
    pub fn instances_url(&self) -> (r: String)
        ensures
            r@ == self.base() + "/instances"@,
    {
        self.route("/instances")
    }
}

/// What `GET /config` gives: the configuration, or why the answer is not one.
pub fn config_from(value: Json) -> (r: Result<RemoteConfig, AppError>)
    ensures
        match r {
            Ok(c) => crate::models::config_of(value) == Some(crate::models::config_view(c)),
            Err(e) => crate::models::config_of(value) is None && is_error(
                e,
                "api_invalid"@,
                "config is not a JSON object"@,
            ),
        },
{
    match RemoteConfig::from_value(value) {
        Ok(c) => Ok(c),
        Err(reason) => Err(AppError::new("api_invalid", reason.as_str())),
    }
}

/// What `GET /articles` gives: the articles, newest first, or why the answer
/// is not a list.
pub fn articles_from(value: Json) -> (r: Result<Vec<Article>, AppError>)
    ensures
        match r {
            Ok(v) => crate::models::article_list(value) is Some && crate::models::article_views(v@)
                == crate::models::sort_gt(
                crate::models::articles_of_items(crate::models::article_list(value).unwrap()),
                crate::models::article_gt(),
            ),
            Err(e) => crate::models::article_list(value) is None && is_error(
                e,
                "api_invalid"@,
                "articles response is not a list"@,
            ),
        },
{
    match Article::list_from_value(value) {
        Ok(v) => Ok(v),
        Err(reason) => Err(AppError::new("api_invalid", reason.as_str())),
    }
}


/// What `GET /instances` gives: the instances in their display order, or
/// why the answer is not an object.
pub fn instances_from(value: Json) -> (r: Result<Vec<Instance>, AppError>)
    ensures
        match r {
            Ok(v) => crate::models::instance_entries(value) is Some
                && crate::models::instance_views(v@) == crate::models::sort_gt(
                crate::models::instances_of_entries(crate::models::instance_entries(value).unwrap()),
                crate::models::instance_gt(),
            ),
            Err(e) => crate::models::instance_entries(value) is None && is_error(
                e,
                "api_invalid"@,
                "instances response is not an object"@,
            ),
        },
{
    match Instance::list_from_value(value) {
        Ok(v) => Ok(v),
        Err(reason) => Err(AppError::new("api_invalid", reason.as_str())),
    }
}

} // verus!
