//! Small shared helpers: secret redaction and Java version numbers.

use vstd::prelude::*;

use crate::text::{
    contains, from_chars, lemma_split_nonempty, occurs_at, parse_u32, replace, replace_all,
    replace_from, spec_contains, spec_parse_u32, split, split_seq, string_views, to_chars, trim,
    trim_chars, views,
};

verus! {

/// What stands in for a secret once redacted.
pub const PLACEHOLDER: &'static str = "????????";

/// Length of a string in UTF-8 bytes (`str::len`).
pub open spec fn utf8_len(s: Seq<char>) -> nat {
    vstd::utf8::encode_utf8(s).len()
}

/// `text` with each secret of at least 8 bytes replaced by the placeholder,
/// the secrets taken in order.
pub open spec fn redact_seq(text: Seq<char>, secrets: Seq<Seq<char>>) -> Seq<char>
    decreases secrets.len(),
{
    if secrets.len() == 0 {
        text
    } else {
        let prev = redact_seq(text, secrets.drop_last());
        let secret = secrets.last();
        if utf8_len(secret) >= 8 && spec_contains(prev, secret) {
            replace_all(prev, secret, PLACEHOLDER@)
        } else {
            prev
        }
    }
}

/// Replaces every secret with a placeholder. Used on anything that may reach
/// the logs or the UI (game output, command lines).
pub fn redact(text: &str, secrets: &[String]) -> (r: String)
    ensures
        r@ == redact_seq(text@, string_views(secrets@)),
{
    let mut redacted = to_chars(text);
    let placeholder = to_chars(PLACEHOLDER);
    let mut i: usize = 0;
    while i < secrets.len()
        invariant
            i <= secrets@.len(),
            placeholder@ == PLACEHOLDER@,
            redacted@ == redact_seq(text@, string_views(secrets@.take(i as int))),
        decreases secrets@.len() - i,
    {
        let secret = secrets[i].as_str();
        let chars = to_chars(secret);
        proof {
            assert(string_views(secrets@.take(i + 1)).drop_last() =~= string_views(
                secrets@.take(i as int),
            ));
            assert(string_views(secrets@.take(i + 1)).last() == secrets@[i as int]@);
        }
        let ghost prev = redacted@;
        let long = secret.as_bytes().len() >= 8;
        assert(long == (utf8_len(chars@) >= 8));
        if long && contains(&redacted, &chars) {
            assert(chars@.len() > 0) by {
                if chars@.len() == 0 {
                    assert(vstd::utf8::encode_utf8(chars@) =~= Seq::<u8>::empty());
                }
            }
            redacted = replace(&redacted, &chars, &placeholder);
        }
        assert(redacted@ == redact_seq(text@, string_views(secrets@.take(i + 1))));
        i += 1;
    }
    assert(secrets@.take(i as int) =~= secrets@);
    from_chars(&redacted)
}

/// The major version of a Java version string.
pub open spec fn spec_java_major(version: Seq<char>) -> Option<u32> {
    let parts = split_seq(trim(version), seq!['.', '_', '-', '+']);
    match spec_parse_u32(parts[0]) {
        None => None,
        Some(first) => if first == 1 {
            if parts.len() > 1 {
                spec_parse_u32(parts[1])
            } else {
                None
            }
        } else {
            Some(first)
        },
    }
}

/// `1.8.0_392` → 8, `17.0.9` → 17, `21` → 21.
pub fn java_major(version: &str) -> (r: Option<u32>)
    ensures
        r == spec_java_major(version@),
{
    let chars = to_chars(version);
    let trimmed = trim_chars(&chars);
    let seps = vec!['.', '_', '-', '+'];
    assert(seps@ =~= seq!['.', '_', '-', '+']);
    let parts = split(&trimmed, &seps);
    proof {
        lemma_split_nonempty(trimmed@, seps@);
        assert(views(parts@)[0] == parts@[0]@);
    }
    let first = parse_u32(&parts[0])?;
    if first == 1 {
        if parts.len() > 1 {
            assert(views(parts@)[1] == parts@[1]@);
            parse_u32(&parts[1])
        } else {
            None
        }
    } else {
        Some(first)
    }
}

/// The current time, in seconds since the Unix epoch (0 for a clock set
/// before it). Nothing is promised of the value: it is the machine's clock.
#[verifier::external_body]
pub fn unix_now() -> u64 {
    std::time::SystemTime::now()
        .duration_since(std::time::UNIX_EPOCH)
        .map(|d| d.as_secs())
        .unwrap_or(0)
}


// ── Redaction removes the secrets ───────────────────────────────────────────

/// Every character of `w` is the placeholder's.
pub open spec fn all_marks(w: Seq<char>) -> bool {
    forall|t: int| 0 <= t < w.len() ==> #[trigger] w[t] == '?'
}

/// A stretch of the replaced text without placeholder characters is a copy
/// of the input text at the scanner's position.
proof fn lemma_copied_prefix(s: Seq<char>, n: Seq<char>, w: Seq<char>, i: int, m: int)
    requires
        0 <= i <= s.len(),
        n.len() > 0,
        w.len() > 0,
        all_marks(w),
        0 <= m <= replace_from(s, n, w, i).len(),
        forall|t: int| 0 <= t < m ==> #[trigger] replace_from(s, n, w, i)[t] != '?',
    ensures
        i + m <= s.len(),
        replace_from(s, n, w, i).subrange(0, m) == s.subrange(i, i + m),
    decreases m,
{
    let r = replace_from(s, n, w, i);
    if m > 0 {
        if i >= s.len() {
            assert(r.len() == 0);
        } else if occurs_at(s, n, i) {
            assert(r[0] == w[0]);
        } else {
            let rest = replace_from(s, n, w, i + 1);
            assert(r == seq![s[i]] + rest);
            assert forall|t: int| 0 <= t < m - 1 implies #[trigger] rest[t] != '?' by {
                assert(r[t + 1] == rest[t]);
            }
            lemma_copied_prefix(s, n, w, i + 1, m - 1);
            assert(r.subrange(0, m) =~= seq![s[i]] + rest.subrange(0, m - 1));
            assert(s.subrange(i, i + m) =~= seq![s[i]] + s.subrange(i + 1, i + m));
        }
    } else {
        assert(r.subrange(0, 0) =~= s.subrange(i, i));
    }
}

/// Replacing `n` by placeholder characters creates no occurrence of a text
/// free of them, and leaves none of `n` itself.
proof fn lemma_no_occurrence(s: Seq<char>, n: Seq<char>, w: Seq<char>, i: int, x: Seq<char>)
    requires
        0 <= i,
        n.len() > 0,
        w.len() > 0,
        all_marks(w),
        x.len() > 0,
        !x.contains('?'),
        x == n || forall|j: int| i <= j ==> !occurs_at(s, x, j),
    ensures
        forall|j: int| !occurs_at(replace_from(s, n, w, i), x, j),
    decreases s.len() - i,
{
    let r = replace_from(s, n, w, i);
    if i >= s.len() {
        assert(r.len() == 0);
    } else if occurs_at(s, n, i) {
        let rest = replace_from(s, n, w, i + n.len());
        lemma_no_occurrence(s, n, w, i + n.len(), x);
        assert(r == w + rest);
        assert forall|j: int| !occurs_at(r, x, j) by {
            if occurs_at(r, x, j) {
                if j < w.len() {
                    assert(r.subrange(j, j + x.len())[0] == r[j]);
                    assert(r[j] == w[j]);
                    assert(x[0] == '?');
                } else {
                    assert(r.subrange(j, j + x.len()) =~= rest.subrange(
                        j - w.len(),
                        j - w.len() + x.len(),
                    ));
                    assert(occurs_at(rest, x, j - w.len()));
                }
            }
        }
    } else {
        let rest = replace_from(s, n, w, i + 1);
        lemma_no_occurrence(s, n, w, i + 1, x);
        assert(r == seq![s[i]] + rest);
        assert forall|j: int| !occurs_at(r, x, j) by {
            if occurs_at(r, x, j) {
                if j >= 1 {
                    assert(r.subrange(j, j + x.len()) =~= rest.subrange(j - 1, j - 1 + x.len()));
                    assert(occurs_at(rest, x, j - 1));
                } else {
                    let m = x.len() - 1;
                    assert forall|t: int| 0 <= t < m implies #[trigger] rest[t] != '?' by {
                        assert(r.subrange(0, x.len() as int)[t + 1] == x[t + 1]);
                        assert(r[t + 1] == rest[t]);
                        if rest[t] == '?' {
                            assert(x[t + 1] == '?');
                            assert(x.contains('?'));
                        }
                    }
                    lemma_copied_prefix(s, n, w, i + 1, m);
                    assert(r.subrange(0, x.len() as int) =~= seq![s[i]] + rest.subrange(0, m));
                    assert(s.subrange(i, i + x.len()) =~= seq![s[i]] + s.subrange(i + 1, i + 1 + m));
                    assert(occurs_at(s, x, i));
                }
            }
        }
    }
}

/// Redaction removes every secret of at least 8 bytes: none occurs in the
/// redacted text. A secret holding the placeholder's `?` is left out of the
/// promise, since the placeholder itself could spell it.
pub proof fn law_redacted_text_holds_no_secret(text: Seq<char>, secrets: Seq<Seq<char>>, k: int)
    requires
        0 <= k < secrets.len(),
        utf8_len(secrets[k]) >= 8,
        !secrets[k].contains('?'),
    ensures
        !spec_contains(redact_seq(text, secrets), secrets[k]),
    decreases secrets.len(),
{
    reveal_strlit("????????");
    let x = secrets[k];
    assert(x.len() > 0) by {
        if x.len() == 0 {
            assert(vstd::utf8::encode_utf8(x) =~= Seq::<u8>::empty());
        }
    }
    let prev = redact_seq(text, secrets.drop_last());
    let last = secrets.last();
    let w = PLACEHOLDER@;
    assert(all_marks(w));
    if k < secrets.len() - 1 {
        assert(secrets.drop_last()[k] == x);
        law_redacted_text_holds_no_secret(text, secrets.drop_last(), k);
        if utf8_len(last) >= 8 && spec_contains(prev, last) {
            assert(last.len() > 0) by {
                if last.len() == 0 {
                    assert(vstd::utf8::encode_utf8(last) =~= Seq::<u8>::empty());
                }
            }
            lemma_no_occurrence(prev, last, w, 0, x);
        }
    } else {
        assert(last == x);
        if spec_contains(prev, last) {
            lemma_no_occurrence(prev, x, w, 0, x);
        }
    }
}

} // verus!
