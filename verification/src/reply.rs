//! Reply handling: extracting the reply text and reported token total from a
//! completion response body, trimming the reply, and the fixed fallback texts
//! used when a response carries no extractable content.

use vstd::prelude::*;
use vstd::string::StrSliceExecFns;
use vstd::string::StringExecFns;

verus! {

/// The characters stripped from both ends of a reply.
pub open spec fn is_pad(c: char) -> bool {
    c == '\r' || c == '\n' || c == ' '
}

/// Length of the maximal padding prefix.
pub open spec fn pad_prefix_len(s: Seq<char>) -> int
    decreases s.len(),
{
    if s.len() == 0 {
        0
    } else if !is_pad(s[0]) {
        0
    } else {
        1 + pad_prefix_len(s.skip(1))
    }
}

/// Length of the maximal padding suffix.
pub open spec fn pad_suffix_len(s: Seq<char>) -> int
    decreases s.len(),
{
    if s.len() == 0 {
        0
    } else if !is_pad(s.last()) {
        0
    } else {
        1 + pad_suffix_len(s.drop_last())
    }
}

/// `s` with the maximal padding prefix and suffix removed.
pub open spec fn trimmed(s: Seq<char>) -> Seq<char> {
    if pad_prefix_len(s) == s.len() {
        Seq::empty()
    } else {
        s.subrange(pad_prefix_len(s), s.len() - pad_suffix_len(s))
    }
}

/// `pad_prefix_len` is pinned by a scan: all padding before `k`, and either
/// the end of the text or a non-padding character at `k`.
proof fn lemma_pad_prefix_eq(s: Seq<char>, k: int)
    requires
        0 <= k <= s.len(),
        forall|j: int| 0 <= j < k ==> is_pad(#[trigger] s[j]),
        k < s.len() ==> !is_pad(s[k]),
    ensures
        pad_prefix_len(s) == k,
    decreases k,
{
    if k == 0 {
    } else {
        lemma_pad_prefix_eq(s.skip(1), k - 1);
        assert(forall|j: int| 0 <= j < s.len() - 1 ==> #[trigger] s.skip(1)[j] == s[j + 1]);
    }
}

/// `pad_suffix_len` is pinned by a scan from the end: all padding in the last
/// `k` characters, and either the start of the text or a non-padding
/// character just before them.
proof fn lemma_pad_suffix_eq(s: Seq<char>, k: int)
    requires
        0 <= k <= s.len(),
        forall|j: int| s.len() - k <= j < s.len() ==> is_pad(#[trigger] s[j]),
        k < s.len() ==> !is_pad(s[s.len() - k - 1]),
    ensures
        pad_suffix_len(s) == k,
    decreases k,
{
    if k == 0 {
    } else {
        lemma_pad_suffix_eq(s.drop_last(), k - 1);
    }
}

/// Strip padding characters (spaces, carriage returns, newlines) from both
/// ends of a reply.
pub fn trim_reply(s: &str) -> (r: String)
    ensures
        r@ == trimmed(s@),
{
    let total = s.unicode_len();
    let mut start: usize = 0;
    while start < total && is_pad_char(s.get_char(start))
        invariant
            0 <= start <= total,
            total == s@.len(),
            forall|j: int| 0 <= j < start ==> is_pad(#[trigger] s@[j]),
        decreases total - start,
    {
        start = start + 1;
    }
    if start == total {
        proof {
            lemma_pad_prefix_eq(s@, total as int);
        }
        return String::new();
    }
    let mut end: usize = total;
    while end > start && is_pad_char(s.get_char(end - 1))
        invariant
            start < end <= total,
            total == s@.len(),
            start < total,
            !is_pad(s@[start as int]),
            forall|j: int| end <= j < total ==> is_pad(#[trigger] s@[j]),
        decreases end,
    {
        end = end - 1;
    }
    proof {
        lemma_pad_prefix_eq(s@, start as int);
        lemma_pad_suffix_eq(s@, total - end as int);
    }
    String::from_str(s.substring_char(start, end))
}

/// Whether this character is stripped from reply ends.
fn is_pad_char(c: char) -> (r: bool)
    ensures
        r == is_pad(c),
{
    c == '\r' || c == '\n' || c == ' '
}

/// The fixed reply given when a completion response carries no extractable
/// content.
pub open spec fn chat_fallback_text() -> Seq<char> {
    "ChatGPT API server didn't respond."@
}

/// The fixed reply given when an image response carries no extractable URL.
pub open spec fn image_fallback_text() -> Seq<char> {
    "DALL·E API server didn't respond."@
}

/// The exact fallback reply text for a contentless completion response.
pub fn chat_fallback() -> (r: String)
    ensures
        r@ == chat_fallback_text(),
{
    String::from_str("ChatGPT API server didn't respond.")
}

/// What a completion response body yields: the reply text found at
/// `choices[0].message.content` together with the total token count found at
/// `usage.total_tokens`, or nothing when either cannot be extracted. A pure
/// function of the body text.
pub uninterp spec fn chat_reply_of(body: Seq<char>) -> Option<(Seq<char>, int)>;

/// What an image response body yields: the URL found at `data[0].url`, or
/// nothing when it cannot be extracted. A pure function of the body text.
pub uninterp spec fn image_url_of(body: Seq<char>) -> Option<Seq<char>>;

/// Relies on `serde_json::from_str` and `serde_json::Value::{get, as_str,
/// as_i64}`: parsing a body and extracting `choices[0].message.content` and
/// `usage.total_tokens` is a pure function of the body text, yielding a
/// string and an `i64` exactly when those fields are present with those
/// types.
#[verifier::external_body]
pub(crate) fn extract_chat_reply(body: &str) -> (r: Option<(String, i64)>)
    ensures
        r is Some <==> chat_reply_of(body@) is Some,
        r matches Some(p) ==> chat_reply_of(body@) matches Some(q) && p.0@ == q.0 && p.1 as int
            == q.1,
{
    let v: serde_json::Value = serde_json::from_str(body).ok()?;
    let content = v.get("choices")?.get(0)?.get("message")?.get("content")?.as_str()?.to_owned();
    let total = v.get("usage")?.get("total_tokens")?.as_i64()?;
    Some((content, total))
}

/// Relies on `serde_json::from_str` and `serde_json::Value::{get, as_str}`:
/// parsing a body and extracting `data[0].url` is a pure function of the body
/// text, yielding a string exactly when that field is present as a string.
#[verifier::external_body]
pub(crate) fn extract_image_url(body: &str) -> (r: Option<String>)
    ensures
        r is Some <==> image_url_of(body@) is Some,
        r matches Some(u) ==> image_url_of(body@) matches Some(q) && u@ == q,
{
    let v: serde_json::Value = serde_json::from_str(body).ok()?;
    Some(v.get("data")?.get(0)?.get("url")?.as_str()?.to_owned())
}

/// The user-visible outcome of an image request: the extracted URL, or the
/// fixed fallback text when the response carries none.
pub fn image_reply(body: &str) -> (r: String)
    ensures
        image_url_of(body@) matches Some(u) ==> r@ == u,
        image_url_of(body@) is None ==> r@ == image_fallback_text(),
{
    match extract_image_url(body) {
        Some(u) => u,
        None => String::from_str("DALL·E API server didn't respond."),
    }
}

} // verus!
