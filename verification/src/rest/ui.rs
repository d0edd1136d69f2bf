//! Serving the embedded single-page app: which asset a path maps to and the
//! headers it is served with.
use vstd::prelude::*;
use crate::text::{chars_of, string_from_chars};

verus! {

/// `s` without its leading `/` characters (`trim_start_matches('/')`).
pub open spec fn trim_leading_slashes(s: Seq<char>) -> Seq<char>
    decreases s.len(),
{
    if s.len() > 0 && s[0] == '/' {
        trim_leading_slashes(s.drop_first())
    } else {
        s
    }
}

/// The asset key of a request path: the path without leading slashes, or
/// `index.html` when that leaves nothing.
pub open spec fn asset_key_of(path: Seq<char>) -> Seq<char> {
    let t = trim_leading_slashes(path);
    if t.len() == 0 { "index.html"@ } else { t }
}

proof fn lemma_trim_leading(s: Seq<char>, i: int)
    requires
        0 <= i <= s.len(),
        forall|j: int| 0 <= j < i ==> #[trigger] s[j] == '/',
    ensures
        trim_leading_slashes(s) == trim_leading_slashes(s.skip(i)),
    decreases i,
{
    if i > 0 {
        lemma_trim_leading(s.drop_first(), i - 1);
        assert(s.drop_first().skip(i - 1) =~= s.skip(i));
    } else {
        assert(s.skip(0) =~= s);
    }
}

/// The asset key a request path asks for.
pub fn asset_key(path: &str) -> (k: String)
    ensures
        k@ == asset_key_of(path@),
{
    let cs = chars_of(path);
    let n = cs.len();
    let mut i: usize = 0;
    while i < n && cs[i] == '/'
        invariant
            n == cs@.len(),
            i <= n,
            forall|j: int| 0 <= j < i ==> #[trigger] cs@[j] == '/',
        decreases n - i,
    {
        i = i + 1;
    }
    proof {
        lemma_trim_leading(cs@, i as int);
        assert(trim_leading_slashes(cs@.skip(i as int)) == cs@.skip(i as int));
    }
    if i == n {
        proof {
            assert(cs@.skip(i as int).len() == 0);
        }
        return String::from_str("index.html");
    }
    let rest = string_from_chars(&cs.as_slice()[i..n]);
    proof {
        assert(rest@ =~= cs@.skip(i as int));
    }
    rest
}

/// What a UI request is answered with.
#[derive(Debug, Clone, Copy, PartialEq, Eq, Structural)]
pub enum UiResponse {
    /// The asset under the requested key.
    Asset,
    /// The single-page app's index (a client-side route).
    Index,
    /// 404: a missing asset.
    NotFound,
}

/// Exact asset matches first; then the index for keys that look like
/// routes (no `.`); anything else that is missing is a 404.
pub open spec fn ui_response(key: Seq<char>, has_asset: bool, has_index: bool) -> UiResponse {
    if has_asset {
        UiResponse::Asset
    } else if !key.contains('.') && has_index {
        UiResponse::Index
    } else {
        UiResponse::NotFound
    }
}

/// Decides a UI request for `key`, given whether an asset of that key and
/// an index exist.
pub fn plan_ui(key: &str, has_asset: bool, has_index: bool) -> (r: UiResponse)
    ensures
        r == ui_response(key@, has_asset, has_index),
{
    if has_asset {
        return UiResponse::Asset;
    }
    let cs = chars_of(key);
    let mut has_dot = false;
    for i in 0..cs.len()
        invariant
            cs@ == key@,
            has_dot <==> exists|j: int| 0 <= j < i && #[trigger] cs@[j] == '.',
    {
        if cs[i] == '.' {
            has_dot = true;
        }
    }
    if !has_dot && has_index {
        UiResponse::Index
    } else {
        UiResponse::NotFound
    }
}

/// The MIME type `mime_guess` gives a path (by its extension, or
/// `application/octet-stream` when it knows none).
pub uninterp spec fn guessed_mime(path: Seq<char>) -> Seq<char>;

/// The MIME type of a path: `mime_guess::from_path(..).first_or_octet_stream()`
/// rendered as text. The result is claimed to be that crate's guess for the
/// path and nothing more.
#[verifier::external_body]
fn guess_mime(path: &str) -> (m: String)
    ensures
        m@ == guessed_mime(path@),
{
    mime_guess::from_path(path).first_or_octet_stream().as_ref().to_string()
}

/// The headers an asset is served with.
pub struct AssetHeaders {
    pub content_type: String,
    /// Set for content-hashed build assets, which never change.
    pub cache_control: Option<String>,
}

/// Whether an asset lives under `assets/`, where file names carry a content hash.
pub open spec fn is_hashed_asset(key: Seq<char>) -> bool {
    key.len() >= 7 && key.subrange(0, 7) == "assets/"@
}

/// The cache policy of hashed assets.
pub open spec fn immutable_cache_control() -> Seq<char> {
    "public, max-age=31536000, immutable"@
}

/// The headers for the asset under `key`: its guessed MIME type, and a
/// year-long immutable cache policy for hashed build assets.
pub fn asset_headers(key: &str) -> (h: AssetHeaders)
    ensures
        h.content_type@ == guessed_mime(key@),
        is_hashed_asset(key@) ==> (h.cache_control matches Some(c) && c@ == immutable_cache_control()),
        !is_hashed_asset(key@) ==> h.cache_control is None,
{
    let content_type = guess_mime(key);
    let cs = chars_of(key);
    let prefix = chars_of("assets/");
    proof {
        reveal_strlit("assets/");
    }
    let mut hashed = cs.len() >= 7;
    let mut i: usize = 0;
    while hashed && i < 7
        invariant
            cs@ == key@,
            prefix@ == "assets/"@,
            prefix@.len() == 7,
            i <= 7,
            hashed ==> cs@.len() >= 7 && forall|j: int| 0 <= j < i ==> cs@[j] == prefix@[j],
            !hashed ==> !is_hashed_asset(key@),
        decreases 8 - i - (if hashed { 0int } else { 1int }),
    {
        if cs[i] != prefix[i] {
            proof {
                assert(cs@.subrange(0, 7)[i as int] != prefix@[i as int]);
            }
            hashed = false;
        } else {
            i = i + 1;
        }
    }
    proof {
        if hashed {
            assert(cs@.subrange(0, 7) =~= prefix@);
        }
    }
    let cache_control = if hashed {
        Some(String::from_str("public, max-age=31536000, immutable"))
    } else {
        None
    };
    AssetHeaders { content_type, cache_control }
}

/// How every UI request is answered: an existing asset is served as it is;
/// otherwise a key with no `.` anywhere (a client-side route such as
/// `regions` or `regions/england`) gets the index whenever there is one; a
/// key with a `.` (a missing file) or a request with no index is a 404.
pub proof fn lemma_ui_answers(key: Seq<char>, has_asset: bool, has_index: bool)
    ensures
        has_asset ==> ui_response(key, has_asset, has_index) == UiResponse::Asset,
        (!has_asset && has_index && forall|j: int| 0 <= j < key.len() ==> #[trigger] key[j] != '.')
            ==> ui_response(key, has_asset, has_index) == UiResponse::Index,
        (!has_asset && exists|j: int| 0 <= j < key.len() && #[trigger] key[j] == '.') ==> ui_response(
            key,
            has_asset,
            has_index,
        ) == UiResponse::NotFound,
        (!has_asset && !has_index) ==> ui_response(key, has_asset, has_index) == UiResponse::NotFound,
{
}

/// The asset key of a request path drops exactly its leading slashes: a
/// path of only slashes (or empty) asks for `index.html`, any other path
/// for what follows its leading slashes, which never starts with `/`.
pub proof fn lemma_asset_key(path: Seq<char>, i: int)
    requires
        0 <= i <= path.len(),
        forall|j: int| 0 <= j < i ==> #[trigger] path[j] == '/',
        i == path.len() || path[i] != '/',
    ensures
        i == path.len() ==> asset_key_of(path) == "index.html"@,
        i < path.len() ==> asset_key_of(path) == path.skip(i),
        asset_key_of(path).len() > 0,
        asset_key_of(path)[0] != '/',
{
    lemma_trim_leading(path, i);
    assert(trim_leading_slashes(path.skip(i)) == path.skip(i));
    reveal_strlit("index.html");
}

/// An asset gets the immutable cache policy exactly when its key is
/// `assets/` followed by anything.
pub proof fn lemma_hashed_assets(key: Seq<char>)
    ensures
        is_hashed_asset(key) <==> exists|rest: Seq<char>| key == "assets/"@ + rest,
{
    reveal_strlit("assets/");
    if is_hashed_asset(key) {
        assert(key == "assets/"@ + key.skip(7));
    }
    if exists|rest: Seq<char>| key == "assets/"@ + rest {
        let rest = choose|rest: Seq<char>| key == "assets/"@ + rest;
        assert(key.subrange(0, 7) =~= "assets/"@);
    }
}

} // verus!
