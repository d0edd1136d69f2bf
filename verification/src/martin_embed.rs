//! The reverse proxy in front of the embedded tile server: which headers are
//! forwarded each way. Header names are in the lowercase form HTTP header
//! maps keep them in.
use vstd::prelude::*;
use crate::text::{concat, str_eq};

verus! {

/// The embedded tile server could not be reached.
#[derive(Debug)]
pub enum TileProxyError {
    Unreachable(String),
}

impl TileProxyError {
    /// The human-readable message of the error.
    pub fn message(&self) -> (m: String)
        ensures
            match self {
                TileProxyError::Unreachable(e) => m@ == "tile server unreachable: "@ + e@,
            },
    {
        match self {
            TileProxyError::Unreachable(e) => concat("tile server unreachable: ", e.as_str()),
        }
    }
}

/// One header of a request or response: its (lowercase) name and raw value.
pub struct Header {
    pub name: String,
    pub value: Vec<u8>,
}

/// A header as its name and value.
pub type HeaderView = (Seq<char>, Seq<u8>);

/// The headers as names and values, in order.
pub open spec fn header_views(hs: Seq<Header>) -> Seq<HeaderView> {
    hs.map_values(|h: Header| (h.name@, h.value@))
}

/// Connection-level headers that a proxy must not forward.
pub open spec fn is_hop_by_hop(name: Seq<char>) -> bool {
    ||| name == "connection"@
    ||| name == "proxy-authenticate"@
    ||| name == "proxy-authorization"@
    ||| name == "te"@
    ||| name == "trailer"@
    ||| name == "transfer-encoding"@
    ||| name == "upgrade"@
}

/// The headers without the hop-by-hop ones, in order.
pub open spec fn strip_hop(hs: Seq<HeaderView>) -> Seq<HeaderView>
    decreases hs.len(),
{
    if hs.len() == 0 {
        hs
    } else if is_hop_by_hop(hs.last().0) {
        strip_hop(hs.drop_last())
    } else {
        strip_hop(hs.drop_last()).push(hs.last())
    }
}

/// The headers without any named `name`, in order.
pub open spec fn drop_named(hs: Seq<HeaderView>, name: Seq<char>) -> Seq<HeaderView>
    decreases hs.len(),
{
    if hs.len() == 0 {
        hs
    } else if hs.last().0 == name {
        drop_named(hs.drop_last(), name)
    } else {
        drop_named(hs.drop_last(), name).push(hs.last())
    }
}

/// Whether some header is named `name`.
pub open spec fn has_named(hs: Seq<HeaderView>, name: Seq<char>) -> bool {
    exists|i: int| 0 <= i < hs.len() && #[trigger] hs[i].0 == name
}

/// The value of the first header named `name`, if any.
pub open spec fn first_named(hs: Seq<HeaderView>, name: Seq<char>) -> Option<Seq<u8>>
    decreases hs.len(),
{
    if hs.len() == 0 {
        None
    } else if hs[0].0 == name {
        Some(hs[0].1)
    } else {
        first_named(hs.drop_first(), name)
    }
}

/// The headers forwarded to the tile server: the client's headers without
/// hop-by-hop ones; `x-forwarded-host` set from `host` when absent (and a
/// host is given); `x-forwarded-proto: http` when absent; and no `host`.
pub open spec fn forwarded_request_headers(hs: Seq<HeaderView>) -> Seq<HeaderView> {
    let s = strip_hop(hs);
    let s1 = if !has_named(s, "x-forwarded-host"@) && first_named(s, "host"@) is Some {
        s.push(("x-forwarded-host"@, first_named(s, "host"@)->0))
    } else {
        s
    };
    let s2 = if !has_named(s1, "x-forwarded-proto"@) {
        s1.push(("x-forwarded-proto"@, "http"@.map_values(|c: char| c as u8)))
    } else {
        s1
    };
    drop_named(s2, "host"@)
}

/// Whether a header name is hop-by-hop.
pub fn hop_by_hop(name: &str) -> (b: bool)
    ensures
        b == is_hop_by_hop(name@),
{
    str_eq(name, "connection") || str_eq(name, "proxy-authenticate") || str_eq(
        name,
        "proxy-authorization",
    ) || str_eq(name, "te") || str_eq(name, "trailer") || str_eq(name, "transfer-encoding")
        || str_eq(name, "upgrade")
}

fn copy_bytes(v: &Vec<u8>) -> (r: Vec<u8>)
    ensures
        r@ == v@,
{
    let mut r: Vec<u8> = Vec::new();
    for i in 0..v.len()
        invariant
            r@ == v@.take(i as int),
    {
        r.push(v[i]);
        proof {
            assert(v@.take(i + 1) =~= v@.take(i as int).push(v@[i as int]));
        }
    }
    proof {
        assert(v@.take(v@.len() as int) =~= v@);
    }
    r
}

/// The headers without hop-by-hop ones, in order.
pub fn strip_hop_by_hop(headers: Vec<Header>) -> (out: Vec<Header>)
    ensures
        header_views(out@) == strip_hop(header_views(headers@)),
{
    let ghost hv = header_views(headers@);
    let mut out: Vec<Header> = Vec::new();
    for h in it: headers
        invariant
            it.seq() == headers@,
            hv == header_views(headers@),
            header_views(out@) == strip_hop(hv.take(it.index() as int)),
    {
        let ghost i = it.index();
        let ghost before = header_views(out@);
        proof {
            assert(it.seq()[i as int] == h);
            assert(hv.take(i + 1).drop_last() =~= hv.take(i as int));
            assert(hv.take(i + 1).last() == (h.name@, h.value@));
        }
        if !hop_by_hop(h.name.as_str()) {
            out.push(h);
            proof {
                assert(header_views(out@) =~= before.push(hv[i as int]));
            }
        }
    }
    proof {
        assert(hv.take(hv.len() as int) =~= hv);
    }
    out
}

/// The headers without any named `name`, in order.
pub fn remove_named(headers: Vec<Header>, name: &str) -> (out: Vec<Header>)
    ensures
        header_views(out@) == drop_named(header_views(headers@), name@),
{
    let ghost hv = header_views(headers@);
    let mut out: Vec<Header> = Vec::new();
    for h in it: headers
        invariant
            it.seq() == headers@,
            hv == header_views(headers@),
            header_views(out@) == drop_named(hv.take(it.index() as int), name@),
    {
        let ghost i = it.index();
        let ghost before = header_views(out@);
        proof {
            assert(it.seq()[i as int] == h);
            assert(hv.take(i + 1).drop_last() =~= hv.take(i as int));
            assert(hv.take(i + 1).last() == (h.name@, h.value@));
        }
        if !str_eq(h.name.as_str(), name) {
            out.push(h);
            proof {
                assert(header_views(out@) =~= before.push(hv[i as int]));
            }
        }
    }
    proof {
        assert(hv.take(hv.len() as int) =~= hv);
    }
    out
}

/// Whether some header is named `name`.
pub fn has_header(headers: &Vec<Header>, name: &str) -> (b: bool)
    ensures
        b == has_named(header_views(headers@), name@),
{
    let ghost hv = header_views(headers@);
    for i in 0..headers.len()
        invariant
            hv == header_views(headers@),
            forall|j: int| 0 <= j < i ==> #[trigger] hv[j].0 != name@,
    {
        if str_eq(headers[i].name.as_str(), name) {
            proof {
                assert(hv[i as int].0 == name@);
            }
            return true;
        }
    }
    false
}

proof fn lemma_first_named(hs: Seq<HeaderView>, name: Seq<char>, i: int)
    requires
        0 <= i <= hs.len(),
        forall|j: int| 0 <= j < i ==> #[trigger] hs[j].0 != name,
    ensures
        first_named(hs, name) == first_named(hs.skip(i), name),
    decreases i,
{
    if i > 0 {
        assert(hs.skip(1) =~= hs.drop_first());
        lemma_first_named(hs.drop_first(), name, i - 1);
        assert(hs.drop_first().skip(i - 1) =~= hs.skip(i));
    } else {
        assert(hs.skip(0) =~= hs);
    }
}

/// The value of the first header named `name`, if any.
pub fn first_value(headers: &Vec<Header>, name: &str) -> (v: Option<Vec<u8>>)
    ensures
        match v {
            Some(x) => first_named(header_views(headers@), name@) == Some(x@),
            None => first_named(header_views(headers@), name@) is None,
        },
{
    let ghost hv = header_views(headers@);
    let n = headers.len();
    for i in 0..n
        invariant
            n == headers@.len(),
            hv == header_views(headers@),
            forall|j: int| 0 <= j < i ==> #[trigger] hv[j].0 != name@,
    {
        if str_eq(headers[i].name.as_str(), name) {
            proof {
                lemma_first_named(hv, name@, i as int);
                assert(hv.skip(i as int)[0] == hv[i as int]);
            }
            return Some(copy_bytes(&headers[i].value));
        }
    }
    proof {
        lemma_first_named(hv, name@, n as int);
    }
    None
}

/// The headers the proxy forwards to the tile server (see
/// `forwarded_request_headers`).
pub fn proxy_request_headers(headers: Vec<Header>) -> (out: Vec<Header>)
    ensures
        header_views(out@) == forwarded_request_headers(header_views(headers@)),
{
    let mut hs = strip_hop_by_hop(headers);
    let ghost s = strip_hop(header_views(headers@));
    let ghost s1 = if !has_named(s, "x-forwarded-host"@) && first_named(s, "host"@) is Some {
        s.push(("x-forwarded-host"@, first_named(s, "host"@)->0))
    } else {
        s
    };
    let ghost s2 = if !has_named(s1, "x-forwarded-proto"@) {
        s1.push(("x-forwarded-proto"@, "http"@.map_values(|c: char| c as u8)))
    } else {
        s1
    };
    if !has_header(&hs, "x-forwarded-host") {
        match first_value(&hs, "host") {
            Some(host) => {
                let ghost before = header_views(hs@);
                let h = Header { name: String::from_str("x-forwarded-host"), value: host };
                hs.push(h);
                proof {
                    assert(header_views(hs@) =~= before.push(("x-forwarded-host"@, first_named(s, "host"@)->0)));
                }
            },
            None => {},
        }
    }
    assert(header_views(hs@) == s1);
    if !has_header(&hs, "x-forwarded-proto") {
        let mut v: Vec<u8> = Vec::new();
        v.push(104u8);
        v.push(116u8);
        v.push(116u8);
        v.push(112u8);
        proof {
            reveal_strlit("http");
            assert(v@ =~= "http"@.map_values(|c: char| c as u8));
        }
        let ghost before = header_views(hs@);
        hs.push(Header { name: String::from_str("x-forwarded-proto"), value: v });
        proof {
            assert(header_views(hs@) =~= before.push(("x-forwarded-proto"@, "http"@.map_values(|c: char| c as u8))));
        }
    }
    assert(header_views(hs@) == s2);
    remove_named(hs, "host")
}

proof fn lemma_strip_hop_clean(hs: Seq<HeaderView>)
    ensures
        forall|i: int| 0 <= i < strip_hop(hs).len() ==> !is_hop_by_hop(#[trigger] strip_hop(hs)[i].0),
        forall|i: int| 0 <= i < strip_hop(hs).len() ==> hs.contains(#[trigger] strip_hop(hs)[i]),
    decreases hs.len(),
{
    if hs.len() > 0 {
        lemma_strip_hop_clean(hs.drop_last());
        let p = strip_hop(hs.drop_last());
        assert forall|i: int| 0 <= i < strip_hop(hs).len() implies hs.contains(#[trigger] strip_hop(hs)[i]) by {
            if i < p.len() {
                assert(hs.drop_last().contains(p[i]));
                let k = choose|k: int| 0 <= k < hs.drop_last().len() && hs.drop_last()[k] == p[i];
                assert(hs[k] == p[i]);
            } else {
                assert(hs[hs.len() - 1] == strip_hop(hs)[i]);
            }
        }
    }
}

proof fn lemma_drop_named(hs: Seq<HeaderView>, name: Seq<char>)
    ensures
        forall|i: int| 0 <= i < drop_named(hs, name).len() ==> #[trigger] drop_named(hs, name)[i].0 != name,
        forall|i: int| 0 <= i < drop_named(hs, name).len() ==> hs.contains(#[trigger] drop_named(hs, name)[i]),
        forall|i: int| 0 <= i < hs.len() && #[trigger] hs[i].0 != name ==> drop_named(hs, name).contains(hs[i]),
    decreases hs.len(),
{
    if hs.len() > 0 {
        lemma_drop_named(hs.drop_last(), name);
        let p = drop_named(hs.drop_last(), name);
        let d = drop_named(hs, name);
        assert forall|i: int| 0 <= i < d.len() implies hs.contains(#[trigger] d[i]) by {
            if i < p.len() {
                assert(hs.drop_last().contains(p[i]));
                let k = choose|k: int| 0 <= k < hs.drop_last().len() && hs.drop_last()[k] == p[i];
                assert(hs[k] == p[i]);
            } else {
                assert(hs[hs.len() - 1] == d[i]);
            }
        }
        assert forall|i: int| 0 <= i < hs.len() && #[trigger] hs[i].0 != name implies d.contains(hs[i]) by {
            if i < hs.len() - 1 {
                assert(hs.drop_last()[i] == hs[i]);
                assert(p.contains(hs[i]));
                let k = choose|k: int| 0 <= k < p.len() && p[k] == hs[i];
                assert(d[k] == hs[i]);
            } else {
                assert(d[d.len() - 1] == hs[i]);
            }
        }
    }
}

/// What the proxy forwards never carries a hop-by-hop header or `host`, and
/// always says which protocol the client used (`x-forwarded-proto`).
pub proof fn lemma_forwarded_headers(hs: Seq<HeaderView>)
    ensures
        forall|i: int|
            0 <= i < forwarded_request_headers(hs).len() ==> !is_hop_by_hop(
                #[trigger] forwarded_request_headers(hs)[i].0,
            ) && forwarded_request_headers(hs)[i].0 != "host"@,
        has_named(forwarded_request_headers(hs), "x-forwarded-proto"@),
{
    reveal_strlit("host");
    reveal_strlit("x-forwarded-host");
    reveal_strlit("x-forwarded-proto");
    reveal_strlit("connection");
    reveal_strlit("proxy-authenticate");
    reveal_strlit("proxy-authorization");
    reveal_strlit("te");
    reveal_strlit("trailer");
    reveal_strlit("transfer-encoding");
    reveal_strlit("upgrade");
    let s = strip_hop(hs);
    lemma_strip_hop_clean(hs);
    let s1 = if !has_named(s, "x-forwarded-host"@) && first_named(s, "host"@) is Some {
        s.push(("x-forwarded-host"@, first_named(s, "host"@)->0))
    } else {
        s
    };
    let s2 = if !has_named(s1, "x-forwarded-proto"@) {
        s1.push(("x-forwarded-proto"@, "http"@.map_values(|c: char| c as u8)))
    } else {
        s1
    };
    assert("x-forwarded-host"@.len() != "connection"@.len());
    assert("x-forwarded-host"@[0] != "proxy-authenticate"@[0]);
    assert("x-forwarded-host"@.len() != "te"@.len());
    assert("x-forwarded-proto"@[0] != "proxy-authorization"@[0]);
    assert("x-forwarded-host"@[0] != "trailer"@[0]);
    assert("x-forwarded-host"@[0] != "transfer-encoding"@[0]);
    assert("x-forwarded-host"@.len() != "upgrade"@.len());
    assert("x-forwarded-proto"@.len() != "connection"@.len());
    assert("x-forwarded-proto"@[0] != "proxy-authenticate"@[0]);
    assert("x-forwarded-proto"@.len() != "te"@.len());
    assert("x-forwarded-proto"@[0] != "trailer"@[0]);
    assert("x-forwarded-proto"@[0] != "transfer-encoding"@[0]);
    assert("x-forwarded-proto"@.len() != "upgrade"@.len());
    assert("x-forwarded-proto"@.len() != "host"@.len());
    assert forall|i: int| 0 <= i < s2.len() implies !is_hop_by_hop(#[trigger] s2[i].0) by {
        if i < s.len() {
            assert(s2[i] == s[i]);
        }
    }
    lemma_drop_named(s2, "host"@);
    let d = drop_named(s2, "host"@);
    assert forall|i: int| 0 <= i < d.len() implies !is_hop_by_hop(#[trigger] d[i].0) && d[i].0 != "host"@ by {
        assert(s2.contains(d[i]));
        let k = choose|k: int| 0 <= k < s2.len() && s2[k] == d[i];
        assert(!is_hop_by_hop(s2[k].0));
    }
    let proto = choose|i: int| 0 <= i < s2.len() && #[trigger] s2[i].0 == "x-forwarded-proto"@;
    if !has_named(s1, "x-forwarded-proto"@) {
        assert(s2[s2.len() - 1].0 == "x-forwarded-proto"@);
    }
    assert(has_named(s2, "x-forwarded-proto"@));
    let k = choose|k: int| 0 <= k < s2.len() && #[trigger] s2[k].0 == "x-forwarded-proto"@;
    assert(d.contains(s2[k]));
    let m = choose|m: int| 0 <= m < d.len() && d[m] == s2[k];
    assert(d[m].0 == "x-forwarded-proto"@);
}

proof fn lemma_strip_hop_keeps(hs: Seq<HeaderView>)
    ensures
        forall|i: int| 0 <= i < hs.len() && !is_hop_by_hop(#[trigger] hs[i].0) ==> strip_hop(hs).contains(hs[i]),
    decreases hs.len(),
{
    if hs.len() > 0 {
        lemma_strip_hop_keeps(hs.drop_last());
        let p = strip_hop(hs.drop_last());
        let d = strip_hop(hs);
        assert forall|i: int| 0 <= i < hs.len() && !is_hop_by_hop(#[trigger] hs[i].0) implies d.contains(hs[i]) by {
            if i < hs.len() - 1 {
                assert(hs.drop_last()[i] == hs[i]);
                assert(p.contains(hs[i]));
                let k = choose|k: int| 0 <= k < p.len() && p[k] == hs[i];
                assert(d[k] == hs[i]);
            } else {
                assert(d[d.len() - 1] == hs[i]);
            }
        }
    }
}

/// The proxy forwards every end-to-end header of the request unchanged
/// (everything but `connection`, `proxy-authenticate`,
/// `proxy-authorization`, `te`, `trailer`, `transfer-encoding`, `upgrade`
/// and `host`), and none of those eight; anything else it forwards is a
/// header of the request or one of the `x-forwarded-host` /
/// `x-forwarded-proto` headers it adds, and a request that names neither
/// gets `x-forwarded-proto: http`.
pub proof fn lemma_forwarded_end_to_end(hs: Seq<HeaderView>)
    ensures
        ({
            let f = forwarded_request_headers(hs);
            let excluded = |n: Seq<char>|
                n == "connection"@ || n == "proxy-authenticate"@ || n == "proxy-authorization"@ || n
                    == "te"@ || n == "trailer"@ || n == "transfer-encoding"@ || n == "upgrade"@ || n
                    == "host"@;
            &&& forall|i: int| 0 <= i < hs.len() && !excluded(#[trigger] hs[i].0) ==> f.contains(hs[i])
            &&& forall|i: int| 0 <= i < f.len() ==> !excluded(#[trigger] f[i].0)
            &&& forall|i: int| 0 <= i < f.len() ==> hs.contains(#[trigger] f[i]) || f[i].0 == "x-forwarded-host"@
                || f[i].0 == "x-forwarded-proto"@
            &&& (!has_named(strip_hop(hs), "x-forwarded-proto"@)) ==> f.contains(
                ("x-forwarded-proto"@, "http"@.map_values(|c: char| c as u8)),
            )
        }),
{
    reveal_strlit("host");
    reveal_strlit("x-forwarded-host");
    reveal_strlit("x-forwarded-proto");
    lemma_forwarded_headers(hs);
    lemma_strip_hop_keeps(hs);
    lemma_strip_hop_clean(hs);
    let s0 = strip_hop(hs);
    let s1 = if !has_named(s0, "x-forwarded-host"@) && first_named(s0, "host"@) is Some {
        s0.push(("x-forwarded-host"@, first_named(s0, "host"@)->0))
    } else {
        s0
    };
    let s2 = if !has_named(s1, "x-forwarded-proto"@) {
        s1.push(("x-forwarded-proto"@, "http"@.map_values(|c: char| c as u8)))
    } else {
        s1
    };
    lemma_drop_named(s2, "host"@);
    let f = drop_named(s2, "host"@);
    assert forall|k: int| 0 <= k < s0.len() implies s2.contains(#[trigger] s0[k]) by {
        assert(s1[k] == s0[k]);
        assert(s2[k] == s1[k]);
    }
    assert forall|i: int| 0 <= i < hs.len() && !(#[trigger] hs[i].0 == "connection"@ || hs[i].0
        == "proxy-authenticate"@ || hs[i].0 == "proxy-authorization"@ || hs[i].0 == "te"@ || hs[i].0
        == "trailer"@ || hs[i].0 == "transfer-encoding"@ || hs[i].0 == "upgrade"@ || hs[i].0 == "host"@)
        implies f.contains(hs[i]) by {
        assert(!is_hop_by_hop(hs[i].0));
        assert(s0.contains(hs[i]));
        let k = choose|k: int| 0 <= k < s0.len() && s0[k] == hs[i];
        assert(s2.contains(s0[k]));
        let m = choose|m: int| 0 <= m < s2.len() && s2[m] == s0[k];
        assert(s2[m].0 != "host"@);
    }
    assert forall|i: int| 0 <= i < f.len() implies hs.contains(#[trigger] f[i]) || f[i].0 == "x-forwarded-host"@
        || f[i].0 == "x-forwarded-proto"@ by {
        assert(s2.contains(f[i]));
        let m = choose|m: int| 0 <= m < s2.len() && s2[m] == f[i];
        if m < s0.len() {
            assert(s1[m] == s0[m]);
            assert(s2[m] == s1[m]);
            assert(s0.contains(s0[m]));
        }
    }
    if !has_named(s0, "x-forwarded-proto"@) {
        assert(!has_named(s1, "x-forwarded-proto"@)) by {
            if has_named(s1, "x-forwarded-proto"@) {
                let k = choose|k: int| 0 <= k < s1.len() && #[trigger] s1[k].0 == "x-forwarded-proto"@;
                if k < s0.len() {
                    assert(s1[k] == s0[k]);
                } else {
                    assert("x-forwarded-host"@.len() != "x-forwarded-proto"@.len());
                }
            }
        }
        let last = ("x-forwarded-proto"@, "http"@.map_values(|c: char| c as u8));
        assert(s2[s2.len() - 1] == last);
        assert(last.0 != "host"@);
    }
}

} // verus!
