//! The protocol route table and static-content path re-encoding.
//!
//! Requests resolve to: the real-time sync endpoint; a permanent redirect
//! adding the trailing slash to a bare site URL; a site's directory index;
//! or a file inside a site. Before a file request is handed to the
//! directory server, every path segment is percent-encoded so that
//! arbitrary user filenames survive the round trip through a request URI.

use vstd::prelude::*;

use vstd::string::StringSliceAdditionalSpecFns;
use vstd::string::StrSliceExecFns;
use vstd::string::StringExecFns;

verus! {

/// Position of the first occurrence of `c` in `s` at or after `from`;
/// negative when there is none.
pub open spec fn find_from(s: Seq<char>, c: char, from: int) -> int
    decreases s.len() - from,
{
    if from < 0 || from >= s.len() {
        -1
    } else if s[from] == c {
        from
    } else {
        find_from(s, c, from + 1)
    }
}

/// A found position lies between `from` and the string's end and holds the
/// sought character.
pub proof fn lemma_find_from_bounds(s: Seq<char>, c: char, from: int)
    requires
        0 <= from,
    ensures
        find_from(s, c, from) == -1 || (from <= find_from(s, c, from) < s.len() && s[find_from(
            s,
            c,
            from,
        )] == c),
    decreases s.len() - from,
{
    if from >= s.len() {
    } else if s[from] == c {
    } else {
        lemma_find_from_bounds(s, c, from + 1);
    }
}

/// The sync endpoint's path.
pub open spec fn sync_path() -> Seq<char> {
    seq!['/', 'a', 'p', 'i', '/', 'w', 'e', 'b', 'g', 'a', 'l', 's', 'y', 'n', 'c']
}

/// The prefix under which sites are served.
pub open spec fn game_prefix() -> Seq<char> {
    seq!['/', 'g', 'a', 'm', 'e', '/']
}

/// The model of a routing decision.
pub ghost enum RouteModel {
    /// Upgrade to the real-time sync channel.
    Sync,
    /// Permanent redirect of a bare site URL to its slash-terminated form.
    RedirectToSlash { target: Seq<char> },
    /// The directory index of a registered site.
    StaticRoot { id: Seq<char> },
    /// A path inside a registered site.
    StaticPath { id: Seq<char>, rest: Seq<char> },
    /// No route matches.
    NotFound,
}

/// The route table: `/api/webgalsync` upgrades to the sync channel;
/// `/game/{id}` redirects to `/game/{id}/`; `/game/{id}/` serves the site's
/// index; `/game/{id}/{rest}` serves a file of the site. The site
/// identifier is one non-empty segment.
pub open spec fn route_of(path: Seq<char>) -> RouteModel {
    if path == sync_path() {
        RouteModel::Sync
    } else if path.len() > game_prefix().len() && path.take(game_prefix().len() as int)
        == game_prefix() {
        let tail = path.skip(game_prefix().len() as int);
        let k = find_from(tail, '/', 0);
        if k < 0 {
            RouteModel::RedirectToSlash { target: path + seq!['/'] }
        } else if k == 0 {
            RouteModel::NotFound
        } else {
            let id = tail.take(k);
            let rest = tail.skip(k + 1);
            if rest.len() == 0 {
                RouteModel::StaticRoot { id }
            } else {
                RouteModel::StaticPath { id, rest }
            }
        }
    } else {
        RouteModel::NotFound
    }
}

/// A routing decision for one request path.
pub enum RouteDecision {
    Sync,
    RedirectToSlash { target: String },
    StaticRoot { id: String },
    StaticPath { id: String, rest: String },
    NotFound,
}

impl View for RouteDecision {
    type V = RouteModel;

    open spec fn view(&self) -> RouteModel {
        match self {
            RouteDecision::Sync => RouteModel::Sync,
            RouteDecision::RedirectToSlash { target } => RouteModel::RedirectToSlash {
                target: target@,
            },
            RouteDecision::StaticRoot { id } => RouteModel::StaticRoot { id: id@ },
            RouteDecision::StaticPath { id, rest } => RouteModel::StaticPath {
                id: id@,
                rest: rest@,
            },
            RouteDecision::NotFound => RouteModel::NotFound,
        }
    }
}

/// Whether two strings hold the same characters.
pub fn str_eq(a: &str, b: &str) -> (r: bool)
    ensures
        r <==> a@ == b@,
{
    let an = a.unicode_len();
    let bn = b.unicode_len();
    if an != bn {
        return false;
    }
    let mut i: usize = 0;
    while i < an
        invariant
            an == a@.len(),
            bn == b@.len(),
            an == bn,
            i <= an,
            forall|j: int| 0 <= j < i ==> a@[j] == b@[j],
        decreases an - i,
    {
        if a.get_char(i) != b.get_char(i) {
            return false;
        }
        i = i + 1;
    }
    proof {
        assert(a@ =~= b@);
    }
    true
}

/// Position of the first `c` in `s` at or after `from`, if any.
pub fn find_char(s: &str, c: char, from: usize) -> (r: Option<usize>)
    requires
        from <= s@.len(),
    ensures
        match r {
            Some(i) => from <= i < s@.len() && find_from(s@, c, from as int) == i,
            None => find_from(s@, c, from as int) == -1,
        },
{
    let n = s.unicode_len();
    let mut i: usize = from;
    while i < n
        invariant
            n == s@.len(),
            from <= i <= n,
            find_from(s@, c, from as int) == find_from(s@, c, i as int),
        decreases n - i,
    {
        if s.get_char(i) == c {
            return Some(i);
        }
        i = i + 1;
    }
    None
}

/// Resolves one request path against the route table.
pub fn route_request(path: &str) -> (r: RouteDecision)
    ensures
        r@ == route_of(path@),
{
    proof {
        reveal_strlit("/api/webgalsync");
        reveal_strlit("/game/");
        assert("/api/webgalsync"@ =~= sync_path());
        assert("/game/"@ =~= game_prefix());
    }
    if str_eq(path, "/api/webgalsync") {
        return RouteDecision::Sync;
    }
    let n = path.unicode_len();
    if n <= 6 {
        return RouteDecision::NotFound;
    }
    let prefix = path.substring_char(0, 6);
    if !str_eq(prefix, "/game/") {
        return RouteDecision::NotFound;
    }
    let tail = path.substring_char(6, n);
    assert(tail@ =~= path@.skip(6));
    match find_char(tail, '/', 0) {
        None => {
            let mut target = String::new();
            target.append(path);
            crate::text::push_char(&mut target, '/');
            proof {
                assert(target@ =~= path@ + seq!['/']);
            }
            RouteDecision::RedirectToSlash { target }
        },
        Some(k) => {
            if k == 0 {
                return RouteDecision::NotFound;
            }
            let tn = tail.unicode_len();
            let id = tail.substring_char(0, k).to_owned();
            let rest = tail.substring_char(k + 1, tn).to_owned();
            proof {
                assert(id@ =~= path@.skip(6).take(k as int));
                assert(rest@ =~= path@.skip(6).skip(k as int + 1));
            }
            if rest.as_str().is_empty() {
                RouteDecision::StaticRoot { id }
            } else {
                RouteDecision::StaticPath { id, rest }
            }
        },
    }
}

/// Bytes a request URI may carry verbatim: ASCII alphanumerics and
/// `-`, `.`, `_`, `~`; every other byte is percent-encoded.
pub open spec fn is_unreserved(b: u8) -> bool {
    (48 <= b <= 57) || (65 <= b <= 90) || (97 <= b <= 122) || b == 45 || b == 46 || b == 95 || b
        == 126
}

/// The uppercase hexadecimal digit for one value below sixteen.
pub open spec fn upper_hex_char(d: nat) -> char
    recommends
        d < 16,
{
    if d < 10 {
        ((48 + d) as u8) as char
    } else {
        ((55 + d) as u8) as char
    }
}

/// One byte as it appears percent-encoded: itself when unreserved, else
/// `%` and two uppercase hexadecimal digits.
pub open spec fn enc_byte(b: u8) -> Seq<char> {
    if is_unreserved(b) {
        seq![b as char]
    } else {
        seq!['%', upper_hex_char((b / 16) as nat), upper_hex_char((b % 16) as nat)]
    }
}

/// A byte string percent-encoded byte by byte.
pub open spec fn percent_encoded(data: Seq<u8>) -> Seq<char>
    decreases data.len(),
{
    if data.len() == 0 {
        Seq::empty()
    } else {
        enc_byte(data[0]) + percent_encoded(data.skip(1))
    }
}

/// A request path re-encoded for the directory server: each `/` kept as a
/// separator, every other byte percent-encoded as `enc_byte` says.
pub open spec fn enc_path(data: Seq<u8>) -> Seq<char>
    decreases data.len(),
{
    if data.len() == 0 {
        Seq::empty()
    } else if data[0] == 47 {
        seq!['/'] + enc_path(data.skip(1))
    } else {
        enc_byte(data[0]) + enc_path(data.skip(1))
    }
}

/// The URI handed to a site's directory server for a request inside the
/// site: a leading slash, then the subpath with each segment
/// percent-encoded.
pub open spec fn spec_content_uri(data: Seq<u8>) -> Seq<char> {
    seq!['/'] + enc_path(data)
}

/// Relies on `urlencoding::encode_binary`: every byte except ASCII
/// alphanumerics and `-`, `.`, `_`, `~` becomes `%` and two uppercase
/// hexadecimal digits.
#[verifier::external_body]
fn encode_segment(data: &[u8]) -> (r: String)
    ensures
        r@ == percent_encoded(data@),
{
    urlencoding::encode_binary(data).into_owned()
}

proof fn lemma_enc_path_concat(a: Seq<u8>, b: Seq<u8>)
    ensures
        enc_path(a + b) == enc_path(a) + enc_path(b),
    decreases a.len(),
{
    if a.len() == 0 {
        assert(a + b =~= b);
        assert(enc_path(a) + enc_path(b) =~= enc_path(b));
    } else {
        lemma_enc_path_concat(a.skip(1), b);
        assert((a + b).skip(1) =~= a.skip(1) + b);
        assert(enc_path(a + b) =~= enc_path(a) + enc_path(b));
    }
}

proof fn lemma_enc_path_no_slash(s: Seq<u8>)
    requires
        forall|i: int| 0 <= i < s.len() ==> s[i] != 47,
    ensures
        enc_path(s) == percent_encoded(s),
    decreases s.len(),
{
    if s.len() > 0 {
        lemma_enc_path_no_slash(s.skip(1));
    }
}

/// Re-encodes a request subpath for the directory server: splits it on
/// `/`, percent-encodes each segment, and joins the segments back with a
/// leading slash — the URI the file server finally resolves.
pub fn content_uri(subpath: &str) -> (r: String)
    ensures
        r@ == spec_content_uri(subpath.spec_bytes()),
{
    let bytes = subpath.as_bytes_vec();
    let n = bytes.len();
    let mut out = String::new();
    crate::text::push_char(&mut out, '/');
    let mut start: usize = 0;
    let mut i: usize = 0;
    while i < n
        invariant
            n == bytes@.len(),
            bytes@ == subpath.spec_bytes(),
            start <= i <= n,
            forall|j: int| start <= j < i ==> bytes@[j] != 47,
            out@ == seq!['/'] + enc_path(bytes@.take(start as int)),
        decreases n - i,
    {
        if *vstd::slice::slice_index_get(bytes.as_slice(), i) == 47 {
            let seg = vstd::slice::slice_subrange(bytes.as_slice(), start, i);
            let encoded = encode_segment(seg);
            out.append(encoded.as_str());
            crate::text::push_char(&mut out, '/');
            proof {
                let pre = bytes@.take(start as int);
                let segv = bytes@.subrange(start as int, i as int);
                lemma_enc_path_no_slash(segv);
                lemma_enc_path_concat(pre, segv);
                assert(pre + segv =~= bytes@.take(i as int));
                lemma_enc_path_concat(bytes@.take(i as int), seq![47u8]);
                assert(bytes@.take(i as int) + seq![47u8] =~= bytes@.take(i as int + 1));
                assert(enc_path(seq![47u8]) =~= seq!['/']) by {
                    assert(seq![47u8].skip(1) =~= Seq::<u8>::empty());
                    assert(enc_path(Seq::<u8>::empty()) =~= Seq::<char>::empty());
                    assert(seq![47u8][0] == 47u8);
                }
                assert(out@ =~= seq!['/'] + enc_path(bytes@.take(i as int + 1)));
            }
            start = i + 1;
        }
        i = i + 1;
    }
    let seg = vstd::slice::slice_subrange(bytes.as_slice(), start, n);
    let encoded = encode_segment(seg);
    out.append(encoded.as_str());
    proof {
        let pre = bytes@.take(start as int);
        let segv = bytes@.subrange(start as int, n as int);
        lemma_enc_path_no_slash(segv);
        lemma_enc_path_concat(pre, segv);
        assert(pre + segv =~= bytes@);
        assert(bytes@.take(n as int) =~= bytes@);
        assert(out@ =~= seq!['/'] + enc_path(bytes@));
    }
    out
}


/// A character found at `k`, with none of it earlier, is what the search
/// from the start returns.
pub proof fn lemma_find_from_exact(s: Seq<char>, c: char, k: int)
    requires
        0 <= k < s.len(),
        s[k] == c,
        forall|j: int| 0 <= j < k ==> s[j] != c,
    ensures
        find_from(s, c, 0) == k,
{
    lemma_find_from_step(s, c, 0, k);
}

proof fn lemma_find_from_step(s: Seq<char>, c: char, i: int, k: int)
    requires
        0 <= i <= k < s.len(),
        s[k] == c,
        forall|j: int| i <= j < k ==> s[j] != c,
    ensures
        find_from(s, c, i) == k,
    decreases k - i,
{
    if i < k {
        lemma_find_from_step(s, c, i + 1, k);
    }
}

/// Static content resolution, over the whole route table: a non-empty,
/// slash-free site identifier composed into `/game/{id}` routes to the
/// permanent redirect that adds the trailing slash; composed into
/// `/game/{id}/{rest}` it routes to the site's index when `rest` is empty
/// and to the file at `rest` otherwise.
pub proof fn lemma_route_static(id: Seq<char>, rest: Seq<char>)
    requires
        id.len() > 0,
        forall|i: int| 0 <= i < id.len() ==> id[i] != '/',
    ensures
        route_of(game_prefix() + id) == (RouteModel::RedirectToSlash {
            target: game_prefix() + id + seq!['/'],
        }),
        rest.len() == 0 ==> route_of(game_prefix() + id + seq!['/'] + rest) == (
        RouteModel::StaticRoot { id }),
        rest.len() > 0 ==> route_of(game_prefix() + id + seq!['/'] + rest) == (
        RouteModel::StaticPath { id, rest }),
{
    let bare = game_prefix() + id;
    assert(bare.len() > 6);
    assert(bare[1] == 'g');
    assert(bare != sync_path());
    assert(bare.take(6) =~= game_prefix());
    let tail0 = bare.skip(6);
    assert(tail0 =~= id);
    lemma_find_from_none(id, '/', 0);
    assert(route_of(bare) == (RouteModel::RedirectToSlash { target: bare + seq!['/'] }));

    let full = game_prefix() + id + seq!['/'] + rest;
    assert(full.len() > 6);
    assert(full[1] == 'g');
    assert(full != sync_path());
    assert(full.take(6) =~= game_prefix());
    let tail = full.skip(6);
    assert(tail =~= id + seq!['/'] + rest);
    assert(tail[id.len() as int] == '/');
    assert(forall|j: int| 0 <= j < id.len() ==> tail[j] == id[j]);
    lemma_find_from_exact(tail, '/', id.len() as int);
    assert(tail.take(id.len() as int) =~= id);
    assert(tail.skip(id.len() as int + 1) =~= rest);
}

proof fn lemma_find_from_none(s: Seq<char>, c: char, i: int)
    requires
        0 <= i,
        forall|j: int| i <= j < s.len() ==> s[j] != c,
    ensures
        find_from(s, c, i) == -1,
    decreases s.len() - i,
{
    if i < s.len() {
        lemma_find_from_none(s, c, i + 1);
    }
}

} // verus!

