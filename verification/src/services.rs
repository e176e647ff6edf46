//! Request dispatch: overload admission, the pre-authentication static
//! routes, collection-index resolution, route classification, and the CORS
//! post-processing applied to every response.
use vstd::prelude::*;

use crate::bytes_util::{
    bytes_eq, is_digit, is_prefix_of, slice_to_vec, starts_with, SLASH,
};
use crate::decode::{lookup_query, pd_from, percent_decode, query_param};
use crate::range::{digits_val, is_digits, parse_range_header, parse_u64_digits,
    range_plan_spec, ByteRange, RangePlan};
use crate::transcode::{quality_from_letter, QualityLevel};

verus! {

/// Cache lifetime of the application shell files, in seconds.
pub const APP_STATIC_FILES_CACHE_AGE: u32 = 30 * 24 * 3600;

/// Cache lifetime of cover and description files, in seconds.
pub const FOLDER_INFO_FILES_CACHE_AGE: u32 = 24 * 3600;

/// The refusals the dispatcher can answer with.
#[derive(Clone, Copy, Debug, PartialEq, Eq)]
pub enum ErrorResponse {
    /// The worker pool's queue is over the configured limit.
    Overloaded,
    /// Unmatched route, out-of-range collection index, or missing search query.
    NotFound,
    /// A method other than GET.
    MethodNotSupported,
    /// A `Range` header that names no range.
    RangeRequired,
    /// A `Range` header that names more than one range.
    MultipleRanges,
    /// A `Range` header with a unit other than bytes.
    NotBytesRange,
    /// A `Range` header whose single range cannot be read.
    InvalidRange,
}

impl ErrorResponse {
    /// The HTTP status the refusal is sent with.
    pub open spec fn status_spec(self) -> u16 {
        match self {
            ErrorResponse::Overloaded => 503,
            ErrorResponse::NotFound => 404,
            ErrorResponse::MethodNotSupported => 405,
            ErrorResponse::RangeRequired => 400,
            ErrorResponse::MultipleRanges => 501,
            ErrorResponse::NotBytesRange => 501,
            ErrorResponse::InvalidRange => 400,
        }
    }

    /// The HTTP status the refusal is sent with.
    pub fn status_code(&self) -> (r: u16)
        ensures
            r == self.status_spec(),
    {
        match self {
            ErrorResponse::Overloaded => 503,
            ErrorResponse::NotFound => 404,
            ErrorResponse::MethodNotSupported => 405,
            ErrorResponse::RangeRequired => 400,
            ErrorResponse::MultipleRanges => 501,
            ErrorResponse::NotBytesRange => 501,
            ErrorResponse::InvalidRange => 400,
        }
    }

    /// The human-readable line sent as the response body.
    pub fn message(&self) -> (r: &'static str)
        ensures
            self == ErrorResponse::Overloaded ==> r@ == "Overloaded, try later"@,
            self == ErrorResponse::NotFound ==> r@ == "Not Found"@,
            self == ErrorResponse::MethodNotSupported ==> r@ == "Method not supported"@,
            self == ErrorResponse::RangeRequired ==> r@ == "One range is required"@,
            self == ErrorResponse::MultipleRanges ==> r@
                == "Do not support multiple ranges"@,
            self == ErrorResponse::NotBytesRange ==> r@
                == "Other than bytes ranges are not supported"@,
            self == ErrorResponse::InvalidRange ==> r@ == "Invalid bytes range"@,
    {
        match self {
            ErrorResponse::Overloaded => "Overloaded, try later",
            ErrorResponse::NotFound => "Not Found",
            ErrorResponse::MethodNotSupported => "Method not supported",
            ErrorResponse::RangeRequired => "One range is required",
            ErrorResponse::MultipleRanges => "Do not support multiple ranges",
            ErrorResponse::NotBytesRange => "Other than bytes ranges are not supported",
            ErrorResponse::InvalidRange => "Invalid bytes range",
        }
    }
}

/// A response as this library models it: status, body, and the headers the
/// dispatcher is responsible for.
#[derive(Clone, Debug)]
pub struct HttpResponse {
    pub status: u16,
    pub body: Vec<u8>,
    pub content_type: Option<Vec<u8>>,
    pub cache_age: Option<u32>,
    pub allow_origin: Option<Vec<u8>>,
    pub allow_credentials: bool,
}

/// The bytes held by an optional byte vector.
pub open spec fn opt_bytes(o: Option<Vec<u8>>) -> Option<Seq<u8>> {
    match o {
        Some(v) => Some(v@),
        None => None,
    }
}

/// The bytes held by an optional byte slice.
pub open spec fn opt_slice(o: Option<&[u8]>) -> Option<Seq<u8>> {
    match o {
        Some(v) => Some(v@),
        None => None,
    }
}

/// A plain response carrying only a status and a short line, with no CORS
/// headers yet.
pub fn short_response(status: u16, msg: &str) -> (r: HttpResponse)
    requires
        forall|i: int| 0 <= i < msg@.len() ==> (msg@[i] as u32) < 128,
    ensures
        r.status == status,
        r.body@ == msg@.map_values(|c: char| c as u8),
        r.content_type is None,
        r.cache_age is None,
        r.allow_origin is None,
        !r.allow_credentials,
{
    let bytes = str_to_bytes(msg);
    HttpResponse {
        status,
        body: bytes,
        content_type: None,
        cache_age: None,
        allow_origin: None,
        allow_credentials: false,
    }
}

/// Relies on str::as_bytes: the UTF-8 bytes of the text; one byte per
/// character when the text is ASCII.
#[verifier::external_body]
fn str_to_bytes(s: &str) -> (r: Vec<u8>)
    ensures
        (forall|i: int| 0 <= i < s@.len() ==> (s@[i] as u32) < 128) ==> r@
            == s@.map_values(|c: char| c as u8),
{
    s.as_bytes().to_vec()
}

/// Applies the CORS policy to a finished response: with CORS enabled and an
/// `Origin` header present, the origin is echoed and credentials are allowed;
/// otherwise the response is untouched.
pub fn add_cors_headers(resp: HttpResponse, origin: Option<Vec<u8>>, enabled: bool) -> (r:
    HttpResponse)
    ensures
        r.status == resp.status,
        r.body@ == resp.body@,
        opt_bytes(r.content_type) == opt_bytes(resp.content_type),
        r.cache_age == resp.cache_age,
        enabled && origin is Some ==> opt_bytes(r.allow_origin) == opt_bytes(origin)
            && r.allow_credentials,
        !(enabled && origin is Some) ==> opt_bytes(r.allow_origin) == opt_bytes(
            resp.allow_origin,
        ) && r.allow_credentials == resp.allow_credentials,
{
    if !enabled {
        return resp;
    }
    match origin {
        Some(o) => {
            let mut r = resp;
            r.allow_origin = Some(o);
            r.allow_credentials = true;
            r
        },
        None => resp,
    }
}

/// The files served before authentication.
#[derive(Clone, Copy, Debug, PartialEq, Eq)]
pub enum StaticFile {
    /// `/` — the application shell, `index.html`.
    Index,
    /// `/bundle.js`.
    Bundle,
}

/// What the service decides before the authentication gate.
#[derive(Clone, Copy, Debug, PartialEq, Eq)]
pub enum PreAuthDecision {
    /// Refuse at once with 503; nothing else runs.
    Overloaded,
    /// Serve an application shell file with a long cache lifetime; no
    /// authentication.
    ServeStatic(StaticFile),
    /// Run the authentication gate, then dispatch.
    Authenticate,
}

/// The admission and static-path decision taken on every request before
/// anything else: an overloaded pool refuses, the two shell paths bypass
/// authentication, everything else is authenticated.
pub open spec fn pre_auth_spec(queue_size: usize, queue_limit: usize, raw_path: Seq<
    u8,
>) -> PreAuthDecision {
    if queue_size > queue_limit {
        PreAuthDecision::Overloaded
    } else if raw_path == seq![47u8] {
        PreAuthDecision::ServeStatic(StaticFile::Index)
    } else if raw_path == seq![47u8, 98u8, 117u8, 110u8, 100u8, 108u8, 101u8, 46u8,
        106u8, 115u8] {
        PreAuthDecision::ServeStatic(StaticFile::Bundle)
    } else {
        PreAuthDecision::Authenticate
    }
}

/// An overloaded pool refuses every request alike: whatever the path, the
/// decision is the 503 refusal and no downstream handler runs.
pub proof fn lemma_overload_refuses_all(queue_size: usize, queue_limit: usize, raw_path: Seq<
    u8,
>)
    requires
        queue_size > queue_limit,
    ensures
        pre_auth_spec(queue_size, queue_limit, raw_path) == PreAuthDecision::Overloaded,
{
}

/// Admission control and the static shell paths, decided from the pool's
/// queue depth and the raw (undecoded) request path.
pub fn pre_auth(queue_size: usize, queue_limit: usize, raw_path: &[u8]) -> (r:
    PreAuthDecision)
    ensures
        r == pre_auth_spec(queue_size, queue_limit, raw_path@),
{
    if queue_size > queue_limit {
        return PreAuthDecision::Overloaded;
    }
    let root: [u8; 1] = [47];
    let bundle: [u8; 10] = [47, 98, 117, 110, 100, 108, 101, 46, 106, 115];
    proof {
        assert(root@ =~= seq![47u8]);
        assert(bundle@ =~= seq![47u8, 98u8, 117u8, 110u8, 100u8, 108u8, 101u8, 46u8,
            106u8, 115u8]);
    }
    if bytes_eq(raw_path, root.as_slice()) {
        PreAuthDecision::ServeStatic(StaticFile::Index)
    } else if bytes_eq(raw_path, bundle.as_slice()) {
        PreAuthDecision::ServeStatic(StaticFile::Bundle)
    } else {
        PreAuthDecision::Authenticate
    }
}

/// Where an authenticated GET request is routed.
#[derive(Clone, Debug, PartialEq, Eq)]
pub enum RouteDecision {
    /// A refusal, sent as a short response.
    Error(ErrorResponse),
    /// List the configured collections.
    CollectionsList,
    /// Report the transcoding presets and concurrency bound.
    TranscodingsList,
    /// Stream (and possibly transcode) an audio file of a collection.
    SendAudio {
        collection: usize,
        subpath: Vec<u8>,
        range: Option<ByteRange>,
        seek: Option<Vec<u8>>,
        quality: Option<QualityLevel>,
    },
    /// List a folder of a collection.
    Folder { collection: usize, subpath: Vec<u8> },
    /// Search a collection.
    Search { collection: usize, query: Vec<u8> },
    /// Send a cover image of a collection.
    SendCover { collection: usize, subpath: Vec<u8> },
    /// Send a description file of a collection.
    SendDesc { collection: usize, subpath: Vec<u8> },
}

/// The mathematical shape of a route decision.
pub enum RouteModel {
    Error(ErrorResponse),
    CollectionsList,
    TranscodingsList,
    SendAudio {
        collection: nat,
        subpath: Seq<u8>,
        range: Option<ByteRange>,
        seek: Option<Seq<u8>>,
        quality: Option<QualityLevel>,
    },
    Folder { collection: nat, subpath: Seq<u8> },
    Search { collection: nat, query: Seq<u8> },
    SendCover { collection: nat, subpath: Seq<u8> },
    SendDesc { collection: nat, subpath: Seq<u8> },
}

/// The decision a `RouteDecision` stands for.
pub open spec fn route_view(d: RouteDecision) -> RouteModel {
    match d {
        RouteDecision::Error(e) => RouteModel::Error(e),
        RouteDecision::CollectionsList => RouteModel::CollectionsList,
        RouteDecision::TranscodingsList => RouteModel::TranscodingsList,
        RouteDecision::SendAudio { collection, subpath, range, seek, quality } =>
            RouteModel::SendAudio {
            collection: collection as nat,
            subpath: subpath@,
            range,
            seek: opt_bytes(seek),
            quality,
        },
        RouteDecision::Folder { collection, subpath } => RouteModel::Folder {
            collection: collection as nat,
            subpath: subpath@,
        },
        RouteDecision::Search { collection, query } => RouteModel::Search {
            collection: collection as nat,
            query: query@,
        },
        RouteDecision::SendCover { collection, subpath } => RouteModel::SendCover {
            collection: collection as nat,
            subpath: subpath@,
        },
        RouteDecision::SendDesc { collection, subpath } => RouteModel::SendDesc {
            collection: collection as nat,
            subpath: subpath@,
        },
    }
}

/// First index of `s` holding a byte that is not a decimal digit, if any.
pub open spec fn first_nondigit(s: Seq<u8>) -> Option<int> {
    if exists|i: int| 0 <= i < s.len() && !is_digit(s[i]) {
        Some(choose|i: int| 0 <= i < s.len() && !is_digit(s[i]) && forall|j: int|
            0 <= j < i ==> is_digit(s[j]))
    } else {
        None
    }
}

pub proof fn lemma_first_nondigit_is(s: Seq<u8>, i: int)
    requires
        0 <= i < s.len(),
        !is_digit(s[i]),
        forall|j: int| 0 <= j < i ==> is_digit(s[j]),
    ensures
        first_nondigit(s) == Some(i),
{
    assert(0 <= i < s.len() && !is_digit(s[i]) && forall|j: int| 0 <= j < i
        ==> is_digit(s[j]));
    let c = choose|c: int|
        0 <= c < s.len() && !is_digit(s[c]) && forall|j: int| 0 <= j < c ==> is_digit(
            s[j],
        );
    if c < i {
        assert(is_digit(s[c]));
    } else if c > i {
        assert(is_digit(s[i]));
    }
}

/// The collection prefix of a decoded path: when the path has the shape
/// `/<digits>/<more>`, the written number and the remainder from the second
/// slash on; `None` otherwise, which selects collection 0 with the whole
/// path.
pub open spec fn collection_split(path: Seq<u8>) -> Option<(nat, Seq<u8>)> {
    if path.len() > 0 && path[0] == SLASH && first_nondigit(path.skip(1)) is Some {
        let k = first_nondigit(path.skip(1))->Some_0;
        if 1 <= k && k + 3 <= path.len() && path[1 + k] == SLASH {
            Some((digits_val(path.subrange(1, 1 + k)), path.skip(1 + k)))
        } else {
            None
        }
    } else {
        None
    }
}

/// Reads the collection prefix. `Some((v, rest))` mirrors
/// `collection_split`; a written number too large for `u64` comes back as
/// `None` in the first component, still matched by the split.
fn split_collection(path: &[u8]) -> (r: Option<(Option<u64>, Vec<u8>)>)
    ensures
        match r {
            Some((v, rest)) => collection_split(path@) matches Some((idx, rseq))
                && rest@ == rseq && (match v {
                Some(u) => idx == u as nat,
                None => idx > u64::MAX,
            }),
            None => collection_split(path@) is None,
        },
{
    let n: usize = path.len();
    if n == 0 || path[0] != SLASH {
        return None;
    }
    let mut i: usize = 1;
    while i < n && 48 <= path[i] && path[i] <= 57
        invariant
            1 <= i <= n,
            n as int == path@.len(),
            forall|j: int| 1 <= j < i ==> is_digit(path@[j]),
        decreases n - i,
    {
        i += 1;
    }
    if i == n {
        // digits to the end: no second slash
        proof {
            assert(forall|j: int| 0 <= j < path@.skip(1).len() ==> is_digit(
                path@.skip(1)[j],
            ));
            assert(first_nondigit(path@.skip(1)) is None);
        }
        return None;
    }
    proof {
        assert(path@.skip(1)[i - 1] == path@[i as int]);
        assert(forall|j: int| 0 <= j < i - 1 ==> path@.skip(1)[j] == path@[j + 1]);
        lemma_first_nondigit_is(path@.skip(1), i - 1);
    }
    if i == 1 || path[i] != SLASH || n - i < 2 {
        return None;
    }
    let digits = slice_to_vec(path, 1, i);
    assert(digits@ =~= path@.subrange(1, i as int));
    let rest = slice_to_vec(path, i, n);
    assert(rest@ =~= path@.skip(i as int));
    match parse_u64_digits(digits.as_slice()) {
        Some(v) => Some((Some(v), rest)),
        None => {
            proof {
                assert(is_digits(digits@));
            }
            Some((None, rest))
        },
    }
}

pub open spec fn lit_collections() -> Seq<u8> {
    seq![47u8, 99u8, 111u8, 108u8, 108u8, 101u8, 99u8, 116u8, 105u8, 111u8, 110u8,
        115u8]
}

pub open spec fn lit_transcodings() -> Seq<u8> {
    seq![47u8, 116u8, 114u8, 97u8, 110u8, 115u8, 99u8, 111u8, 100u8, 105u8, 110u8,
        103u8, 115u8]
}

pub open spec fn lit_audio() -> Seq<u8> {
    seq![47u8, 97u8, 117u8, 100u8, 105u8, 111u8, 47u8]
}

pub open spec fn lit_folder() -> Seq<u8> {
    seq![47u8, 102u8, 111u8, 108u8, 100u8, 101u8, 114u8, 47u8]
}

pub open spec fn lit_search() -> Seq<u8> {
    seq![47u8, 115u8, 101u8, 97u8, 114u8, 99u8, 104u8]
}

pub open spec fn lit_cover_slash() -> Seq<u8> {
    seq![47u8, 99u8, 111u8, 118u8, 101u8, 114u8, 47u8]
}

pub open spec fn lit_cover() -> Seq<u8> {
    seq![47u8, 99u8, 111u8, 118u8, 101u8, 114u8]
}

pub open spec fn lit_desc_slash() -> Seq<u8> {
    seq![47u8, 100u8, 101u8, 115u8, 99u8, 47u8]
}

pub open spec fn lit_desc() -> Seq<u8> {
    seq![47u8, 100u8, 101u8, 115u8, 99u8]
}

pub open spec fn lit_seek() -> Seq<u8> {
    seq![115u8, 101u8, 101u8, 107u8]
}

pub open spec fn lit_trans() -> Seq<u8> {
    seq![116u8, 114u8, 97u8, 110u8, 115u8]
}

pub open spec fn lit_q() -> Seq<u8> {
    seq![113u8]
}

pub open spec fn lit_get() -> Seq<u8> {
    seq![71u8, 69u8, 84u8]
}

/// The path relative to a checked route prefix: what follows the prefix,
/// without a leading slash.
pub open spec fn subpath_spec(path: Seq<u8>, prefix: Seq<u8>) -> Seq<u8> {
    let rest = path.skip(prefix.len() as int);
    if rest.len() > 0 && rest[0] == SLASH {
        rest.skip(1)
    } else {
        rest
    }
}

/// Strips a route prefix that the caller has already checked, dropping one
/// leading slash from the remainder.
pub fn get_subpath(path: &[u8], prefix: &[u8]) -> (r: Vec<u8>)
    requires
        is_prefix_of(prefix@, path@),
    ensures
        r@ == subpath_spec(path@, prefix@),
{
    let n: usize = path.len();
    let p: usize = prefix.len();
    let from: usize = if p < n && path[p] == SLASH {
        p + 1
    } else {
        p
    };
    let r = slice_to_vec(path, from, n);
    proof {
        let rest = path@.skip(p as int);
        if p < n && path@[p as int] == SLASH {
            assert(r@ =~= rest.skip(1));
        } else {
            assert(r@ =~= rest);
        }
    }
    r
}

/// The range plan's contribution to the audio route: either the single
/// range to serve (or none at all) or the refusal it earns.
pub open spec fn audio_range_model(rh: Option<Seq<u8>>) -> Result<
    Option<ByteRange>,
    ErrorResponse,
> {
    match rh {
        None => Ok(None),
        Some(h) => match range_plan_spec(h) {
            RangePlan::Single(br) => Ok(Some(br)),
            RangePlan::EmptyRanges => Err(ErrorResponse::RangeRequired),
            RangePlan::MultipleRanges => Err(ErrorResponse::MultipleRanges),
            RangePlan::NotBytesUnit => Err(ErrorResponse::NotBytesRange),
            RangePlan::Invalid => Err(ErrorResponse::InvalidRange),
        },
    }
}

/// Routing of the path that remains once the collection index is fixed:
/// the collections and transcodings reports first, then the handlers that
/// work on a subpath.
pub open spec fn route_after_split(col: nat, path: Seq<u8>, query: Option<Seq<u8>>, rh: Option<
    Seq<u8>,
>) -> RouteModel {
    if is_prefix_of(lit_collections(), path) {
        RouteModel::CollectionsList
    } else if is_prefix_of(lit_transcodings(), path) {
        RouteModel::TranscodingsList
    } else if is_prefix_of(lit_audio(), path) {
        match audio_range_model(rh) {
            Err(e) => RouteModel::Error(e),
            Ok(range) => RouteModel::SendAudio {
                collection: col,
                subpath: subpath_spec(path, lit_audio()),
                range,
                seek: match query {
                    Some(q) => lookup_query(q, lit_seek()),
                    None => None,
                },
                quality: match query {
                    Some(q) => match lookup_query(q, lit_trans()) {
                        Some(t) => quality_from_letter(t),
                        None => None,
                    },
                    None => None,
                },
            },
        }
    } else if is_prefix_of(lit_folder(), path) {
        RouteModel::Folder { collection: col, subpath: subpath_spec(path, lit_folder()) }
    } else if path == lit_search() {
        match query {
            Some(q) => match lookup_query(q, lit_q()) {
                Some(qs) => RouteModel::Search { collection: col, query: qs },
                None => RouteModel::Error(ErrorResponse::NotFound),
            },
            None => RouteModel::Error(ErrorResponse::NotFound),
        }
    } else if is_prefix_of(lit_cover_slash(), path) {
        RouteModel::SendCover { collection: col, subpath: subpath_spec(path, lit_cover()) }
    } else if is_prefix_of(lit_desc_slash(), path) {
        RouteModel::SendDesc { collection: col, subpath: subpath_spec(path, lit_desc()) }
    } else {
        RouteModel::Error(ErrorResponse::NotFound)
    }
}

/// The full dispatch of an authenticated request: only GET is served; the
/// raw path is percent-decoded; the collection index gates everything else;
/// and the stripped remainder is classified, the collections and
/// transcodings reports first.
pub open spec fn process_spec(method: Seq<u8>, raw_path: Seq<u8>, query: Option<Seq<u8>>, rh: Option<
    Seq<u8>,
>, num_collections: nat) -> RouteModel {
    if method != lit_get() {
        RouteModel::Error(ErrorResponse::MethodNotSupported)
    } else {
        let path = pd_from(raw_path, false);
        match collection_split(path) {
            Some((idx, rest)) => if idx >= num_collections {
                RouteModel::Error(ErrorResponse::NotFound)
            } else {
                route_after_split(idx, rest, query, rh)
            },
            None => route_after_split(0, path, query, rh),
        }
    }
}

/// A path with a collection prefix is served if and only if the written
/// index is within the configured collections; the route then works on the
/// remainder of the path with exactly that collection selected.
pub proof fn lemma_collection_index_gate(
    method: Seq<u8>,
    raw_path: Seq<u8>,
    query: Option<Seq<u8>>,
    rh: Option<Seq<u8>>,
    num_collections: nat,
    idx: nat,
    rest: Seq<u8>,
)
    requires
        method == lit_get(),
        collection_split(pd_from(raw_path, false)) == Some((idx, rest)),
    ensures
        idx >= num_collections ==> process_spec(method, raw_path, query, rh, num_collections)
            == RouteModel::Error(ErrorResponse::NotFound),
        idx < num_collections ==> process_spec(method, raw_path, query, rh, num_collections)
            == route_after_split(idx, rest, query, rh),
{
}

/// True iff the method is GET.
fn is_get(method: &[u8]) -> (r: bool)
    ensures
        r == (method@ == lit_get()),
{
    let arr: [u8; 3] = [71, 69, 84];
    proof {
        assert(arr@ =~= lit_get());
    }
    bytes_eq(method, arr.as_slice())
}

/// True iff the decoded path names the collections report.
fn has_collections_prefix(p: &[u8]) -> (r: bool)
    ensures
        r == is_prefix_of(lit_collections(), p@),
{
    let arr: [u8; 12] = [47, 99, 111, 108, 108, 101, 99, 116, 105, 111, 110, 115];
    proof {
        assert(arr@ =~= lit_collections());
    }
    starts_with(p, arr.as_slice())
}

/// True iff the decoded path names the transcodings report.
fn has_transcodings_prefix(p: &[u8]) -> (r: bool)
    ensures
        r == is_prefix_of(lit_transcodings(), p@),
{
    let arr: [u8; 13] = [47, 116, 114, 97, 110, 115, 99, 111, 100, 105, 110, 103,
        115];
    proof {
        assert(arr@ =~= lit_transcodings());
    }
    starts_with(p, arr.as_slice())
}

fn has_audio_prefix(p: &[u8]) -> (r: bool)
    ensures
        r == is_prefix_of(lit_audio(), p@),
{
    let arr: [u8; 7] = [47, 97, 117, 100, 105, 111, 47];
    proof {
        assert(arr@ =~= lit_audio());
    }
    starts_with(p, arr.as_slice())
}

fn has_folder_prefix(p: &[u8]) -> (r: bool)
    ensures
        r == is_prefix_of(lit_folder(), p@),
{
    let arr: [u8; 8] = [47, 102, 111, 108, 100, 101, 114, 47];
    proof {
        assert(arr@ =~= lit_folder());
    }
    starts_with(p, arr.as_slice())
}

fn is_search_path(p: &[u8]) -> (r: bool)
    ensures
        r == (p@ == lit_search()),
{
    let arr: [u8; 7] = [47, 115, 101, 97, 114, 99, 104];
    proof {
        assert(arr@ =~= lit_search());
    }
    bytes_eq(p, arr.as_slice())
}

fn has_cover_prefix(p: &[u8]) -> (r: bool)
    ensures
        r == is_prefix_of(lit_cover_slash(), p@),
{
    let arr: [u8; 7] = [47, 99, 111, 118, 101, 114, 47];
    proof {
        assert(arr@ =~= lit_cover_slash());
    }
    starts_with(p, arr.as_slice())
}

fn has_desc_prefix(p: &[u8]) -> (r: bool)
    ensures
        r == is_prefix_of(lit_desc_slash(), p@),
{
    let arr: [u8; 6] = [47, 100, 101, 115, 99, 47];
    proof {
        assert(arr@ =~= lit_desc_slash());
    }
    starts_with(p, arr.as_slice())
}

fn audio_subpath(path: &[u8]) -> (r: Vec<u8>)
    requires
        is_prefix_of(lit_audio(), path@),
    ensures
        r@ == subpath_spec(path@, lit_audio()),
{
    let arr: [u8; 7] = [47, 97, 117, 100, 105, 111, 47];
    proof {
        assert(arr@ =~= lit_audio());
    }
    get_subpath(path, arr.as_slice())
}

fn folder_subpath(path: &[u8]) -> (r: Vec<u8>)
    requires
        is_prefix_of(lit_folder(), path@),
    ensures
        r@ == subpath_spec(path@, lit_folder()),
{
    let arr: [u8; 8] = [47, 102, 111, 108, 100, 101, 114, 47];
    proof {
        assert(arr@ =~= lit_folder());
    }
    get_subpath(path, arr.as_slice())
}

fn cover_subpath(path: &[u8]) -> (r: Vec<u8>)
    requires
        is_prefix_of(lit_cover_slash(), path@),
    ensures
        r@ == subpath_spec(path@, lit_cover()),
{
    let arr: [u8; 6] = [47, 99, 111, 118, 101, 114];
    proof {
        assert(arr@ =~= lit_cover());
        assert(forall|i: int| 0 <= i < 7 ==> path@[i] == lit_cover_slash()[i]);
        assert(path@.subrange(0, 6) =~= lit_cover());
    }
    get_subpath(path, arr.as_slice())
}

fn desc_subpath(path: &[u8]) -> (r: Vec<u8>)
    requires
        is_prefix_of(lit_desc_slash(), path@),
    ensures
        r@ == subpath_spec(path@, lit_desc()),
{
    let arr: [u8; 5] = [47, 100, 101, 115, 99];
    proof {
        assert(arr@ =~= lit_desc());
        assert(forall|i: int| 0 <= i < 6 ==> path@[i] == lit_desc_slash()[i]);
        assert(path@.subrange(0, 5) =~= lit_desc());
    }
    get_subpath(path, arr.as_slice())
}

/// The decoded `seek` parameter of a query string.
fn seek_param(q: &[u8]) -> (r: Option<Vec<u8>>)
    ensures
        opt_bytes(r) == lookup_query(q@, lit_seek()),
{
    let arr: [u8; 4] = [115, 101, 101, 107];
    proof {
        assert(arr@ =~= lit_seek());
    }
    query_param(q, arr.as_slice())
}

/// The quality level asked for by the `trans` parameter of a query string.
fn trans_param(q: &[u8]) -> (r: Option<QualityLevel>)
    ensures
        r == (match lookup_query(q@, lit_trans()) {
            Some(t) => quality_from_letter(t),
            None => None,
        }),
{
    let arr: [u8; 5] = [116, 114, 97, 110, 115];
    proof {
        assert(arr@ =~= lit_trans());
    }
    match query_param(q, arr.as_slice()) {
        Some(t) => QualityLevel::from_letter(t.as_slice()),
        None => None,
    }
}

/// The decoded `q` parameter of a query string.
fn q_param(q: &[u8]) -> (r: Option<Vec<u8>>)
    ensures
        opt_bytes(r) == lookup_query(q@, lit_q()),
{
    let arr: [u8; 1] = [113];
    proof {
        assert(arr@ =~= lit_q());
    }
    query_param(q, arr.as_slice())
}

/// Plans the byte range of an audio request from its raw `Range` header.
fn plan_range(range_header: Option<&[u8]>) -> (r: Result<Option<ByteRange>, ErrorResponse>)
    ensures
        r == audio_range_model(opt_slice(range_header)),
{
    match range_header {
        None => Ok(None),
        Some(h) => match parse_range_header(h) {
            RangePlan::Single(br) => Ok(Some(br)),
            RangePlan::EmptyRanges => Err(ErrorResponse::RangeRequired),
            RangePlan::MultipleRanges => Err(ErrorResponse::MultipleRanges),
            RangePlan::NotBytesUnit => Err(ErrorResponse::NotBytesRange),
            RangePlan::Invalid => Err(ErrorResponse::InvalidRange),
        },
    }
}

/// Each shape of `Range` header earns its own answer: no range at all is a
/// 400 refusal; more than one range, or a unit other than bytes, a 501
/// refusal; and the single well-formed bytes range is passed downstream
/// unchanged.
pub proof fn lemma_range_planner_statuses(h: Seq<u8>)
    ensures
        range_plan_spec(h) == RangePlan::EmptyRanges ==> audio_range_model(Some(h))
            == Err::<Option<ByteRange>, ErrorResponse>(ErrorResponse::RangeRequired)
            && ErrorResponse::RangeRequired.status_spec() == 400,
        range_plan_spec(h) == RangePlan::MultipleRanges ==> audio_range_model(Some(h))
            == Err::<Option<ByteRange>, ErrorResponse>(ErrorResponse::MultipleRanges)
            && ErrorResponse::MultipleRanges.status_spec() == 501,
        range_plan_spec(h) == RangePlan::NotBytesUnit ==> audio_range_model(Some(h))
            == Err::<Option<ByteRange>, ErrorResponse>(ErrorResponse::NotBytesRange)
            && ErrorResponse::NotBytesRange.status_spec() == 501,
        range_plan_spec(h) matches RangePlan::Single(br) ==> audio_range_model(Some(h))
            == Ok::<Option<ByteRange>, ErrorResponse>(Some(br)),
        audio_range_model(None) == Ok::<Option<ByteRange>, ErrorResponse>(
            None::<ByteRange>,
        ),
{
}

/// Dispatches an authenticated request from its method, raw path, raw query
/// string, raw `Range` header value, and the number of configured
/// collections.
#[verifier::rlimit(100)]
#[verifier::spinoff_prover]
pub fn process_checked(
    method: &[u8],
    raw_path: &[u8],
    query: Option<&[u8]>,
    range_header: Option<&[u8]>,
    num_collections: usize,
) -> (r: RouteDecision)
    ensures
        route_view(r) == process_spec(
            method@,
            raw_path@,
            opt_slice(query),
            opt_slice(range_header),
            num_collections as nat,
        ),
{
    if !is_get(method) {
        return RouteDecision::Error(ErrorResponse::MethodNotSupported);
    }
    let path = percent_decode(raw_path, false);
    let (col, path1): (usize, Vec<u8>) = match split_collection(path.as_slice()) {
        Some((v, rest)) => {
            let idx_small: Option<usize> = match v {
                Some(u) => {
                    if u < num_collections as u64 {
                        Some(u as usize)
                    } else {
                        None
                    }
                },
                None => None,
            };
            match idx_small {
                Some(c) => (c, rest),
                None => {
                    return RouteDecision::Error(ErrorResponse::NotFound);
                },
            }
        },
        None => (0, path),
    };
    route_rest(col, path1, query, range_header)
}

/// Routes the remainder of the path once the collection is selected.
fn route_rest(col: usize, path: Vec<u8>, query: Option<&[u8]>, range_header: Option<
    &[u8],
>) -> (r: RouteDecision)
    ensures
        route_view(r) == route_after_split(
            col as nat,
            path@,
            opt_slice(query),
            opt_slice(range_header),
        ),
{
    if has_collections_prefix(path.as_slice()) {
        RouteDecision::CollectionsList
    } else if has_transcodings_prefix(path.as_slice()) {
        RouteDecision::TranscodingsList
    } else if has_audio_prefix(path.as_slice()) {
        audio_route(col, path.as_slice(), query, range_header)
    } else if has_folder_prefix(path.as_slice()) {
        let subpath = folder_subpath(path.as_slice());
        RouteDecision::Folder { collection: col, subpath }
    } else if is_search_path(path.as_slice()) {
        search_route(col, path.as_slice(), query, range_header)
    } else if has_cover_prefix(path.as_slice()) {
        let subpath = cover_subpath(path.as_slice());
        RouteDecision::SendCover { collection: col, subpath }
    } else if has_desc_prefix(path.as_slice()) {
        let subpath = desc_subpath(path.as_slice());
        RouteDecision::SendDesc { collection: col, subpath }
    } else {
        RouteDecision::Error(ErrorResponse::NotFound)
    }
}

/// The audio-streaming branch of the route: the range plan, the `seek` and
/// `trans` parameters, and the audio subpath.
#[verifier::spinoff_prover]
fn audio_route(col: usize, path: &[u8], query: Option<&[u8]>, range_header: Option<
    &[u8],
>) -> (r: RouteDecision)
    requires
        !is_prefix_of(lit_collections(), path@),
        !is_prefix_of(lit_transcodings(), path@),
        is_prefix_of(lit_audio(), path@),
    ensures
        route_view(r) == route_after_split(
            col as nat,
            path@,
            opt_slice(query),
            opt_slice(range_header),
        ),
{
    match plan_range(range_header) {
        Err(e) => RouteDecision::Error(e),
        Ok(range) => {
            let seek: Option<Vec<u8>> = match query {
                Some(qs) => seek_param(qs),
                None => None,
            };
            let quality: Option<QualityLevel> = match query {
                Some(qs) => trans_param(qs),
                None => None,
            };
            let subpath = audio_subpath(path);
            RouteDecision::SendAudio { collection: col, subpath, range, seek, quality }
        },
    }
}

/// The search branch of the route: the `q` parameter is required.
#[verifier::spinoff_prover]
#[allow(unused_variables)]
fn search_route(col: usize, path: &[u8], query: Option<&[u8]>, range_header: Option<
    &[u8],
>) -> (r: RouteDecision)
    requires
        !is_prefix_of(lit_collections(), path@),
        !is_prefix_of(lit_transcodings(), path@),
        !is_prefix_of(lit_audio(), path@),
        !is_prefix_of(lit_folder(), path@),
        path@ == lit_search(),
    ensures
        route_view(r) == route_after_split(
            col as nat,
            path@,
            opt_slice(query),
            opt_slice(range_header),
        ),
{
    match query {
        Some(qs) => match q_param(qs) {
            Some(found) => RouteDecision::Search { collection: col, query: found },
            None => RouteDecision::Error(ErrorResponse::NotFound),
        },
        None => RouteDecision::Error(ErrorResponse::NotFound),
    }
}

} // verus!
