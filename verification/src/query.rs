//! Queries against the service's RPC endpoint, and the address of a
//! package's source archive.

use crate::error::{Error, ErrorKind};
use crate::record::PackageRecord;
use vstd::prelude::*;

verus! {

/// What a query asks of the service.
#[derive(Clone, Copy, Debug, PartialEq, Eq, Structural)]
pub enum RequestKind {
    /// Packages whose name or description holds a term.
    Search,
    /// The packages with the given names.
    Info,
}

/// The value of the `type` parameter for a kind of request.
pub open spec fn kind_text(kind: RequestKind) -> Seq<char> {
    match kind {
        RequestKind::Search => "search"@,
        RequestKind::Info => "info"@,
    }
}

/// The endpoint that every query goes to.
pub open spec fn endpoint_text() -> Seq<char> {
    "https://aur.archlinux.org/rpc/"@
}

/// The host that serves source archives.
pub open spec fn archive_host_text() -> Seq<char> {
    "https://aur.archlinux.org"@
}

/// A list of parameters as pairs of texts.
pub open spec fn pairs(params: Seq<(String, String)>) -> Seq<(Seq<char>, Seq<char>)> {
    Seq::new(params.len(), |i: int| (params[i].0@, params[i].1@))
}

/// The parameters that open every query: the protocol version and the kind
/// of request.
pub open spec fn leading_pairs(kind: RequestKind) -> Seq<(Seq<char>, Seq<char>)> {
    seq![("v"@, "5"@), ("type"@, kind_text(kind))]
}

/// The parameters of a search for `term`.
pub open spec fn search_pairs(term: Seq<char>) -> Seq<(Seq<char>, Seq<char>)> {
    seq![("by"@, "name-desc"@), ("arg"@, term)]
}

/// The parameters of a lookup: one `arg[]` for each name, in order.
pub open spec fn info_pairs(names: Seq<Seq<char>>) -> Seq<(Seq<char>, Seq<char>)> {
    Seq::new(names.len(), |i: int| ("arg[]"@, names[i]))
}

/// The URL that `url::Url::parse_with_params` makes of an address and a list
/// of query parameters, or `None` where it reports that the address is no
/// absolute URL.
pub uninterp spec fn url_with_params(
    base: Seq<char>,
    params: Seq<(Seq<char>, Seq<char>)>,
) -> Option<Seq<char>>;

/// `url::ParseError`: the reason for which the URL parser refuses an
/// address. Trusted as a type only: a value of it is carried through, and
/// nothing is claimed of what it holds.
#[verifier::external_type_specification]
#[verifier::external_body]
pub struct ExParseError(url::ParseError);

/// Calls `url::Url::parse_with_params` and hands back the URL as text.
///
/// Trusted: the outcome is a function of the two arguments, named
/// [`url_with_params`]. The call keeps places within the URL as numbers of
/// 32 bits and fails an internal check where one does not fit. Two demands
/// keep it from there: the address is short enough for its parsed form,
/// which takes at most twelve bytes for a character, to stay below four
/// gigabytes; and it holds no fragment, since a fragment is put back
/// behind the parameters, however long these are.
#[verifier::external_body]
fn parse_with_params(base: &str, params: &Vec<(String, String)>) -> (parsed: Result<
    String,
    url::ParseError,
>)
    requires
        base@.len() <= 0x1000_0000,
        !base@.contains('#'),
    ensures
        match parsed {
            Ok(text) => url_with_params(base@, pairs(params@)) == Some(text@),
            Err(_) => url_with_params(base@, pairs(params@)) is None,
        },
{
    match url::Url::parse_with_params(base, params) {
        Ok(url) => Ok(String::from(url)),
        Err(cause) => Err(cause),
    }
}

/// Calls `to_string` on a `url::ParseError`: the sentence by which the
/// parser describes what it refused. Trusted, with nothing claimed of the
/// text.
#[verifier::external_body]
fn parse_error_text(cause: &url::ParseError) -> String {
    cause.to_string()
}

impl RequestKind {
    /// The value of the `type` parameter for this kind of request.
    pub fn name(self) -> (name: &'static str)
        ensures
            name@ == kind_text(self),
    {
        match self {
            RequestKind::Search => "search",
            RequestKind::Info => "info",
        }
    }
}

/// One parameter from a key and a value.
fn pair(key: &str, value: &str) -> (made: (String, String))
    ensures
        made.0@ == key@,
        made.1@ == value@,
{
    (String::from_str(key), String::from_str(value))
}

/// The parameters of a search for `term` in names and descriptions. Any
/// term is accepted, the empty one too.
pub fn search_params(term: &str) -> (params: Vec<(String, String)>)
    ensures
        pairs(params@) == search_pairs(term@),
{
    let mut params: Vec<(String, String)> = Vec::new();
    params.push(pair("by", "name-desc"));
    params.push(pair("arg", term));
    assert(pairs(params@) =~= search_pairs(term@));
    params
}

/// The parameters of a lookup of the packages with the given names: one
/// `arg[]` for each name, in the order given.
pub fn info_params(names: &Vec<String>) -> (params: Vec<(String, String)>)
    ensures
        pairs(params@) == info_pairs(crate::record::texts(names@)),
{
    let mut params: Vec<(String, String)> = Vec::new();
    let mut i: usize = 0;
    while i < names.len()
        invariant
            i <= names.len(),
            params@.len() == i,
            forall|k: int|
                0 <= k < i ==> (#[trigger] params@[k]).0@ == "arg[]"@ && params@[k].1@
                    == names@[k]@,
        decreases names.len() - i,
    {
        params.push(pair("arg[]", names[i].as_str()));
        i += 1;
    }
    assert(pairs(params@) =~= info_pairs(crate::record::texts(names@)));
    params
}

/// The full parameter list of a query: the protocol version and the kind of
/// request, then `extra` as given.
pub fn query_params(kind: RequestKind, extra: &Vec<(String, String)>) -> (params: Vec<
    (String, String),
>)
    ensures
        pairs(params@) == leading_pairs(kind) + pairs(extra@),
{
    let mut params: Vec<(String, String)> = Vec::new();
    params.push(pair("v", "5"));
    params.push(pair("type", kind.name()));
    let mut i: usize = 0;
    while i < extra.len()
        invariant
            i <= extra.len(),
            params@.len() == i + 2,
            params@[0].0@ == "v"@,
            params@[0].1@ == "5"@,
            params@[1].0@ == "type"@,
            params@[1].1@ == kind_text(kind),
            forall|k: int|
                2 <= k < i + 2 ==> (#[trigger] params@[k]).0@ == extra@[k - 2].0@ && params@[k].1@
                    == extra@[k - 2].1@,
        decreases extra.len() - i,
    {
        params.push(pair(extra[i].0.as_str(), extra[i].1.as_str()));
        i += 1;
    }
    proof {
        let joined = leading_pairs(kind) + pairs(extra@);
        assert(pairs(params@).len() == joined.len());
        assert forall|k: int| 0 <= k < joined.len() implies pairs(params@)[k] == joined[k] by {
            if k >= 2 {
                assert(joined[k] == pairs(extra@)[k - 2]);
            }
        }
        assert(pairs(params@) =~= joined);
    }
    params
}

/// The failure reported for a query that could not be made into a URL.
pub fn url_failure(cause: &url::ParseError) -> (error: Error)
    ensures
        error.kind == ErrorKind::Url,
        error.field is None,
{
    let text = parse_error_text(cause);
    Error::new(ErrorKind::Url, text.as_str())
}

/// What a query comes to once the URL parser has answered: the URL, or a
/// failure of kind `Url`.
pub fn query_outcome(parsed: Result<String, url::ParseError>) -> (outcome: Result<String, Error>)
    ensures
        match parsed {
            Ok(text) => outcome == Ok::<String, Error>(text),
            Err(_) => outcome is Err && outcome->Err_0.kind == ErrorKind::Url
                && outcome->Err_0.field is None,
        },
{
    match parsed {
        Ok(text) => Ok(text),
        Err(cause) => Err(url_failure(&cause)),
    }
}

/// The URL of a query of the given kind: the endpoint with the protocol
/// version, the kind and then `extra` as its percent-encoded query string.
///
/// Nothing is checked about `extra`: an empty term or an unknown name makes
/// a valid query, which the service answers with no results.
pub fn build_query(kind: RequestKind, extra: &Vec<(String, String)>) -> (outcome: Result<
    String,
    Error,
>)
    ensures
        match url_with_params(endpoint_text(), leading_pairs(kind) + pairs(extra@)) {
            Some(text) => outcome is Ok && outcome->Ok_0@ == text,
            None => outcome is Err && outcome->Err_0.kind == ErrorKind::Url
                && outcome->Err_0.field is None,
        },
{
    let params = query_params(kind, extra);
    proof {
        reveal_strlit("https://aur.archlinux.org/rpc/");
    }
    query_outcome(parse_with_params("https://aur.archlinux.org/rpc/", &params))
}

/// The URL of a search for `term`.
pub fn search_query(term: &str) -> (outcome: Result<String, Error>)
    ensures
        match url_with_params(
            endpoint_text(),
            leading_pairs(RequestKind::Search) + search_pairs(term@),
        ) {
            Some(text) => outcome is Ok && outcome->Ok_0@ == text,
            None => outcome is Err && outcome->Err_0.kind == ErrorKind::Url
                && outcome->Err_0.field is None,
        },
{
    build_query(RequestKind::Search, &search_params(term))
}

/// The URL of a lookup of the packages with the given names.
pub fn info_query(names: &Vec<String>) -> (outcome: Result<String, Error>)
    ensures
        match url_with_params(
            endpoint_text(),
            leading_pairs(RequestKind::Info) + info_pairs(crate::record::texts(names@)),
        ) {
            Some(text) => outcome is Ok && outcome->Ok_0@ == text,
            None => outcome is Err && outcome->Err_0.kind == ErrorKind::Url
                && outcome->Err_0.field is None,
        },
{
    build_query(RequestKind::Info, &info_params(names))
}

/// The address of a package's source archive: the archive host followed by
/// the record's path, as the service gave it.
pub fn download_url(package: &PackageRecord) -> (address: String)
    ensures
        address@ == archive_host_text() + package.url_path@,
{
    let mut address = String::from_str("https://aur.archlinux.org");
    address.append(package.url_path.as_str());
    address
}

} // verus!
