//! Request dispatch: from a host header and a load result to an HTTP outcome.
//!
//! The decision tree, evaluated fresh for every request: a host with fewer
//! than three labels is a bad request; a failed load is an internal error;
//! the subdomain `list` returns the whole mapping as JSON; otherwise the
//! first entry whose `short` equals the subdomain wins and the request
//! redirects to its `long`, or misses with a not-found.

use crate::host::{HostParse, label_count, parse_host, subdomain_of};
use crate::json::{listing_body, listing_json};
use crate::shorthand::{
    LoadError, LoadErrorModel, Shorthand, ShorthandModel, entries_model, has_reserved,
    lemma_lookup_first_match, load_error_reason, lookup, lookup_spec, str_option_model,
    validate_entries,
};
use vstd::prelude::*;

verus! {

/// What the server answers to one request.
pub enum HttpOutcome {
    /// 400: the host has no subdomain.
    BadRequest,
    /// 200: the subdomain is the reserved `list`; the body is the mapping.
    Listing(Vec<Shorthand>),
    /// 302: the subdomain matched; redirect to the matched destination.
    Redirect(String),
    /// 404: the subdomain matched no entry.
    NotFound,
    /// 500: the mapping could not be loaded; holds the reason.
    InternalError(String),
}

/// The mathematical value of an [`HttpOutcome`].
pub enum OutcomeModel {
    BadRequest,
    Listing(Seq<ShorthandModel>),
    Redirect(Seq<char>),
    NotFound,
    InternalError(Seq<char>),
}

impl View for HttpOutcome {
    type V = OutcomeModel;

    open spec fn view(&self) -> OutcomeModel {
        match self {
            HttpOutcome::BadRequest => OutcomeModel::BadRequest,
            HttpOutcome::Listing(es) => OutcomeModel::Listing(entries_model(es@)),
            HttpOutcome::Redirect(l) => OutcomeModel::Redirect(l@),
            HttpOutcome::NotFound => OutcomeModel::NotFound,
            HttpOutcome::InternalError(m) => OutcomeModel::InternalError(m@),
        }
    }
}

/// The mathematical value of a load result.
pub open spec fn load_model(r: Result<Vec<Shorthand>, LoadError>) -> Result<
    Seq<ShorthandModel>,
    LoadErrorModel,
> {
    match r {
        Ok(es) => Ok(entries_model(es@)),
        Err(e) => Err(e@),
    }
}

/// The mapping loader's semantic step over models: a parsed mapping stands
/// unless some entry uses the reserved name `list`.
pub open spec fn validate_model(load: Result<Seq<ShorthandModel>, LoadErrorModel>) -> Result<
    Seq<ShorthandModel>,
    LoadErrorModel,
> {
    match load {
        Ok(es) => if has_reserved(es) {
            Err(LoadErrorModel::ReservedName)
        } else {
            Ok(es)
        },
        Err(e) => Err(e),
    }
}

/// The whole decision tree: what one request answers, given its host header
/// and the (already validated) result of loading the mapping.
pub open spec fn dispatch_model(
    host: Seq<char>,
    load: Result<Seq<ShorthandModel>, LoadErrorModel>,
) -> OutcomeModel {
    if label_count(host) < 3 {
        OutcomeModel::BadRequest
    } else {
        match load {
            Err(e) => OutcomeModel::InternalError(load_error_reason(e)),
            Ok(es) => if subdomain_of(host) == "list"@ {
                OutcomeModel::Listing(es)
            } else {
                match lookup_spec(es, subdomain_of(host)) {
                    Some(l) => OutcomeModel::Redirect(l),
                    None => OutcomeModel::NotFound,
                }
            },
        }
    }
}

/// The HTTP status code of an outcome.
pub open spec fn status_model(o: OutcomeModel) -> int {
    match o {
        OutcomeModel::BadRequest => 400,
        OutcomeModel::Listing(_) => 200,
        OutcomeModel::Redirect(_) => 302,
        OutcomeModel::NotFound => 404,
        OutcomeModel::InternalError(_) => 500,
    }
}

/// The `Location` header of an outcome: set only on a redirect, to the
/// matched destination.
pub open spec fn location_model(o: OutcomeModel) -> Option<Seq<char>> {
    match o {
        OutcomeModel::Redirect(l) => Some(l),
        _ => None,
    }
}

/// The response body of an outcome.
pub open spec fn body_model(o: OutcomeModel) -> Seq<char> {
    match o {
        OutcomeModel::BadRequest => "no subdomain provided"@,
        OutcomeModel::Listing(es) => listing_json(es),
        OutcomeModel::Redirect(l) => "Redirecting to: "@ + l,
        OutcomeModel::NotFound => "not found"@,
        OutcomeModel::InternalError(m) => "Internal server error: "@ + m,
    }
}

/// The `Content-Type` header of an outcome: set only on the listing, whose
/// body is JSON.
pub open spec fn content_type_model(o: OutcomeModel) -> Option<Seq<char>> {
    match o {
        OutcomeModel::Listing(_) => Some("application/json"@),
        _ => None,
    }
}

impl HttpOutcome {
    /// The HTTP status code to answer with.
    pub fn status_code(&self) -> (r: u16)
        ensures
            r == status_model(self@),
    {
        match self {
            HttpOutcome::BadRequest => 400,
            HttpOutcome::Listing(_) => 200,
            HttpOutcome::Redirect(_) => 302,
            HttpOutcome::NotFound => 404,
            HttpOutcome::InternalError(_) => 500,
        }
    }

    /// The `Location` header to answer with, if any.
    pub fn location(&self) -> (r: Option<String>)
        ensures
            str_option_model(r) == location_model(self@),
    {
        match self {
            HttpOutcome::Redirect(l) => Some(l.clone()),
            _ => None,
        }
    }

    /// The `Content-Type` header to answer with, if any.
    pub fn content_type(&self) -> (r: Option<String>)
        ensures
            str_option_model(r) == content_type_model(self@),
    {
        match self {
            HttpOutcome::Listing(_) => Some(String::from_str("application/json")),
            _ => None,
        }
    }

    /// The response body to answer with.
    pub fn body(&self) -> (r: String)
        ensures
            r@ == body_model(self@),
    {
        match self {
            HttpOutcome::BadRequest => String::from_str("no subdomain provided"),
            HttpOutcome::Listing(es) => listing_body(es),
            HttpOutcome::Redirect(l) => {
                let mut s = String::from_str("Redirecting to: ");
                s.append(l.as_str());
                s
            },
            HttpOutcome::NotFound => String::from_str("not found"),
            HttpOutcome::InternalError(m) => {
                let mut s = String::from_str("Internal server error: ");
                s.append(m.as_str());
                s
            },
        }
    }
}

/// Dispatches one request whose mapping was already validated: parses the
/// host and walks the decision tree.
pub fn dispatch(host: &str, load: Result<Vec<Shorthand>, LoadError>) -> (r: HttpOutcome)
    ensures
        r@ == dispatch_model(host@, load_model(load)),
{
    match parse_host(host) {
        HostParse::Malformed => HttpOutcome::BadRequest,
        HostParse::Valid { subdomain } => match load {
            Err(e) => {
                let reason = e.reason();
                HttpOutcome::InternalError(reason)
            },
            Ok(entries) => {
                let reserved = String::from_str("list");
                if subdomain == reserved {
                    HttpOutcome::Listing(entries)
                } else {
                    match lookup(&entries, &subdomain) {
                        Some(l) => HttpOutcome::Redirect(l),
                        None => HttpOutcome::NotFound,
                    }
                }
            },
        },
    }
}

/// Handles one request end to end, given the raw result of reading and
/// parsing the external source: validates the mapping (the reserved name
/// `list` must not appear as a `short`), then dispatches on the host.
pub fn handle_request(host: &str, parsed: Result<Vec<Shorthand>, LoadError>) -> (r: HttpOutcome)
    ensures
        r@ == dispatch_model(host@, validate_model(load_model(parsed))),
{
    match parsed {
        Ok(entries) => match validate_entries(entries) {
            Ok(es) => dispatch(host, Ok(es)),
            Err(e) => dispatch(host, Err(e)),
        },
        Err(e) => dispatch(host, Err(e)),
    }
}

/// A host with at least three labels whose subdomain names some entry is
/// answered with a redirect (302) to the first such entry's destination,
/// which also stands in the `Location` header.
pub proof fn law_redirect_on_match(host: Seq<char>, es: Seq<ShorthandModel>)
    requires
        label_count(host) >= 3,
        !has_reserved(es),
        exists|i: int| 0 <= i < es.len() && es[i].short == subdomain_of(host),
    ensures
        exists|i: int|
            {
                &&& 0 <= i < es.len()
                &&& es[i].short == subdomain_of(host)
                &&& (forall|k: int| 0 <= k < i ==> es[k].short != subdomain_of(host))
                &&& dispatch_model(host, Ok(es)) == OutcomeModel::Redirect(es[i].long)
                &&& location_model(dispatch_model(host, Ok(es))) == Some(es[i].long)
            },
        status_model(dispatch_model(host, Ok(es))) == 302,
{
    let sub = subdomain_of(host);
    let w = choose|i: int| 0 <= i < es.len() && es[i].short == sub;
    if sub == "list"@ {
        assert(es[w].short == "list"@);
        assert(false);
    }
    lemma_lookup_first_match(es, sub);
    let i = choose|i: int|
        {
            &&& 0 <= i < es.len()
            &&& es[i].short == sub
            &&& lookup_spec(es, sub) == Some(es[i].long)
            &&& forall|k: int| 0 <= k < i ==> es[k].short != sub
        };
    assert(dispatch_model(host, Ok(es)) == OutcomeModel::Redirect(es[i].long));
}

/// A host with at least three labels whose subdomain is neither `list` nor
/// any entry's `short` is answered with a not-found (404).
pub proof fn law_not_found_on_miss(host: Seq<char>, es: Seq<ShorthandModel>)
    requires
        label_count(host) >= 3,
        subdomain_of(host) != "list"@,
        forall|i: int| 0 <= i < es.len() ==> es[i].short != subdomain_of(host),
    ensures
        dispatch_model(host, Ok(es)) == OutcomeModel::NotFound,
        status_model(dispatch_model(host, Ok(es))) == 404,
{
    lemma_lookup_first_match(es, subdomain_of(host));
}

/// A host with fewer than three labels is answered with a bad request (400),
/// whatever the mapping or its load result.
pub proof fn law_bad_request_without_subdomain(
    host: Seq<char>,
    load: Result<Seq<ShorthandModel>, LoadErrorModel>,
)
    requires
        label_count(host) < 3,
    ensures
        dispatch_model(host, load) == OutcomeModel::BadRequest,
        status_model(dispatch_model(host, load)) == 400,
{
}

/// A host with at least three labels and the subdomain `list` is answered
/// with the listing (200), whose body holds exactly the loaded entries, in
/// load order.
pub proof fn law_listing_in_load_order(host: Seq<char>, es: Seq<ShorthandModel>)
    requires
        label_count(host) >= 3,
        subdomain_of(host) == "list"@,
    ensures
        dispatch_model(host, Ok(es)) == OutcomeModel::Listing(es),
        status_model(dispatch_model(host, Ok(es))) == 200,
        body_model(dispatch_model(host, Ok(es))) == listing_json(es),
{
}

/// A mapping with an entry whose `short` is the reserved name `list` fails
/// to load, and every request with a subdomain is answered with an internal
/// error (500).
pub proof fn law_reserved_name_rejected(host: Seq<char>, es: Seq<ShorthandModel>)
    requires
        label_count(host) >= 3,
        has_reserved(es),
    ensures
        validate_model(Ok(es)) == Err::<Seq<ShorthandModel>, LoadErrorModel>(
            LoadErrorModel::ReservedName,
        ),
        dispatch_model(host, validate_model(Ok(es))) matches OutcomeModel::InternalError(m) && m
            == load_error_reason(LoadErrorModel::ReservedName),
        status_model(dispatch_model(host, validate_model(Ok(es)))) == 500,
{
}

/// The same request against the same source is answered identically both
/// times: the outcome, and with it status, headers and body, is a function
/// of the host and the load result alone.
pub proof fn law_idempotent(
    host: Seq<char>,
    load: Result<Seq<ShorthandModel>, LoadErrorModel>,
    r1: OutcomeModel,
    r2: OutcomeModel,
)
    requires
        r1 == dispatch_model(host, validate_model(load)),
        r2 == dispatch_model(host, validate_model(load)),
    ensures
        r1 == r2,
        status_model(r1) == status_model(r2),
        location_model(r1) == location_model(r2),
        content_type_model(r1) == content_type_model(r2),
        body_model(r1) == body_model(r2),
{
}

} // verus!
