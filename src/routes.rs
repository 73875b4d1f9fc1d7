use crate::encoding::{base64_url_no_pad, decimal, decimal_bytes, encode_url_safe_no_pad};
use crate::utils::{
    or_internal_error, ApiError, StoreError, DEFAULT_CACHE_CONTROL_HEADER_VALUE, STATUS_CONFLICT,
    STATUS_INTERNAL_SERVER_ERROR, STATUS_NOT_FOUND, STATUS_OK, STATUS_TEMPORARY_REDIRECT,
};
use rand::Rng;
use vstd::prelude::*;

verus! {

/// A stored link: its short identifier and the normalized target URL.
pub struct Link {
    pub id: String,
    pub target_url: String,
}

/// Body of a create or update request.
pub struct LinkTarget {
    pub target_url: String,
}

/// One grouped row of a link's statistics.
pub struct CountedLinkStatistic {
    pub amount: Option<i64>,
    pub referer: Option<String>,
    pub user_agent: Option<String>,
}

/// One resolution of a link, to be recorded.
pub struct LinkStatisticEvent {
    pub link_id: String,
    pub referer: String,
    pub user_agent: String,
}

/// The temporary redirect answered for a resolved link.
pub struct RedirectResponse {
    pub status: u16,
    pub location: String,
    pub cache_control: String,
}

/// What a resolved redirect does: answer the response, and record the event
/// without letting its outcome change that response.
pub struct Redirect {
    pub response: RedirectResponse,
    pub statistic: LinkStatisticEvent,
}

pub struct HealthResponse {
    pub status: String,
    pub info: String,
}

impl HealthResponse {
    pub fn healthy() -> (r: HealthResponse)
        ensures
            r.status@ == "ok"@,
            r.info@ == "Todos os serviços estão saudáveis"@,
    {
        HealthResponse {
            status: "ok".to_owned(),
            info: "Todos os serviços estão saudáveis".to_owned(),
        }
    }
}

/// The health endpoint's answer: status 200 and a healthy body.
pub fn health_check() -> (r: (u16, HealthResponse))
    ensures
        r.0 == STATUS_OK,
        r.1.status@ == "ok"@,
        r.1.info@ == "Todos os serviços estão saudáveis"@,
{
    (STATUS_OK, HealthResponse::healthy())
}

// ---- target URL validation ----

/// The serialization of `s` parsed as an absolute URL, or `None` where it
/// does not parse.
pub uninterp spec fn parsed_url_of(s: Seq<char>) -> Option<Seq<char>>;

/// Relies on `url::Url::parse` and `Url`'s `Display`: the normalized form of
/// a URL that parses, `None` for one that does not.
#[verifier::external_body]
fn parse_url(s: &str) -> (r: Option<String>)
    ensures
        match r {
            Some(u) => parsed_url_of(s@) == Some(u@),
            None => parsed_url_of(s@) is None,
        },
{
    match url::Url::parse(s) {
        Ok(u) => Some(u.to_string()),
        Err(_) => None,
    }
}

pub open spec fn malformed_url_message() -> Seq<char> {
    "URL mal formatada"@
}

/// The answer to a target URL that does not parse: 409 Conflict.
pub open spec fn is_malformed_url_error(e: ApiError) -> bool {
    e.status == STATUS_CONFLICT && e.message@ == malformed_url_message()
}

/// The validated target for the outcome of parsing it.
pub fn target_from_parsed(parsed: Option<String>) -> (r: Result<String, ApiError>)
    ensures
        match parsed {
            Some(u) => r is Ok && r->Ok_0@ == u@,
            None => r is Err && is_malformed_url_error(r->Err_0),
        },
{
    match parsed {
        Some(u) => Ok(u),
        None => Err(ApiError { status: STATUS_CONFLICT, message: "URL mal formatada".to_owned() }),
    }
}

/// The normalized form of a target URL, or 409 Conflict where it is malformed.
pub fn validate_target_url(target_url: &str) -> (r: Result<String, ApiError>)
    ensures
        match parsed_url_of(target_url@) {
            Some(u) => r is Ok && r->Ok_0@ == u,
            None => r is Err && is_malformed_url_error(r->Err_0),
        },
{
    target_from_parsed(parse_url(target_url))
}

// ---- identifiers ----

/// The identifier drawn from the number `n`: URL-safe, unpadded base64 of
/// its decimal digits.
pub open spec fn id_of(n: u32) -> Seq<char> {
    base64_url_no_pad(decimal(n as nat))
}

/// Relies on rand's `thread_rng` and `Rng::gen_range`: a value of the
/// half-open range `0..u32::MAX`, which is not empty.
#[verifier::external_body]
fn random_below_u32_max() -> (r: u32)
    ensures
        r < u32::MAX,
{
    rand::thread_rng().gen_range(0..u32::MAX)
}

/// The identifier for the number `n`.
pub fn id_from_number(n: u32) -> (r: String)
    ensures
        r@ == id_of(n),
{
    let digits = decimal_bytes(n);
    encode_url_safe_no_pad(digits.as_slice())
}

/// A fresh identifier from a random number below `u32::MAX`. Nothing checks
/// it against existing identifiers.
pub fn generate_id() -> (r: String)
    ensures
        exists|n: u32| n < u32::MAX && r@ == id_of(n),
{
    let n = random_below_u32_max();
    id_from_number(n)
}

// ---- handlers ----

/// The row to insert for a create request with the identifier drawn from
/// `n`, or 409 Conflict for a malformed target.
pub fn create_link_with_number(new_link: LinkTarget, n: u32) -> (r: Result<Link, ApiError>)
    ensures
        match parsed_url_of(new_link.target_url@) {
            Some(u) => r is Ok && r->Ok_0.target_url@ == u && r->Ok_0.id@ == id_of(n),
            None => r is Err && is_malformed_url_error(r->Err_0),
        },
{
    let url = validate_target_url(new_link.target_url.as_str())?;
    Ok(Link { id: id_from_number(n), target_url: url })
}

/// First step of a create request: the row to insert, with a fresh random
/// identifier and the normalized target, or 409 Conflict for a malformed
/// target, in which case nothing is to be inserted.
pub fn create_link(new_link: LinkTarget) -> (r: Result<Link, ApiError>)
    ensures
        match parsed_url_of(new_link.target_url@) {
            Some(u) => r is Ok && r->Ok_0.target_url@ == u && exists|n: u32|
                n < u32::MAX && r->Ok_0.id@ == id_of(n),
            None => r is Err && is_malformed_url_error(r->Err_0),
        },
{
    let url = validate_target_url(new_link.target_url.as_str())?;
    Ok(Link { id: generate_id(), target_url: url })
}

/// First step of an update request: the row to write for `link_id`, or 409
/// Conflict for a malformed target, in which case nothing is to be written.
pub fn update_link(link_id: String, update: LinkTarget) -> (r: Result<Link, ApiError>)
    ensures
        match parsed_url_of(update.target_url@) {
            Some(u) => r is Ok && r->Ok_0.target_url@ == u && r->Ok_0.id@ == link_id@,
            None => r is Err && is_malformed_url_error(r->Err_0),
        },
{
    let url = validate_target_url(update.target_url.as_str())?;
    Ok(Link { id: link_id, target_url: url })
}

/// Last step of a create or update request: the stored row, or the store's
/// failure (a timeout included) as 500.
pub fn finish_link_write(outcome: Result<Link, StoreError>) -> (r: Result<Link, ApiError>)
    ensures
        match outcome {
            Ok(l) => r is Ok && r->Ok_0 == l,
            Err(e) => r is Err && r->Err_0.status == STATUS_INTERNAL_SERVER_ERROR
                && r->Err_0.message@ == e.description(),
        },
{
    or_internal_error(outcome)
}

/// A link's statistics as answered: the grouped rows, or the store's failure
/// (a timeout included) as 500.
pub fn get_link_statistics(outcome: Result<Vec<CountedLinkStatistic>, StoreError>) -> (r: Result<
    Vec<CountedLinkStatistic>,
    ApiError,
>)
    ensures
        match outcome {
            Ok(rows) => r is Ok && r->Ok_0 == rows,
            Err(e) => r is Err && r->Err_0.status == STATUS_INTERNAL_SERVER_ERROR
                && r->Err_0.message@ == e.description(),
        },
{
    or_internal_error(outcome)
}

pub open spec fn not_informed() -> Seq<char> {
    "Não informado"@
}

pub open spec fn not_found_message() -> Seq<char> {
    "Não foi encontrado resultados"@
}

/// A header's value, or the sentinel where the request did not carry it.
pub open spec fn header_or_sentinel(h: Option<String>) -> Seq<char> {
    match h {
        Some(v) => v@,
        None => not_informed(),
    }
}

/// The status a redirect answers for the outcome of looking up its link:
/// the target found, no such link, or a failed lookup.
pub open spec fn redirect_status(lookup: Result<Option<Seq<char>>, Seq<char>>) -> u16 {
    match lookup {
        Ok(Some(_)) => STATUS_TEMPORARY_REDIRECT,
        Ok(None) => STATUS_NOT_FOUND,
        Err(_) => STATUS_INTERNAL_SERVER_ERROR,
    }
}

/// The lookup outcome as `redirect_status` reads it.
pub open spec fn lookup_outcome(found: Result<Option<Link>, StoreError>) -> Result<
    Option<Seq<char>>,
    Seq<char>,
> {
    match found {
        Ok(Some(l)) => Ok(Some(l.target_url@)),
        Ok(None) => Ok(None),
        Err(e) => Err(e.description()),
    }
}

fn header_value(h: Option<String>) -> (r: String)
    ensures
        r@ == header_or_sentinel(h),
{
    match h {
        Some(v) => v,
        None => "Não informado".to_owned(),
    }
}

/// Resolves a redirect request for `requested_link` from the outcome of
/// looking it up. A found link gives a 307 to its target with the fixed
/// caching policy, together with the event to record; the event's outcome
/// does not enter the response. An absent link gives 404 and a failed lookup
/// 500, with nothing to record.
pub fn redirect(
    requested_link: String,
    found: Result<Option<Link>, StoreError>,
    referer: Option<String>,
    user_agent: Option<String>,
) -> (r: Result<Redirect, ApiError>)
    ensures
        r is Ok ==> r->Ok_0.response.status == redirect_status(lookup_outcome(found)),
        r is Err ==> r->Err_0.status == redirect_status(lookup_outcome(found)),
        match found {
            Ok(Some(link)) => r is Ok && r->Ok_0.response.location@ == link.target_url@
                && r->Ok_0.response.cache_control@ == DEFAULT_CACHE_CONTROL_HEADER_VALUE@
                && r->Ok_0.statistic.link_id@ == requested_link@
                && r->Ok_0.statistic.referer@ == header_or_sentinel(referer)
                && r->Ok_0.statistic.user_agent@ == header_or_sentinel(user_agent),
            Ok(None) => r is Err && r->Err_0.message@ == not_found_message(),
            Err(e) => r is Err && r->Err_0.message@ == e.description(),
        },
{
    let link = match or_internal_error(found) {
        Ok(Some(link)) => link,
        Ok(None) => {
            return Err(
                ApiError {
                    status: STATUS_NOT_FOUND,
                    message: "Não foi encontrado resultados".to_owned(),
                },
            );
        },
        Err(e) => {
            return Err(e);
        },
    };
    let statistic = LinkStatisticEvent {
        link_id: requested_link,
        referer: header_value(referer),
        user_agent: header_value(user_agent),
    };
    let response = RedirectResponse {
        status: STATUS_TEMPORARY_REDIRECT,
        location: link.target_url,
        cache_control: DEFAULT_CACHE_CONTROL_HEADER_VALUE.to_owned(),
    };
    Ok(Redirect { response, statistic })
}

} // verus!
