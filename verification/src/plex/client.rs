use vstd::prelude::*;

verus! {

/// What the url crate's `Url::parse` gives for the text `s`: the absolute
/// URL it reads, or the error that stopped it.
pub uninterp spec fn url_parse_result(s: Seq<char>) -> Result<url::Url, url::ParseError>;

/// What the url crate's `Url::join` gives for `path` resolved against `base`.
pub uninterp spec fn url_join_result(base: url::Url, path: Seq<char>) -> Result<url::Url, url::ParseError>;

/// Whether the url crate accepts `s` as an absolute URL.
pub open spec fn url_parses(s: Seq<char>) -> bool {
    url_parse_result(s) is Ok
}

#[verifier::external_type_specification]
#[verifier::external_body]
pub struct ExUrl(url::Url);

#[verifier::external_type_specification]
#[verifier::external_body]
pub struct ExUrlParseError(url::ParseError);

/// Calls `url::Url::parse`, which parses an absolute URL and returns a
/// `ParseError` when it cannot (it does not panic). The claim is that its
/// result, URL or error, depends on the input text alone.
#[verifier::external_body]
fn parse_url(input: &str) -> (r: Result<url::Url, url::ParseError>)
    ensures
        r == url_parse_result(input@),
{
    url::Url::parse(input)
}

/// Calls `url::Url::join`, which resolves `path` against `base` as a
/// browser resolves a link and returns a `ParseError` when it cannot (it does
/// not panic). The claim is that its result depends on the two alone.
#[verifier::external_body]
fn join_url(base: &url::Url, path: &str) -> (r: Result<url::Url, url::ParseError>)
    ensures
        r == url_join_result(*base, path@),
{
    base.join(path)
}

/// Why a client configuration was refused.
#[derive(Debug)]
pub enum ClientConfigError {
    /// The server URL is not an absolute URL.
    Url(url::ParseError),
}

/// What the HTTP client of the Plex API is built from: the token it
/// authenticates with and the URL that request paths are joined to.
#[derive(Debug)]
pub struct ClientConfig {
    pub token: String,
    pub base_url: url::Url,
}

/// Reads the server URL and keeps the token; refused, with the parser's
/// error, exactly when the URL does not parse.
pub fn client_config(server_url: &str, token: &str) -> (r: Result<ClientConfig, ClientConfigError>)
    ensures
        r is Ok <==> url_parses(server_url@),
        r matches Ok(c) ==> c.token@ == token@ && url_parse_result(server_url@) == Ok::<url::Url, url::ParseError>(c.base_url),
        r matches Err(ClientConfigError::Url(e)) ==> url_parse_result(server_url@) == Err::<url::Url, url::ParseError>(e),
{
    match parse_url(server_url) {
        Ok(base_url) => Ok(ClientConfig { token: token.to_owned(), base_url }),
        Err(e) => Err(ClientConfigError::Url(e)),
    }
}

/// The URL of a request for `path`: `path` resolved against the server URL,
/// or the parser's error.
pub fn request_url(base_url: &url::Url, path: &str) -> (r: Result<url::Url, ClientConfigError>)
    ensures
        r matches Ok(u) ==> url_join_result(*base_url, path@) == Ok::<url::Url, url::ParseError>(u),
        r matches Err(ClientConfigError::Url(e)) ==> url_join_result(*base_url, path@) == Err::<url::Url, url::ParseError>(e),
{
    match join_url(base_url, path) {
        Ok(u) => Ok(u),
        Err(e) => Err(ClientConfigError::Url(e)),
    }
}

/// What a response status means to the client.
#[derive(Debug, Clone, Copy, PartialEq, Eq, Structural)]
pub enum StatusOutcome {
    /// 404: the resource does not exist (a feature the server lacks).
    NotFound,
    /// Any other client or server error status (400 to 599).
    Failure,
    /// Any other status: the body is read.
    Success,
}

pub open spec fn spec_status_outcome(status: u16) -> StatusOutcome {
    if status == 404 {
        StatusOutcome::NotFound
    } else if 400 <= status < 600 {
        StatusOutcome::Failure
    } else {
        StatusOutcome::Success
    }
}

pub fn status_outcome(status: u16) -> (r: StatusOutcome)
    ensures
        r == spec_status_outcome(status),
{
    if status == 404 {
        StatusOutcome::NotFound
    } else if 400 <= status && status < 600 {
        StatusOutcome::Failure
    } else {
        StatusOutcome::Success
    }
}

} // verus!
