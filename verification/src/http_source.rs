//! Where the document and its side files are found over HTTP, and what a
//! finished transfer means for the caller.
//!
//! Nothing here opens a connection. A source answers with the location to
//! request; the caller transfers, at most [`MAX_PARALLEL_FETCHES`] at a time,
//! and hands back what the transport reported as a [`Transfer`].

use vstd::prelude::*;
use vstd::string::StringExecFns;
use crate::numeral::{decimal, decimal_text};
use crate::text::same_text;

verus! {

/// How many transfers a caller keeps in flight at once, as browsers do for
/// one host.
pub const MAX_PARALLEL_FETCHES: usize = 6;

/// Room left for the separators that appending a segment adds to a location.
pub const SEGMENT_SLACK: usize = 16;

/// Why a source could not be set up or a transfer gave no data.
#[derive(Debug, PartialEq, Eq)]
pub enum Error {
    /// The transfer failed; the text describes the failure.
    HttpError(String),
    /// The text given as the root location is not an absolute URL, or a
    /// location is not written the way a parsed URL is written.
    InvalidUrl,
    /// The root location has no path segments, so nothing lies beside it.
    UrlBase,
    /// A location is, or the resolved location would be, longer than a URL
    /// may be.
    UrlTooLong,
}

/// What an HTTP server answered.
#[derive(Debug, PartialEq, Eq)]
pub struct Response {
    /// The status code, such as 200 or 404.
    pub status: u16,
    /// The bytes of the body.
    pub body: Vec<u8>,
}

/// How a transfer ended.
#[derive(Debug, PartialEq, Eq)]
pub enum Transfer {
    /// The server answered.
    Answered(Response),
    /// No answer arrived; the text says why.
    Failed(String),
}

/// A glTF document reachable over HTTP, identified by its root location.
#[derive(Debug)]
pub struct HttpSource {
    url: String,
}

/// The serialisation of the URL that `input` parses to as an absolute URL,
/// and `None` where it does not parse.
pub uninterp spec fn parsed_url(input: Seq<char>) -> Option<Seq<char>>;

/// The URL `url` with the last segment of its path removed, and `None` where
/// `url` has no path segments. It is asked of serialisations only.
pub uninterp spec fn url_without_last_segment(url: Seq<char>) -> Option<Seq<char>>;

/// The URL `url` with `segment` appended to its path as one segment, and
/// `None` where `url` has no path segments. It is asked of serialisations
/// only.
pub uninterp spec fn url_with_segment(url: Seq<char>, segment: Seq<char>) -> Option<Seq<char>>;

/// The standard reason phrase of a status code, such as `Not Found` for 404,
/// and `None` where the code has none or is not between 100 and 999.
pub uninterp spec fn reason_phrase(status: u16) -> Option<Seq<char>>;

/// The characters of an optional text.
pub open spec fn text_of(text: Option<String>) -> Option<Seq<char>> {
    match text {
        Some(t) => Some(t@),
        None => None,
    }
}

/// The length of a text in bytes, as `str::len` reports it.
pub open spec fn byte_len(text: Seq<char>) -> usize {
    vstd::utf8::encode_utf8(text).len() as usize
}

/// The text is the serialisation of a URL: parsing it gives it back
/// unchanged, so the parsed URL is exactly as long as the text.
pub open spec fn is_serialisation(text: Seq<char>) -> bool {
    parsed_url(text) == Some(text)
}

/// A segment of `segment_bytes` bytes, of which each may grow to three when
/// escaped, can be appended to a URL of `url_bytes` bytes without leaving
/// the 32-bit range in which a URL keeps its offsets.
pub open spec fn segment_fits(url_bytes: usize, segment_bytes: usize) -> bool {
    url_bytes + 3 * segment_bytes + SEGMENT_SLACK <= u32::MAX
}

/// A status code in the range 200 to 299.
pub open spec fn is_success(status: u16) -> bool {
    200 <= status < 300
}

/// A status as text: the code in decimal, a space, and the reason phrase or,
/// where there is none, a note that the code is unknown.
pub open spec fn status_line(status: u16, phrase: Option<Seq<char>>) -> Seq<char> {
    decimal(status as nat) + " "@ + match phrase {
        Some(words) => words,
        None => "<unknown status code>"@,
    }
}

/// Whether the last segment of `base` may be removed: `base` must be no
/// longer than the 32-bit range in which a URL keeps its offsets, and a
/// serialisation.
pub open spec fn base_admitted(base: Seq<char>) -> Result<(), Error> {
    if byte_len(base) > u32::MAX {
        Err(Error::UrlTooLong)
    } else if !is_serialisation(base) {
        Err(Error::InvalidUrl)
    } else {
        Ok(())
    }
}

/// The directory to append `uri` to, given what removing the last segment
/// of the base gave: there must be one, `uri` must fit behind it, and it
/// must be a serialisation.
pub open spec fn directory_admitted(popped: Option<Seq<char>>, uri: Seq<char>) -> Result<
    Seq<char>,
    Error,
> {
    match popped {
        None => Err(Error::UrlBase),
        Some(directory) => {
            if !segment_fits(byte_len(directory), byte_len(uri)) {
                Err(Error::UrlTooLong)
            } else if !is_serialisation(directory) {
                Err(Error::InvalidUrl)
            } else {
                Ok(directory)
            }
        },
    }
}

/// The location of the file named `uri` beside the document at `base`: the
/// last path segment of `base` is removed, then `uri` is appended as one
/// segment. Each step is taken only where the text it starts from is
/// admitted; the first that is not gives the error.
pub open spec fn sibling_location(base: Seq<char>, uri: Seq<char>) -> Result<Seq<char>, Error> {
    match base_admitted(base) {
        Err(e) => Err(e),
        Ok(_) => match directory_admitted(url_without_last_segment(base), uri) {
            Err(e) => Err(e),
            Ok(directory) => match url_with_segment(directory, uri) {
                None => Err(Error::UrlBase),
                Some(location) => Ok(location),
            },
        },
    }
}

/// The characters of a resolved location, or the error unchanged.
pub open spec fn location_text(location: Result<String, Error>) -> Result<Seq<char>, Error> {
    match location {
        Ok(t) => Ok(t@),
        Err(e) => Err(e),
    }
}

/// Calls `reqwest::Url::parse` and gives the serialisation of the parsed URL.
/// Trusted: the result is what `parsed_url` names for this input, `None`
/// where the parser reports an error.
#[verifier::external_body]
fn parse_url(input: &str) -> (r: Option<String>)
    ensures
        text_of(r) == parsed_url(input@),
{
    reqwest::Url::parse(input).ok().map(String::from)
}

/// Calls `PathSegmentsMut::pop` on the parsed `url`, reached through
/// `Url::path_segments_mut`. Trusted: the result is what
/// `url_without_last_segment` names for this input, `None` where the URL
/// cannot be a base. The text must be a serialisation of at most `u32::MAX`
/// bytes: `path_segments_mut` stops the program where the parsed URL is
/// longer, and only a serialisation is sure to parse to its own length.
#[verifier::external_body]
fn pop_segment(url: &str) -> (r: Option<String>)
    requires
        is_serialisation(url@),
        byte_len(url@) <= u32::MAX,
    ensures
        text_of(r) == url_without_last_segment(url@),
{
    let mut parsed = reqwest::Url::parse(url).ok()?;
    parsed.path_segments_mut().ok()?.pop();
    Some(String::from(parsed))
}

/// Calls `PathSegmentsMut::push` on the parsed `url`, reached through
/// `Url::path_segments_mut`. Trusted: the result is what `url_with_segment`
/// names for these inputs, `None` where the URL cannot be a base. The text
/// must be a serialisation, so that it parses to its own length, and the
/// lengths are bounded: the URL keeps 32-bit offsets into its text and stops
/// the program when one does not fit.
#[verifier::external_body]
fn push_segment(url: &str, segment: &str) -> (r: Option<String>)
    requires
        is_serialisation(url@),
        segment_fits(byte_len(url@), byte_len(segment@)),
    ensures
        text_of(r) == url_with_segment(url@, segment@),
{
    let mut parsed = reqwest::Url::parse(url).ok()?;
    parsed.path_segments_mut().ok()?.push(segment);
    Some(String::from(parsed))
}

/// Calls `StatusCode::canonical_reason` on the status code made by
/// `StatusCode::from_u16`. Trusted: the result is what `reason_phrase` names
/// for this code, `None` where the code is refused or has no phrase.
#[verifier::external_body]
fn canonical_reason(status: u16) -> (r: Option<String>)
    ensures
        text_of(r) == reason_phrase(status),
{
    reqwest::StatusCode::from_u16(status).ok()?.canonical_reason().map(String::from)
}

/// Whether `segment` can be appended to `url` within the length a URL may have.
fn fits(url: &str, segment: &str) -> (b: bool)
    ensures
        b == segment_fits(byte_len(url@), byte_len(segment@)),
{
    let url_bytes: usize = url.len();
    let segment_bytes: usize = segment.len();
    let room: usize = 0xFFFF_FFFF - SEGMENT_SLACK;
    segment_bytes <= room / 3 && url_bytes <= room - 3 * segment_bytes
}

impl Error {
    /// A fixed, short name for errors of this kind.
    pub fn description(&self) -> (text: &'static str)
        ensures
            text@ == "HttpSource Error"@,
    {
        "HttpSource Error"
    }

    /// The error as text for a reader: its description.
    pub fn to_string(&self) -> (text: String)
        ensures
            text@ == "HttpSource Error"@,
    {
        String::from_str(self.description())
    }
}

impl HttpSource {
    /// The root location, as the serialisation of the URL it was parsed to.
    pub closed spec fn location(&self) -> Seq<char> {
        self.url@
    }

    /// A source for the document at `url`, which must be an absolute URL.
    pub fn new(url: &str) -> (r: Result<HttpSource, Error>)
        ensures
            match parsed_url(url@) {
                Some(location) => r is Ok && r->Ok_0.location() == location,
                None => r == Err::<HttpSource, Error>(Error::InvalidUrl),
            },
    {
        HttpSource::from_parsed(parse_url(url))
    }

    /// A source from the outcome of parsing its root location: the
    /// serialisation of the URL, or `None` where the text was no URL.
    pub fn from_parsed(parsed: Option<String>) -> (r: Result<HttpSource, Error>)
        ensures
            match parsed {
                Some(location) => r is Ok && r->Ok_0.location() == location@,
                None => r == Err::<HttpSource, Error>(Error::InvalidUrl),
            },
    {
        match parsed {
            Some(url) => Ok(HttpSource { url }),
            None => Err(Error::InvalidUrl),
        }
    }

    /// The location to request for the root document.
    pub fn source_gltf(&self) -> (location: String)
        ensures
            location@ == self.location(),
    {
        self.url.clone()
    }

    /// The source as text for a log: the type's name and the bare location.
    pub fn debug_text(&self) -> (text: String)
        ensures
            text@ == "HttpSource { url: "@ + self.location() + " }"@,
    {
        let mut text = String::from_str("HttpSource { url: ");
        text.append(self.url.as_str());
        text.append(" }");
        text
    }

    /// The location to request for the file named `uri` beside the root
    /// document. The root location is parsed once more, and so is the
    /// directory it leaves, before a segment is removed or appended: only a
    /// text that parses to itself is handed on.
    pub fn source_external_data(&self, uri: &str) -> (r: Result<String, Error>)
        ensures
            location_text(r) == sibling_location(self.location(), uri@),
    {
        let base = self.url.as_str();
        match HttpSource::base_for(base, parse_url(base)) {
            Err(e) => Err(e),
            Ok(_) => {
                let popped = pop_segment(base);
                let reparsed = match &popped {
                    Some(directory) => parse_url(directory.as_str()),
                    None => None,
                };
                match HttpSource::directory_for(popped, reparsed, uri) {
                    Ok(directory) => HttpSource::resolved(push_segment(directory.as_str(), uri)),
                    Err(e) => Err(e),
                }
            },
        }
    }

    /// Whether the last segment of `location` may be removed, given what
    /// parsing `location` gave: it must be no longer than a URL may be, and
    /// have come back unchanged.
    pub fn base_for(location: &str, reparsed: Option<String>) -> (r: Result<(), Error>)
        ensures
            r == if byte_len(location@) > u32::MAX {
                Err::<(), Error>(Error::UrlTooLong)
            } else if text_of(reparsed) != Some(location@) {
                Err::<(), Error>(Error::InvalidUrl)
            } else {
                Ok::<(), Error>(())
            },
    {
        if location.len() > 0xFFFF_FFFF {
            Err(Error::UrlTooLong)
        } else if !HttpSource::unchanged(location, reparsed) {
            Err(Error::InvalidUrl)
        } else {
            Ok(())
        }
    }

    /// The directory of the root document, given what removing the last
    /// segment of the root location gave and what parsing that again gave:
    /// there must be a directory, `uri` must fit behind it, and it must
    /// have come back unchanged.
    pub fn directory_for(popped: Option<String>, reparsed: Option<String>, uri: &str) -> (r: Result<
        String,
        Error,
    >)
        ensures
            match popped {
                None => r == Err::<String, Error>(Error::UrlBase),
                Some(directory) => {
                    if !segment_fits(byte_len(directory@), byte_len(uri@)) {
                        r == Err::<String, Error>(Error::UrlTooLong)
                    } else if text_of(reparsed) != Some(directory@) {
                        r == Err::<String, Error>(Error::InvalidUrl)
                    } else {
                        r == Ok::<String, Error>(directory)
                    }
                },
            },
    {
        match popped {
            None => Err(Error::UrlBase),
            Some(directory) => {
                if !fits(directory.as_str(), uri) {
                    Err(Error::UrlTooLong)
                } else if !HttpSource::unchanged(directory.as_str(), reparsed) {
                    Err(Error::InvalidUrl)
                } else {
                    Ok(directory)
                }
            },
        }
    }

    /// Whether parsing `text` gave `text` back.
    pub fn unchanged(text: &str, reparsed: Option<String>) -> (b: bool)
        ensures
            b == (text_of(reparsed) == Some(text@)),
    {
        match reparsed {
            Some(parsed) => same_text(parsed.as_str(), text),
            None => false,
        }
    }

    /// The resolved location, given what appending the segment gave.
    pub fn resolved(pushed: Option<String>) -> (r: Result<String, Error>)
        ensures
            match pushed {
                None => r == Err::<String, Error>(Error::UrlBase),
                Some(location) => r == Ok::<String, Error>(location),
            },
    {
        match pushed {
            None => Err(Error::UrlBase),
            Some(location) => Ok(location),
        }
    }

    /// The data of a finished transfer: the body where the server answered
    /// with a success status, otherwise an error that carries the status as
    /// text, or the transport's account of why no answer arrived.
    pub fn fetch_data(transfer: Transfer) -> (r: Result<Vec<u8>, Error>)
        ensures
            match transfer {
                Transfer::Answered(response) => {
                    if is_success(response.status) {
                        r == Ok::<Vec<u8>, Error>(response.body)
                    } else {
                        r matches Err(Error::HttpError(text)) && text@ == status_line(
                            response.status,
                            reason_phrase(response.status),
                        )
                    }
                },
                Transfer::Failed(reason) => r == Err::<Vec<u8>, Error>(Error::HttpError(reason)),
            },
    {
        let phrase = match &transfer {
            Transfer::Answered(response) => canonical_reason(response.status),
            Transfer::Failed(_) => None,
        };
        HttpSource::received(transfer, phrase)
    }

    /// The data of a finished transfer, given the reason phrase of its
    /// status.
    pub fn received(transfer: Transfer, phrase: Option<String>) -> (r: Result<Vec<u8>, Error>)
        ensures
            match transfer {
                Transfer::Answered(response) => {
                    if is_success(response.status) {
                        r == Ok::<Vec<u8>, Error>(response.body)
                    } else {
                        r matches Err(Error::HttpError(text)) && text@ == status_line(
                            response.status,
                            text_of(phrase),
                        )
                    }
                },
                Transfer::Failed(reason) => r == Err::<Vec<u8>, Error>(Error::HttpError(reason)),
            },
    {
        match transfer {
            Transfer::Answered(response) => {
                if 200 <= response.status && response.status < 300 {
                    Ok(response.body)
                } else {
                    let mut text = decimal_text(response.status as u32);
                    text.append(" ");
                    match phrase {
                        Some(words) => text.append(words.as_str()),
                        None => text.append("<unknown status code>"),
                    }
                    Err(Error::HttpError(text))
                }
            },
            Transfer::Failed(reason) => Err(Error::HttpError(reason)),
        }
    }
}

} // verus!
