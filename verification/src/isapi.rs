//! The NVR's HTTP+XML control protocol: the shape of a search response,
//! the request documents the pipeline sends, and the preparation a raw
//! response needs before schema mapping.
//!
//! Times travel through the library as unix seconds; the wire carries
//! them as RFC 3339 strings. Deserializing response XML into these types
//! is schema mapping outside the library; it hands the parsed values in.
use vstd::prelude::*;

verus! {

/// A clip's time span, in unix seconds.
pub struct IsapiCmSearchResultMatchTimeSpan {
    pub start_time: i64,
    pub end_time: i64,
}

/// The playback descriptor of one match.
pub struct IsapiCmSearchResultMatchMediaSegmentDescriptor {
    pub content_type: String,
    pub codec_type: String,
    pub playback_uri: String,
}

/// One match item of a search response.
pub struct IsapiCmSearchResultMatchItem {
    pub source_id: String,
    pub track_id: String,
    pub time_span: IsapiCmSearchResultMatchTimeSpan,
    pub media_segment_descriptor: IsapiCmSearchResultMatchMediaSegmentDescriptor,
}

/// The match list of a search response; absent items stand for an empty
/// list, as the wire format cannot carry one.
pub struct IsapiCmSearchResultMatchList {
    pub matches: Option<Vec<IsapiCmSearchResultMatchItem>>,
}

/// A whole search response.
pub struct CMSearchResult {
    pub search_id: String,
    pub response_status: bool,
    pub response_status_strg: String,
    pub num_of_matches: u64,
    /// Missing when the status reports no matches.
    pub match_list: Option<IsapiCmSearchResultMatchList>,
}

/// The match items a search response carries, as a sequence; an absent
/// list or absent items stand for none.
pub open spec fn spec_match_items(r: CMSearchResult) -> Seq<IsapiCmSearchResultMatchItem> {
    match r.match_list {
        Option::Some(l) => match l.matches {
            Option::Some(v) => v@,
            Option::None => Seq::empty(),
        },
        Option::None => Seq::empty(),
    }
}

impl CMSearchResult {
    /// The match items of this response, an empty vector when the remote
    /// reported no matches.
    pub fn into_matches(self) -> (r: Vec<IsapiCmSearchResultMatchItem>)
        ensures
            r@ == spec_match_items(self),
    {
        match self.match_list {
            Option::Some(l) => match l.matches {
                Option::Some(v) => v,
                Option::None => Vec::new(),
            },
            Option::None => Vec::new(),
        }
    }
}

/// The offset of the first newline at or after `i`, or -1 if none follows.
pub open spec fn first_newline_from(s: Seq<char>, i: int) -> int
    decreases s.len() - i when 0 <= i <= s.len()
{
    if i >= s.len() {
        -1
    } else if s[i] == '\n' {
        i
    } else {
        first_newline_from(s, i + 1)
    }
}

/// A raw response with its leading XML declaration line removed:
/// everything after the first newline, or nothing when no newline exists.
pub open spec fn spec_strip_first_line(s: Seq<char>) -> Seq<char> {
    let i = first_newline_from(s, 0);
    if i >= 0 {
        s.subrange(i + 1, s.len() as int)
    } else {
        Seq::empty()
    }
}

/// Removes the leading XML declaration line of a raw response, so that
/// generic schema mapping can consume the rest.
pub fn strip_first_line(s: &str) -> (r: String)
    ensures
        r@ == spec_strip_first_line(s@),
{
    let n = s.unicode_len();
    let mut i: usize = 0;
    while i < n
        invariant
            n == s@.len(),
            i <= n,
            first_newline_from(s@, 0) == first_newline_from(s@, i as int),
        decreases n - i,
    {
        let c = s.get_char(i);
        if c == '\n' {
            assert(first_newline_from(s@, i as int) == i as int);
            let rest = s.substring_char(i + 1, n).to_owned();
            assert(rest@ == s@.subrange(i as int + 1, n as int));
            return rest;
        }
        assert(first_newline_from(s@, i as int) == first_newline_from(s@, i as int + 1));
        i += 1;
    }
    assert(first_newline_from(s@, i as int) == -1);
    String::new()
}

/// The RFC 3339 rendering of a unix timestamp, as the `chrono` crate
/// produces it for UTC. Stated only by name: the calendar conversion is
/// not restated here.
pub uninterp spec fn rfc3339_of(ts: int) -> Seq<char>;

/// Relies on `chrono::DateTime::from_timestamp` and
/// `chrono::DateTime::to_rfc3339`: the rendering is a function of the
/// timestamp alone, and a timestamp between the unix epoch and
/// 100,000,000,000 seconds (far past the library's horizon, far inside
/// chrono's supported calendar) converts successfully.
#[verifier::external_body]
fn format_rfc3339(ts: i64) -> (r: Option<String>)
    ensures
        r matches Some(s) ==> s@ == rfc3339_of(ts as int),
        0 <= ts <= 100_000_000_000i64 ==> r is Some,
{
    chrono::DateTime::from_timestamp(ts, 0).map(|d| d.to_rfc3339())
}

pub const SEARCH_REQUEST_HEAD: &'static str = "\n            <CMSearchDescription>\n            <searchID>00000000-0000-0000-0000-000000000000</searchID>\n            <trackList>\n                <trackID>101</trackID>\n                <trackID>201</trackID>\n            </trackList>\n            <timeSpanList>\n            <timeSpan>\n            <startTime>";

pub const SEARCH_REQUEST_MID: &'static str = "</startTime>\n            <endTime>";

pub const SEARCH_REQUEST_TAIL: &'static str = "</endTime>\n            </timeSpan>\n            </timeSpanList>\n            <maxResults>1000</maxResults>\n            <searchResultPostion>0</searchResultPostion>\n            <metadataList>\n            <metadataDescriptor>//recordType.meta.std-cgi.com</metadataDescriptor>\n            </metadataList>\n            </CMSearchDescription>";

/// The search request document for one time window `[start, end)`.
pub open spec fn spec_search_request_body(start: int, end: int) -> Seq<char> {
    SEARCH_REQUEST_HEAD@ + rfc3339_of(start) + SEARCH_REQUEST_MID@ + rfc3339_of(end)
        + SEARCH_REQUEST_TAIL@
}

/// Builds the XML document that asks the remote source for every clip
/// descriptor whose start time falls in `[start, end)`, up to the page
/// cap. `None` when a bound cannot be rendered as RFC 3339.
pub fn search_request_body(start: i64, end: i64) -> (r: Option<String>)
    ensures
        r matches Some(b) ==> b@ == spec_search_request_body(start as int, end as int),
        0 <= start <= 100_000_000_000i64 && 0 <= end <= 100_000_000_000i64 ==> r is Some,
{
    let start_formatted = match format_rfc3339(start) {
        Option::Some(s) => s,
        Option::None => {
            return Option::None;
        },
    };
    let end_formatted = match format_rfc3339(end) {
        Option::Some(s) => s,
        Option::None => {
            return Option::None;
        },
    };
    let mut body = SEARCH_REQUEST_HEAD.to_owned();
    body.append(start_formatted.as_str());
    body.append(SEARCH_REQUEST_MID);
    body.append(end_formatted.as_str());
    body.append(SEARCH_REQUEST_TAIL);
    Option::Some(body)
}

pub const DOWNLOAD_REQUEST_HEAD: &'static str = "\n    <downloadRequest version=\"1.0\" xmlns=\"http://www.isapi.org/ver20/XMLSchema\">\n    <playbackURI>";

pub const DOWNLOAD_REQUEST_TAIL: &'static str = "</playbackURI>\n    </downloadRequest>\n    ";

/// The download request document for one playback URI.
pub open spec fn spec_download_request_body(uri: Seq<char>) -> Seq<char> {
    DOWNLOAD_REQUEST_HEAD@ + uri + DOWNLOAD_REQUEST_TAIL@
}

/// Builds the XML document that asks the remote source for the content
/// behind one playback URI.
pub fn download_request_body(playback_uri: &str) -> (r: String)
    ensures
        r@ == spec_download_request_body(playback_uri@),
{
    let mut body = DOWNLOAD_REQUEST_HEAD.to_owned();
    body.append(playback_uri);
    body.append(DOWNLOAD_REQUEST_TAIL);
    body
}

} // verus!
