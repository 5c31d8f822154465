//! Exact expected values for the wire format, file naming, and token
//! handling.
use hiwatch_sync::download::{content_file_name, new_download_identity, sanitize_uri};
use hiwatch_sync::isapi::{
    download_request_body, search_request_body, strip_first_line, CMSearchResult,
    IsapiCmSearchResultMatchList, DOWNLOAD_REQUEST_HEAD, DOWNLOAD_REQUEST_TAIL,
    SEARCH_REQUEST_HEAD, SEARCH_REQUEST_MID, SEARCH_REQUEST_TAIL,
};
use hiwatch_sync::thumbnails::{thumbnail_file_name, ThumbnailType};
use hiwatch_sync::token::find_token;

#[test]
fn sanitize_replaces_every_unsafe_character() {
    assert_eq!(
        sanitize_uri("rtsp://10.0.0.1/tracks/101/?start=1&name=x"),
        "rtsp___10.0.0.1_tracks_101__start=1_name=x"
    );
    assert_eq!(sanitize_uri("a\\b:c?d*e\"f<g>h&i|j"), "a_b_c_d_e_f_g_h_i_j");
    assert_eq!(sanitize_uri(""), "");
}

#[test]
fn content_file_name_embeds_token() {
    assert_eq!(
        content_file_name("rtsp://cam/a", "tok-1"),
        "rtsp___cam_a_tok-1.hevc"
    );
}

#[test]
fn download_identity_is_a_fresh_token() {
    let (token, name) = new_download_identity("rtsp://cam/a");
    assert_eq!(token.len(), 36);
    for (i, c) in token.chars().enumerate() {
        if i == 8 || i == 13 || i == 18 || i == 23 {
            assert_eq!(c, '-');
        } else {
            assert!(c.is_ascii_hexdigit() && !c.is_ascii_uppercase());
        }
    }
    assert_eq!(name, format!("rtsp___cam_a_{}.hevc", token));
    let (other, _) = new_download_identity("rtsp://cam/a");
    assert_ne!(token, other);
}

#[test]
fn thumbnail_file_names_carry_the_kind_tag() {
    assert_eq!(thumbnail_file_name("abc", ThumbnailType::FirstFrame), "abc_0.jpg");
    assert_eq!(
        thumbnail_file_name("abc", ThumbnailType::OneMinuteTimelapse),
        "abc_1.jpg"
    );
    assert_eq!(ThumbnailType::FirstFrame.code(), 0);
    assert_eq!(ThumbnailType::OneMinuteTimelapse.code(), 1);
}

#[test]
fn find_token_takes_the_leftmost_occurrence() {
    let name = "x_99999999-8888-7777-6666-555555555555_11111111-2222-3333-4444-555555555555.hevc";
    assert_eq!(
        find_token(name),
        Some(String::from("99999999-8888-7777-6666-555555555555"))
    );
    assert_eq!(find_token("nothing-here.hevc"), None);
    assert_eq!(find_token(""), None);
    // An uppercase digit breaks the shape.
    assert_eq!(find_token("99999999-8888-7777-6666-55555555555A"), None);
    assert_eq!(
        find_token("99999999-8888-7777-6666-555555555555"),
        Some(String::from("99999999-8888-7777-6666-555555555555"))
    );
}

#[test]
fn strip_first_line_drops_the_xml_declaration() {
    assert_eq!(
        strip_first_line("<?xml version=\"1.0\"?>\n<CMSearchResult>\n</CMSearchResult>"),
        "<CMSearchResult>\n</CMSearchResult>"
    );
    assert_eq!(strip_first_line("no newline at all"), "");
    assert_eq!(strip_first_line("only one line\n"), "");
}

#[test]
fn search_request_renders_the_window_bounds() {
    // 2024-01-01T00:00:00Z and the day after.
    let body = search_request_body(1_704_067_200, 1_704_067_200 + 86_400).unwrap();
    let expected = format!(
        "{}{}{}{}{}",
        SEARCH_REQUEST_HEAD,
        "2024-01-01T00:00:00+00:00",
        SEARCH_REQUEST_MID,
        "2024-01-02T00:00:00+00:00",
        SEARCH_REQUEST_TAIL
    );
    assert_eq!(body, expected);
    assert!(body.contains("<maxResults>1000</maxResults>"));
    assert!(body.contains("<startTime>2024-01-01T00:00:00+00:00</startTime>"));
    assert!(body.contains("<endTime>2024-01-02T00:00:00+00:00</endTime>"));
}

#[test]
fn download_request_names_the_playback_uri() {
    let body = download_request_body("rtsp://cam/a");
    assert_eq!(
        body,
        format!("{}rtsp://cam/a{}", DOWNLOAD_REQUEST_HEAD, DOWNLOAD_REQUEST_TAIL)
    );
    assert!(body.contains("<playbackURI>rtsp://cam/a</playbackURI>"));
}

#[test]
fn responses_without_a_match_list_have_no_items() {
    let empty = CMSearchResult {
        search_id: String::from("s"),
        response_status: true,
        response_status_strg: String::from("NO MATCHES"),
        num_of_matches: 0,
        match_list: None,
    };
    assert_eq!(empty.into_matches().len(), 0);
    let hollow = CMSearchResult {
        search_id: String::from("s"),
        response_status: true,
        response_status_strg: String::from("OK"),
        num_of_matches: 0,
        match_list: Some(IsapiCmSearchResultMatchList { matches: None }),
    };
    assert_eq!(hollow.into_matches().len(), 0);
}
