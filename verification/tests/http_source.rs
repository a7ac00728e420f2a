use gltf_scene::http_source::{Error, HttpSource, Response, Transfer, MAX_PARALLEL_FETCHES};

fn source(url: &str) -> HttpSource {
    match HttpSource::new(url) {
        Ok(source) => source,
        Err(e) => panic!("{} should parse: {:?}", url, e),
    }
}

fn answered(status: u16, body: &[u8]) -> Transfer {
    Transfer::Answered(Response { status, body: body.to_vec() })
}

fn text(t: &str) -> Option<String> {
    Some(t.to_string())
}

fn failure(text: &str) -> Result<Vec<u8>, Error> {
    Err(Error::HttpError(text.to_string()))
}

#[test]
fn relative_uri_replaces_last_segment() {
    let s = source("https://host/dir/scene.gltf");
    assert_eq!(s.source_external_data("buffer.bin"), Ok("https://host/dir/buffer.bin".to_string()));
}

#[test]
fn relative_uri_resolves_twice_from_the_same_base() {
    let s = source("https://host/dir/scene.gltf");
    assert_eq!(s.source_external_data("a.bin"), Ok("https://host/dir/a.bin".to_string()));
    assert_eq!(s.source_external_data("b.png"), Ok("https://host/dir/b.png".to_string()));
    assert_eq!(s.source_gltf(), "https://host/dir/scene.gltf");
}

#[test]
fn relative_uri_beside_a_document_at_the_root() {
    let s = source("https://host/scene.gltf");
    assert_eq!(s.source_external_data("a.bin"), Ok("https://host/a.bin".to_string()));
}

#[test]
fn relative_uri_under_a_bare_host() {
    let s = source("https://host");
    assert_eq!(s.source_gltf(), "https://host/");
    assert_eq!(s.source_external_data("a.bin"), Ok("https://host/a.bin".to_string()));
}

#[test]
fn relative_uri_is_one_escaped_segment() {
    let s = source("https://host/dir/scene.gltf");
    assert_eq!(
        s.source_external_data("a b/c%.bin"),
        Ok("https://host/dir/a%20b%2Fc%25.bin".to_string())
    );
}

#[test]
fn relative_uri_of_dots_adds_nothing() {
    let s = source("https://host/dir/scene.gltf");
    assert_eq!(s.source_external_data(".."), Ok("https://host/dir".to_string()));
}

#[test]
fn relative_uri_keeps_the_query() {
    let s = source("https://host/dir/scene.gltf?token=1");
    assert_eq!(
        s.source_external_data("buffer.bin"),
        Ok("https://host/dir/buffer.bin?token=1".to_string())
    );
}

#[test]
fn root_location_is_the_normal_form() {
    let s = source("HTTP://Host/dir/../scene.gltf");
    assert_eq!(s.source_gltf(), "http://host/scene.gltf");
}

#[test]
fn text_that_is_no_url_is_refused() {
    assert_eq!(HttpSource::new("not a url").err(), Some(Error::InvalidUrl));
    assert_eq!(HttpSource::new("").err(), Some(Error::InvalidUrl));
    assert_eq!(HttpSource::new("dir/scene.gltf").err(), Some(Error::InvalidUrl));
}

#[test]
fn location_without_segments_has_nothing_beside_it() {
    let s = source("mailto:me@example.com");
    assert_eq!(s.source_gltf(), "mailto:me@example.com");
    assert_eq!(s.source_external_data("buffer.bin"), Err(Error::UrlBase));
}

#[test]
fn from_parsed_takes_the_location_as_given() {
    let s = HttpSource::from_parsed(Some("https://host/x.gltf".to_string()));
    assert_eq!(s.map(|s| s.source_gltf()).ok(), Some("https://host/x.gltf".to_string()));
    assert_eq!(HttpSource::from_parsed(None).err(), Some(Error::InvalidUrl));
}

#[test]
fn directory_for_passes_the_directory_on() {
    assert_eq!(
        HttpSource::directory_for(text("https://host/dir"), text("https://host/dir"), "a.bin"),
        Ok("https://host/dir".to_string())
    );
}

#[test]
fn directory_for_needs_a_directory() {
    assert_eq!(HttpSource::directory_for(None, None, "a.bin"), Err(Error::UrlBase));
    assert_eq!(
        HttpSource::directory_for(None, text("https://host/dir"), "a.bin"),
        Err(Error::UrlBase)
    );
}

#[test]
fn directory_for_refuses_a_directory_that_parsing_changes() {
    assert_eq!(
        HttpSource::directory_for(text("HTTPS://host/dir"), text("https://host/dir"), "a.bin"),
        Err(Error::InvalidUrl)
    );
    assert_eq!(HttpSource::directory_for(text("host/dir"), None, "a.bin"), Err(Error::InvalidUrl));
}

#[test]
fn base_for_admits_a_location_that_parses_to_itself() {
    assert_eq!(
        HttpSource::base_for("https://host/dir/a.gltf", text("https://host/dir/a.gltf")),
        Ok(())
    );
    assert_eq!(
        HttpSource::base_for("mailto:me@example.com", text("mailto:me@example.com")),
        Ok(())
    );
}

#[test]
fn base_for_refuses_a_location_that_parsing_changes() {
    assert_eq!(
        HttpSource::base_for("https://host/a b", text("https://host/a%20b")),
        Err(Error::InvalidUrl)
    );
    assert_eq!(HttpSource::base_for("dir/a.gltf", None), Err(Error::InvalidUrl));
    assert_eq!(HttpSource::base_for("", None), Err(Error::InvalidUrl));
}

#[test]
fn unchanged_compares_the_text_with_its_parse() {
    assert!(HttpSource::unchanged("https://host/", text("https://host/")));
    assert!(!HttpSource::unchanged("https://host", text("https://host/")));
    assert!(!HttpSource::unchanged("https://host/", None));
    assert!(!HttpSource::unchanged("", None));
}

#[test]
fn source_made_from_a_text_that_parsing_changes_resolves_nothing() {
    let s = HttpSource::from_parsed(text("HTTP://Host/dir/scene.gltf")).unwrap();
    assert_eq!(s.source_gltf(), "HTTP://Host/dir/scene.gltf");
    assert_eq!(s.source_external_data("buffer.bin"), Err(Error::InvalidUrl));
    let s = HttpSource::from_parsed(text("dir/scene.gltf")).unwrap();
    assert_eq!(s.source_external_data("buffer.bin"), Err(Error::InvalidUrl));
    let s = HttpSource::from_parsed(text("https://host/dir/a b.gltf")).unwrap();
    assert_eq!(s.source_external_data("buffer.bin"), Err(Error::InvalidUrl));
}

#[test]
fn source_made_from_a_serialisation_resolves() {
    let s = HttpSource::from_parsed(text("https://host/dir/a%20b.gltf")).unwrap();
    assert_eq!(
        s.source_external_data("buffer.bin"),
        Ok("https://host/dir/buffer.bin".to_string())
    );
}

#[test]
fn escaped_base_keeps_its_escapes() {
    let s = source("https://host/my dir/scene.gltf");
    assert_eq!(s.source_gltf(), "https://host/my%20dir/scene.gltf");
    assert_eq!(
        s.source_external_data("buffer.bin"),
        Ok("https://host/my%20dir/buffer.bin".to_string())
    );
}

#[test]
fn debug_text_shows_the_bare_location() {
    assert_eq!(
        source("https://host/dir/scene.gltf").debug_text(),
        "HttpSource { url: https://host/dir/scene.gltf }"
    );
    assert_eq!(source("HTTP://Host").debug_text(), "HttpSource { url: http://host/ }");
}

#[test]
fn directory_for_refuses_a_segment_that_cannot_fit() {
    // 16 + 3 * 1431655754 + 16 = 4294967294, one below the limit
    let chunk = "a".repeat(1 << 20);
    let mut segment = String::with_capacity(1431655755);
    while segment.len() + chunk.len() <= 1431655754 {
        segment.push_str(&chunk);
    }
    while segment.len() < 1431655754 {
        segment.push('a');
    }
    assert_eq!(
        HttpSource::directory_for(text("https://host/dir"), text("https://host/dir"), &segment),
        Ok("https://host/dir".to_string())
    );
    // 16 + 3 * 1431655755 + 16 = 4294967297, above the limit of 4294967295
    segment.push('a');
    assert_eq!(
        HttpSource::directory_for(text("https://host/dir"), text("https://host/dir"), &segment),
        Err(Error::UrlTooLong)
    );
    let s = source("https://host/dir/scene.gltf");
    assert_eq!(s.source_external_data(&segment), Err(Error::UrlTooLong));
}

#[test]
fn resolved_passes_the_location_on() {
    assert_eq!(
        HttpSource::resolved(Some("https://host/dir/a.bin".to_string())),
        Ok("https://host/dir/a.bin".to_string())
    );
    assert_eq!(HttpSource::resolved(None), Err(Error::UrlBase));
}

#[test]
fn success_status_gives_the_body() {
    assert_eq!(HttpSource::fetch_data(answered(200, b"glTF")), Ok(b"glTF".to_vec()));
    assert_eq!(HttpSource::fetch_data(answered(204, b"")), Ok(Vec::new()));
    assert_eq!(HttpSource::fetch_data(answered(299, b"x")), Ok(b"x".to_vec()));
}

#[test]
fn failure_status_gives_an_error_that_names_it() {
    assert_eq!(HttpSource::fetch_data(answered(404, b"<html>")), failure("404 Not Found"));
    assert_eq!(HttpSource::fetch_data(answered(500, b"")), failure("500 Internal Server Error"));
    assert_eq!(HttpSource::fetch_data(answered(301, b"")), failure("301 Moved Permanently"));
}

#[test]
fn status_just_outside_the_success_range_fails() {
    assert_eq!(HttpSource::fetch_data(answered(199, b"x")), failure("199 <unknown status code>"));
    assert_eq!(HttpSource::fetch_data(answered(300, b"x")), failure("300 Multiple Choices"));
}

#[test]
fn status_that_is_no_status_fails() {
    assert_eq!(HttpSource::fetch_data(answered(0, b"x")), failure("0 <unknown status code>"));
    assert_eq!(HttpSource::fetch_data(answered(99, b"x")), failure("99 <unknown status code>"));
    assert_eq!(HttpSource::fetch_data(answered(1000, b"x")), failure("1000 <unknown status code>"));
    assert_eq!(
        HttpSource::fetch_data(answered(65535, b"x")),
        failure("65535 <unknown status code>")
    );
}

#[test]
fn transport_failure_gives_an_error_that_describes_it() {
    assert_eq!(
        HttpSource::fetch_data(Transfer::Failed("connection refused".to_string())),
        failure("connection refused")
    );
}

#[test]
fn received_joins_code_and_phrase() {
    assert_eq!(
        HttpSource::received(answered(404, b"x"), Some("Gone Fishing".to_string())),
        failure("404 Gone Fishing")
    );
    assert_eq!(HttpSource::received(answered(404, b"x"), None), failure("404 <unknown status code>"));
    assert_eq!(
        HttpSource::received(answered(200, b"x"), Some("OK".to_string())),
        Ok(b"x".to_vec())
    );
    assert_eq!(HttpSource::received(answered(250, b"y"), None), Ok(b"y".to_vec()));
    assert_eq!(
        HttpSource::received(Transfer::Failed("timed out".to_string()), Some("OK".to_string())),
        failure("timed out")
    );
}

#[test]
fn every_error_has_the_same_description() {
    let errors = vec![
        Error::HttpError("404 Not Found".to_string()),
        Error::InvalidUrl,
        Error::UrlBase,
        Error::UrlTooLong,
    ];
    for e in errors {
        assert_eq!(e.description(), "HttpSource Error");
        assert_eq!(e.to_string(), "HttpSource Error");
    }
}

#[test]
fn six_transfers_at_once() {
    assert_eq!(MAX_PARALLEL_FETCHES, 6);
}
