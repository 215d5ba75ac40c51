use docengine::images::{
    data_uri_to_path, ensure_http_or_data_uri, extension_for, parse_data_uri, path_to_data_uri,
    DataUriError, ImageUrl,
};
use docengine::models::{select, Candidate, SelectError};
use docengine::parsers::{languages, Parser, Parsers};
use docengine::serve::{
    address_of, authenticate, get_response, html_page_redirect, key_fits, listing_entry,
    parse_url, static_asset_path, token_cookie, Authentication, Client, GetResponse, PathFacts,
    ServeConfig, TokenSource, UrlError,
};
use docengine::text::to_hexadecimal;

#[test]
fn url_gives_the_address_and_the_port() {
    assert_eq!(parse_url("http://0.0.0.0:1234"), Ok((String::from("0.0.0.0"), 1234)));
    assert_eq!(parse_url("http://127.0.0.1"), Ok((String::from("127.0.0.1"), 80)));
    assert_eq!(parse_url("https://example.org/path?query"), Ok((String::from("example.org"), 443)));
    assert_eq!(parse_url("ws://localhost:9000/~ws"), Ok((String::from("localhost"), 9000)));
    assert_eq!(parse_url("not a url"), Err(UrlError::Invalid));
    assert_eq!(parse_url(":8000"), Err(UrlError::Invalid));
    assert_eq!(parse_url("data:text/plain,Stuff"), Err(UrlError::NoHost));
    assert_eq!(parse_url("foo://example.com"), Err(UrlError::NoPort));
    assert_eq!(address_of(None, Some(1)), Err(UrlError::NoHost));
    assert_eq!(address_of(Some(String::from("h")), None), Err(UrlError::NoPort));
    assert_eq!(address_of(Some(String::from("h")), Some(7)), Ok((String::from("h"), 7)));
}

#[test]
fn client_is_subscribed_to_topics_by_prefix() {
    let mut client = Client::new();
    assert!(!client.subscribed("documents:1:patched"));
    assert!(client.subscribe("documents:1"));
    assert!(!client.subscribe("documents:1"));
    assert_eq!(client.subscriptions.len(), 1);
    assert!(client.subscribed("documents:1:patched"));
    assert!(client.subscribed("documents:1"));
    assert!(!client.subscribed("documents:2:patched"));
    assert!(!client.subscribed("documents"));
    assert!(client.subscribe("*"));
    assert!(client.subscribed("anything"));
    assert!(client.unsubscribe("*"));
    assert!(!client.unsubscribe("*"));
    assert!(!client.subscribed("anything"));
    assert!(client.unsubscribe("documents:1"));
    assert!(client.subscriptions.is_empty());
}

#[test]
fn pages_of_the_server() {
    let page = html_page_redirect("/doc.md");
    assert!(page.starts_with("<!DOCTYPE HTML>\n<html lang=\"en-US\">\n<head>\n    <title>Redirecting</title>"));
    assert!(page.contains("<meta http-equiv=\"refresh\" content=\"0; url=/doc.md\">"));
    assert!(page.contains("<script type=\"text/javascript\">window.location.href = \"/doc.md\"</script>"));
    assert!(page.ends_with("please follow this <a href=\"/doc.md\">link</a>.</body>\n</html>"));
    assert_eq!(page.matches("/doc.md").count(), 3);
    assert_eq!(listing_entry("a/b.md", "b.md"), "<p><a href=\"/a/b.md\">b.md</a></p>");
    assert_eq!(static_asset_path("0.127.0/web/index.js"), "web/index.js");
    assert_eq!(static_asset_path("dev/"), "");
    assert_eq!(static_asset_path("index.js"), "index.js");
    assert!(key_fits(&"k".repeat(64)));
    assert!(!key_fits(&"k".repeat(65)));
    let config = ServeConfig::default();
    assert_eq!((config.url, config.key, config.insecure), (None, None, false));
}

#[test]
fn image_urls_are_used_as_they_are_or_read_from_a_path() {
    for url in ["http://a/b.png", "https://a/b.png", "data:image/png;base64,AAAA"] {
        assert_eq!(ensure_http_or_data_uri(url), ImageUrl::AsIs(String::from(url)));
    }
    assert_eq!(ensure_http_or_data_uri("file:///tmp/a.png"), ImageUrl::Path(String::from("/tmp/a.png")));
    assert_eq!(ensure_http_or_data_uri("images/a.png"), ImageUrl::Path(String::from("images/a.png")));
    assert_eq!(ensure_http_or_data_uri("httpx"), ImageUrl::Path(String::from("httpx")));
}

#[test]
fn data_uri_is_taken_apart() {
    let uri = parse_data_uri("data:image/png;base64,aGVsbG8=").unwrap();
    assert_eq!(uri.extension, "png");
    assert_eq!(uri.data, "aGVsbG8=");
    assert_eq!(parse_data_uri("data:image/jpeg,xyz").unwrap().extension, "jpg");
    assert_eq!(parse_data_uri("data:image/gif;a;b,").unwrap().extension, "gif");
    assert_eq!(parse_data_uri("data:image/webp;base64,AA").unwrap().extension, "webp");
    assert_eq!(parse_data_uri("data:image/png;base64"), Err(DataUriError::InvalidFormat));
    assert_eq!(parse_data_uri("data:image/png;base64,a,b"), Err(DataUriError::InvalidFormat));
    assert_eq!(parse_data_uri("image/png;base64,aGVsbG8="), Err(DataUriError::InvalidHeader));
    assert_eq!(parse_data_uri("da;ta:image/png,aGVsbG8="), Err(DataUriError::InvalidHeader));
    assert_eq!(
        parse_data_uri("data:image/svg+xml;base64,aGVsbG8="),
        Err(DataUriError::UnsupportedFormat(String::from("image/svg+xml")))
    );
    assert_eq!(extension_for("image/png"), Some("png"));
    assert_eq!(extension_for("text/plain"), None);
}

#[test]
fn data_uri_becomes_a_file_named_by_its_hash() {
    let uri = "data:image/png;base64,aGVsbG8=";
    let file = data_uri_to_path(uri).unwrap();
    assert_eq!(file.bytes, b"hello");
    let mut hasher = seahash::SeaHasher::new();
    std::hash::Hash::hash(uri, &mut hasher);
    let hash = std::hash::Hasher::finish(&hasher);
    assert_eq!(file.name, format!("{:x}.png", hash));
    assert_eq!(data_uri_to_path("data:image/png;base64,a?b"), Err(DataUriError::InvalidData));
    assert_eq!(data_uri_to_path("no comma"), Err(DataUriError::InvalidFormat));
    for n in [0u64, 9, 10, 15, 16, 255, 0xdead_beef, u64::MAX] {
        assert_eq!(to_hexadecimal(n), format!("{:x}", n));
    }
}

#[test]
fn image_becomes_a_data_uri() {
    assert_eq!(
        path_to_data_uri("image/png", &b"hello".to_vec()).unwrap(),
        "data:image/png;base64,aGVsbG8="
    );
    assert_eq!(path_to_data_uri("image/svg+xml", &vec![]).unwrap(), "data:image/svg+xml;base64,");
    let back = data_uri_to_path(&path_to_data_uri("image/gif", &vec![0, 255, 7, 9]).unwrap()).unwrap();
    assert_eq!(back.bytes, vec![0, 255, 7, 9]);
}

#[test]
fn the_best_model_that_fits_is_selected() {
    let model = |available, supports_task, matches, is_router, score, type_rank| Candidate {
        available,
        supports_task,
        matches,
        is_router,
        score,
        type_rank,
    };
    assert_eq!(select(&vec![], false), Err(SelectError::NoneAvailable));
    assert_eq!(select(&vec![model(false, true, true, false, 90, 0)], false), Err(SelectError::NoneAvailable));
    assert_eq!(select(&vec![model(true, false, true, false, 90, 0)], false), Err(SelectError::NoneSupports));
    let models = vec![
        model(true, true, true, false, 70, 1),
        model(true, true, true, false, 95, 1),
        model(true, true, false, false, 99, 1),
        model(true, true, true, true, 50, 0),
        model(true, true, true, false, 95, 2),
        model(true, true, true, false, 95, 2),
        model(false, true, true, false, 100, 3),
    ];
    // without a pattern the first router is taken
    assert_eq!(select(&models, false), Ok(3));
    // with a pattern the best is taken, of equals the last
    assert_eq!(select(&models, true), Ok(5));
    let no_router: Vec<Candidate> = models.iter().filter(|model| !model.is_router).cloned().collect();
    assert_eq!(select(&no_router, false), Ok(4));
}

#[test]
fn parsers_are_registered_by_label() {
    let names = ["bash", "calc", "http", "javascript", "json", "json5", "postgrest", "prql", "python", "r", "rust", "sql", "tailwind", "typescript"];
    let specs = names.map(|language| Parser { language: String::from(language) });
    let parsers = Parsers::new(specs);
    assert_eq!(
        parsers.list(),
        vec!["bash", "calc", "http", "js", "json", "json5", "postgrest", "prql", "py", "r", "rust", "sql", "tailwind", "ts"]
    );
    assert_eq!(parsers.get("py").unwrap().language, "python");
    assert_eq!(parsers.get("ts").unwrap().language, "typescript");
    let error = parsers.get("cobol").unwrap_err();
    assert_eq!(error.message(), "No parser with label `cobol`");
    assert_eq!(languages(&parsers), names.map(String::from).to_vec());
    assert_eq!(Parser::default().language, "");
}

#[test]
fn request_for_a_path_is_answered_by_what_is_there() {
    let file = PathFacts { exists: true, within_home: true, within_scope: None, is_dir: false };
    let get = |facts, traversal, has_token, format: Option<&str>| {
        get_response(facts, traversal, has_token, format.map(String::from), None, None, None)
    };
    assert_eq!(get(PathFacts { exists: false, ..file }, true, true, None), GetResponse::NotFound);
    let outside = PathFacts { within_home: false, ..file };
    assert_eq!(get(outside, false, false, None), GetResponse::TraversalForbidden);
    assert_eq!(get(PathFacts { within_scope: Some(false), ..outside }, true, false, None), GetResponse::PermissionDenied);
    assert_eq!(get(PathFacts { within_scope: Some(true), ..file }, false, true, Some("raw")), GetResponse::Redirect);
    assert_eq!(get(PathFacts { is_dir: true, ..file }, false, false, Some("raw")), GetResponse::Listing);
    assert_eq!(get(file, false, false, Some("raw")), GetResponse::Raw);
    assert_eq!(
        get(outside, true, false, None),
        GetResponse::Document {
            format: String::from("html"),
            mode: String::from("view"),
            theme: String::from("wilmore"),
            components: String::from("static"),
        }
    );
    assert_eq!(
        get_response(file, false, false, Some(String::from("md")), Some(String::from("edit")), Some(String::from("plain")), Some(String::from("none"))),
        GetResponse::Document {
            format: String::from("md"),
            mode: String::from("edit"),
            theme: String::from("plain"),
            components: String::from("none"),
        }
    );
}

#[test]
fn first_valid_token_lets_a_request_in() {
    assert_eq!(authenticate(false, Some(false), None, None), Authentication::Insecure);
    let accepted = |source, set_cookie| Authentication::Accepted { source, set_cookie };
    assert_eq!(authenticate(true, Some(true), Some(false), Some(true)), accepted(TokenSource::Param, true));
    assert_eq!(authenticate(true, Some(false), Some(true), Some(true)), accepted(TokenSource::Header, true));
    assert_eq!(authenticate(true, None, Some(false), Some(true)), accepted(TokenSource::Cookie, false));
    let rejected = |source| Authentication::Rejected { source };
    assert_eq!(authenticate(true, None, None, None), rejected(None));
    assert_eq!(authenticate(true, Some(false), None, None), rejected(Some(TokenSource::Param)));
    assert_eq!(authenticate(true, Some(false), Some(false), None), rejected(Some(TokenSource::Header)));
    assert_eq!(authenticate(true, None, Some(false), Some(false)), rejected(Some(TokenSource::Cookie)));
    assert_eq!(
        token_cookie("abc", 30 * 24 * 60 * 60),
        "token=abc; Max-Age=2592000; SameSite; HttpOnly"
    );
}
