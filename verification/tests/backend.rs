use std::hash::{DefaultHasher, Hash, Hasher};

use impress::backend::{
    generate_etag, locate, parse_accept_header, process_cache_headers, respond, stable_source_id,
    to_decimal, Response,
};
use impress::config::Config;
use impress::error::Error;
use impress::images::{content_type, is_supported, Avif, Jpeg, OptimizedImage, Webp};
use impress::resolver::{FetchResult, Timestamp};

fn found(size: u64, seconds: i64, inode: u64, is_optimized: bool) -> FetchResult {
    FetchResult {
        size,
        last_modified: Timestamp { seconds, nanoseconds: 500 },
        inode,
        mime: "image/webp".to_string(),
        is_optimized,
    }
}

fn expected_tag(inode: u64, size: u64, seconds: i64, is_optimized: bool) -> String {
    let mut h = DefaultHasher::new();
    (inode, size as usize, seconds, is_optimized).hash(&mut h);
    h.finish().to_string()
}

#[test]
fn decimal_of_numbers() {
    assert_eq!(to_decimal(0), "0");
    assert_eq!(to_decimal(7), "7");
    assert_eq!(to_decimal(10), "10");
    assert_eq!(to_decimal(1234567890), "1234567890");
    assert_eq!(to_decimal(u64::MAX), "18446744073709551615");
}

#[test]
fn the_identity_tag_is_the_hash_in_decimal() {
    assert_eq!(generate_etag(&found(1000, 1700000000, 42, true)), expected_tag(42, 1000, 1700000000, true));
    assert_eq!(generate_etag(&found(0, 0, 0, false)), expected_tag(0, 0, 0, false));
}

#[test]
fn the_identity_tag_is_stable() {
    let first = generate_etag(&found(1000, 1700000000, 42, true));
    for _ in 0..10 {
        assert_eq!(generate_etag(&found(1000, 1700000000, 42, true)), first);
    }
}

#[test]
fn the_identity_tag_ignores_what_is_not_part_of_it() {
    let mut a = found(1000, 1700000000, 42, true);
    let tag = generate_etag(&a);
    a.mime = "image/avif".to_string();
    a.last_modified.nanoseconds = 9;
    assert_eq!(generate_etag(&a), tag);
}

#[test]
fn a_rewrite_changes_the_identity_tag() {
    let before = generate_etag(&found(1000, 1700000000, 42, true));
    assert_ne!(generate_etag(&found(1000, 1700000060, 42, true)), before);
    assert_ne!(generate_etag(&found(1001, 1700000000, 42, true)), before);
    assert_ne!(generate_etag(&found(1000, 1700000000, 43, true)), before);
    assert_ne!(generate_etag(&found(1000, 1700000000, 42, false)), before);
}

#[test]
fn if_none_match_decides_alone() {
    let result = found(1000, 1700000000, 42, true);
    let tag = generate_etag(&result);
    let weak = format!("W/{}", tag);
    let later = "Tue, 14 Nov 2023 23:00:00 GMT";
    assert_eq!(process_cache_headers(Some(&tag), None, &result), (true, tag.clone()));
    assert_eq!(process_cache_headers(Some(&weak), None, &result), (true, tag.clone()));
    assert_eq!(process_cache_headers(Some("other"), None, &result), (false, tag.clone()));
    assert_eq!(process_cache_headers(Some("other"), Some(later), &result), (false, tag.clone()));
    assert_eq!(process_cache_headers(Some("W/"), None, &result), (false, tag));
}

#[test]
fn if_modified_since_must_lie_after_the_last_change() {
    // 1700000000 is Tue, 14 Nov 2023 22:13:20 GMT
    let result = found(1000, 1700000000, 42, true);
    let tag = generate_etag(&result);
    let check = |date: &str| process_cache_headers(None, Some(date), &result).0;
    assert!(check("Tue, 14 Nov 2023 22:13:21 GMT"));
    assert!(check("Wed, 15 Nov 2023 00:00:00 +0100"));
    assert!(!check("Tue, 14 Nov 2023 22:13:20 GMT"));
    assert!(!check("Tue, 14 Nov 2023 22:13:19 GMT"));
    assert!(!check("yesterday"));
    assert_eq!(process_cache_headers(None, None, &result), (false, tag));
}

#[test]
fn a_date_equal_to_a_whole_second_change_is_not_later() {
    let mut result = found(1000, 1700000000, 42, true);
    result.last_modified.nanoseconds = 0;
    assert!(!process_cache_headers(None, Some("Tue, 14 Nov 2023 22:13:20 GMT"), &result).0);
}

fn header<'a>(headers: &'a [(String, String)], name: &str) -> &'a str {
    &headers.iter().find(|(n, _)| n == name).expect("the header is there").1
}

#[test]
fn the_response_to_a_get() {
    let result = found(1000, 1700000000, 42, true);
    let response = respond("GET", None, None, &result).unwrap();
    assert_eq!(response.status, 200);
    assert!(response.send_body);
    let names: Vec<&str> = response.headers.iter().map(|(n, _)| n.as_str()).collect();
    assert_eq!(
        names,
        vec!["ETag", "Last-Modified", "Content-Length", "Content-Type", "Vary", "Cache-Control"]
    );
    assert_eq!(header(&response.headers, "ETag"), generate_etag(&result));
    assert_eq!(header(&response.headers, "Last-Modified"), "Tue, 14 Nov 2023 22:13:20 GMT");
    assert_eq!(header(&response.headers, "Content-Length"), "1000");
    assert_eq!(header(&response.headers, "Content-Type"), "image/webp");
    assert_eq!(header(&response.headers, "Vary"), "Accept");
    assert_eq!(
        header(&response.headers, "Cache-Control"),
        "public, max-age=31536000, immutable"
    );
}

#[test]
fn the_source_is_not_to_be_cached() {
    let response = respond("GET", None, None, &found(5, 1, 1, false)).unwrap();
    assert_eq!(header(&response.headers, "Cache-Control"), "no-cache");
    assert_eq!(header(&response.headers, "Last-Modified"), "Thu, 01 Jan 1970 00:00:01 GMT");
}

#[test]
fn head_sends_no_body() {
    let response = respond("HEAD", None, None, &found(5, 1, 1, true)).unwrap();
    assert_eq!(response.status, 200);
    assert!(!response.send_body);
}

#[test]
fn other_methods_are_not_allowed() {
    for method in ["POST", "PUT", "DELETE", "get", ""] {
        let response = respond(method, None, None, &found(5, 1, 1, true)).unwrap();
        assert_eq!(response.status, 405);
        assert!(!response.send_body);
        assert_eq!(response.headers.len(), 6);
    }
}

#[test]
fn a_good_copy_is_answered_with_304() {
    let result = found(1000, 1700000000, 42, true);
    let tag = generate_etag(&result);
    let response = respond("GET", Some(&tag), None, &result).unwrap();
    assert_eq!(response.status, 304);
    assert!(!response.send_body);
    let response = respond("HEAD", None, Some("Wed, 15 Nov 2023 10:00:00 GMT"), &result).unwrap();
    assert_eq!(response.status, 304);
    let response = respond("POST", Some(&tag), None, &result).unwrap();
    assert_eq!(response.status, 405);
}

#[test]
fn a_date_beyond_the_calendar_is_an_error() {
    let error = respond("GET", None, None, &found(5, i64::MAX, 1, true)).unwrap_err();
    assert!(matches!(error, Error::Custom(_)));
    assert_eq!(error.to_string(), "Last-Modified out of range");
}

#[test]
fn the_accept_header_as_the_resolver_takes_it() {
    assert_eq!(parse_accept_header(None), None);
    assert_eq!(parse_accept_header(Some("*/*")), None);
    assert_eq!(parse_accept_header(Some(" */* ")), None);
    assert_eq!(parse_accept_header(Some("")), None);
    assert_eq!(parse_accept_header(Some("no media type")), None);
    assert_eq!(
        parse_accept_header(Some("image/webp, */*;q=0.8")),
        Some("image/webp, */*;q=0.8".to_string())
    );
}

fn prepared(url: &str) -> Config {
    let mut config = Config::default();
    config.url = url.to_string();
    config.prepare().unwrap()
}

#[test]
fn locating_an_image_by_its_url() {
    let config = prepared("/media/{size}/{path}[.{ext}]");
    assert_eq!(
        locate(&config, "/media/medium/some/path/image.jpeg").unwrap(),
        Some(("medium".to_string(), "some/path/image".to_string()))
    );
    assert_eq!(
        locate(&config, "/media/low/caf%C3%A9%20cr%C3%A8me").unwrap(),
        Some(("low".to_string(), "café crème".to_string()))
    );
    assert_eq!(locate(&config, "/other/medium/x.jpg").unwrap(), None);
    assert_eq!(locate(&config, "/media/medium").unwrap(), None);
}

#[test]
fn a_group_that_takes_no_part_locates_nothing() {
    let config = prepared("/m[/{size}]/{path}");
    assert_eq!(
        locate(&config, "/m/low/a").unwrap(),
        Some(("low".to_string(), "a".to_string()))
    );
    assert_eq!(locate(&config, "/m/a").unwrap(), None);
}

#[test]
fn locating_fails_on_bad_input() {
    let config = prepared("/media/{size}/{path}");
    assert!(matches!(locate(&config, "/media/low/%ff%fe").unwrap_err(), Error::Other(_)));
    let error = locate(&Config::default(), "/media/low/a").unwrap_err();
    assert_eq!(error.to_string(), "Badly initialized config");
}

#[test]
fn content_types_by_extension() {
    assert_eq!(content_type("media/a.jpg").unwrap(), "image/jpeg");
    assert_eq!(content_type("media/a.JPEG").unwrap(), "image/jpeg");
    assert_eq!(content_type("/c/small/a.webp").unwrap(), "image/webp");
    assert_eq!(content_type("a.avif").unwrap(), "image/avif");
    assert_eq!(content_type("a.png").unwrap(), "image/png");
    assert!(matches!(content_type("a.txt").unwrap_err(), Error::Other(_)));
    assert!(matches!(content_type("a").unwrap_err(), Error::Other(_)));
}

#[test]
fn supported_source_extensions() {
    let known = [
        "gif", "ico", "jpg", "jpeg", "png", "bmp", "tiff", "tif", "tga", "pbm", "pam", "ppm",
        "pgm", "pnm", "ff", "avif", "webp", "exr", "qoi", "dds", "hdr", "pcx",
    ];
    for extension in known {
        assert!(is_supported(extension), "{}", extension);
    }
    let listed: Vec<&str> = image::ImageFormat::all()
        .flat_map(|format| format.extensions_str().iter().copied())
        .collect();
    assert_eq!(listed, known);
    for extension in ["txt", "JPG", "", "jp", "jpegs", "svg", "heic"] {
        assert!(!is_supported(extension), "{}", extension);
    }
}

#[test]
fn encoded_images_hand_out_their_bytes() {
    assert_eq!(Webp::new(vec![1, 2, 3]).data(), &[1, 2, 3]);
    assert_eq!(Avif::new(vec![4, 5]).data(), &[4, 5]);
    assert_eq!(Jpeg::new(vec![6]).data(), &[6]);
    assert_eq!(Webp::new(Vec::new()).data(), &[] as &[u8]);
}

#[test]
fn a_jpeg_is_read_piece_by_piece() {
    let mut jpeg = Jpeg::new(vec![10, 11, 12, 13, 14]);
    assert_eq!(jpeg.remaining(), 5);
    assert_eq!(jpeg.take(2), &[10, 11]);
    assert_eq!(jpeg.remaining(), 3);
    assert_eq!(jpeg.take(0), &[] as &[u8]);
    assert_eq!(jpeg.take(10), &[12, 13, 14]);
    assert_eq!(jpeg.remaining(), 0);
    assert_eq!(jpeg.take(usize::MAX), &[] as &[u8]);
    assert_eq!(jpeg.data(), &[10, 11, 12, 13, 14]);
}

#[test]
fn the_source_is_identified_by_its_inode_or_by_its_path() {
    assert_eq!(stable_source_id(Some(42), "media/a.jpg"), 42);
    assert_eq!(stable_source_id(Some(0), "media/a.jpg"), 0);
    let mut h = DefaultHasher::new();
    "media/a.jpg".hash(&mut h);
    assert_eq!(stable_source_id(None, "media/a.jpg"), h.finish());
    assert_eq!(stable_source_id(None, "media/a.jpg"), stable_source_id(None, "media/a.jpg"));
    assert_ne!(stable_source_id(None, "media/a.jpg"), stable_source_id(None, "media/b.jpg"));
}

#[test]
fn responses_without_an_image() {
    let missing = Response::not_found();
    assert_eq!(missing.status, 404);
    assert!(missing.headers.is_empty());
    assert!(!missing.send_body);
    let failed = Response::failure(&Error::Other("disk on fire".to_string()));
    assert_eq!(failed.status, 500);
    assert_eq!(failed.headers, vec![("error".to_string(), "disk on fire".to_string())]);
    assert!(!failed.send_body);
}
