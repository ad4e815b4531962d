use impress::config::Config;
use regex::Regex;

#[test]
fn test_build_url_regex_valid_pattern() {
    let url = "/media/{size}/{path}[.{ext}]";
    let source = Config::build_url_regex(url).expect("Failed to build regex");
    let regex = Regex::new(&source).expect("Failed to build regex");

    let url_to_test = "/media/medium/some/path/image.jpeg";
    let captures = regex.captures(url_to_test).expect("Failed to match URL");

    assert_eq!(captures.name("size").unwrap().as_str(), "medium");
    assert_eq!(captures.name("path").unwrap().as_str(), "some/path/image");
    assert_eq!(captures.name("ext").unwrap().as_str(), "jpeg");
}

#[test]
fn test_build_url_regex_optional_extension() {
    let url = "/media/{size}/{path}[.{ext}]";
    let source = Config::build_url_regex(url).expect("Failed to build regex");
    let regex = Regex::new(&source).expect("Failed to build regex");

    let url_to_test = "/media/high/another/path/image";
    let captures = regex.captures(url_to_test).expect("Failed to match URL");

    assert_eq!(captures.name("size").unwrap().as_str(), "high");
    assert_eq!(captures.name("path").unwrap().as_str(), "another/path/image");
    assert!(captures.name("ext").is_none());
}

#[test]
fn test_build_url_regex_invalid_pattern_unbalanced_brackets() {
    let url = "/media/{size}/{path}[.{ext}[";
    let result = Config::build_url_regex(url);

    assert!(result.is_err());
    if let Err(err) = result {
        assert_eq!(err.to_string(), "Invalid URL pattern in config file");
    }
}

#[test]
fn test_build_url_regex_valid_pattern_no_optional_extension() {
    let url = "/media/{size}/{path}.{ext}";
    let source = Config::build_url_regex(url).expect("Failed to build regex");
    let regex = Regex::new(&source).expect("Failed to build regex");

    let url_to_test = "/media/low/some/other/path/image.webp";
    let captures = regex.captures(url_to_test).expect("Failed to match URL");

    assert_eq!(captures.name("size").unwrap().as_str(), "low");
    assert_eq!(captures.name("path").unwrap().as_str(), "some/other/path/image");
    assert_eq!(captures.name("ext").unwrap().as_str(), "webp");
}

#[test]
fn test_build_url_regex_valid_pattern_optional_part() {
    let url = "/media/[optional/]{size}/{path}.{ext}";
    let source = Config::build_url_regex(url).expect("Failed to build regex");
    let regex = Regex::new(&source).expect("Failed to build regex");

    let url_to_test = "/media/optional/low/some/other/path/image.webp";
    let captures = regex.captures(url_to_test).expect("Failed to match URL");

    assert_eq!(captures.name("size").unwrap().as_str(), "low");
    assert_eq!(captures.name("path").unwrap().as_str(), "some/other/path/image");
    assert_eq!(captures.name("ext").unwrap().as_str(), "webp");

    let url_to_test = "/media/low/some/other/path/image.webp";
    let captures = regex.captures(url_to_test).expect("Failed to match URL");

    assert_eq!(captures.name("size").unwrap().as_str(), "low");
    assert_eq!(captures.name("path").unwrap().as_str(), "some/other/path/image");
    assert_eq!(captures.name("ext").unwrap().as_str(), "webp");
}

#[test]
fn test_build_url_regex_invalid_pattern_missing_path() {
    let url = "/media/{size}//[.{ext}]";
    let result = Config::build_url_regex(url);

    assert!(result.is_err());
}

#[test]
fn url_regex_source_is_the_documented_text() {
    let source = Config::build_url_regex("/m/{size}/{path}[.{ext}]").unwrap();
    assert_eq!(source, r"^/m/(?<size>\w+)/(?<path>.+?)(\.(?<ext>[a-zA-Z0-9]+))?$");
}

#[test]
fn url_regex_reports_missing_tokens() {
    let err = Config::build_url_regex("/media/{path}").unwrap_err();
    assert_eq!(
        err.to_string(),
        "Arguments {size} and {path} are required in URL pattern"
    );
}
