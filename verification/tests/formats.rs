use impress::config::{pick_quality, Config, Extension, Size};
use impress::error::{Error, MapResultString};

#[test]
fn values_are_in_index_order() {
    let all = Extension::values();
    assert_eq!(all, [Extension::JPEG, Extension::WEBP, Extension::AVIF]);
    for (i, format) in all.iter().enumerate() {
        assert_eq!(format.index(), i);
    }
}

#[test]
fn from_ext_reads_every_known_name() {
    assert_eq!(Extension::from_ext("jpeg"), Some(Extension::JPEG));
    assert_eq!(Extension::from_ext("jpg"), Some(Extension::JPEG));
    assert_eq!(Extension::from_ext("webp"), Some(Extension::WEBP));
    assert_eq!(Extension::from_ext("avif"), Some(Extension::AVIF));
    assert_eq!(Extension::from_ext("png"), None);
    assert_eq!(Extension::from_ext(""), None);
}

#[test]
fn from_ext_ignores_case() {
    assert_eq!(Extension::from_ext("JPG"), Some(Extension::JPEG));
    assert_eq!(Extension::from_ext("WebP"), Some(Extension::WEBP));
    assert_eq!(Extension::from_ext("AVIF"), Some(Extension::AVIF));
}

#[test]
fn from_lowercase_is_exact() {
    assert_eq!(Extension::from_lowercase("jpg"), Some(Extension::JPEG));
    assert_eq!(Extension::from_lowercase("JPG"), None);
    assert_eq!(Extension::from_lowercase("jpeg "), None);
}

#[test]
fn extensions_of_each_format() {
    assert_eq!(Extension::JPEG.extensions(), &["jpg", "jpeg"]);
    assert_eq!(Extension::WEBP.extensions(), &["webp"]);
    assert_eq!(Extension::AVIF.extensions(), &["avif"]);
    assert_eq!(Extension::JPEG.extension(), "jpg");
    assert_eq!(Extension::WEBP.extension(), "webp");
    assert_eq!(Extension::AVIF.extension(), "avif");
}

#[test]
fn media_types_of_each_format() {
    assert_eq!(Extension::JPEG.to_media_type(), "image/jpeg");
    assert_eq!(Extension::WEBP.to_media_type(), "image/webp");
    assert_eq!(Extension::AVIF.to_media_type(), "image/avif");
}

#[test]
fn built_in_qualities() {
    assert_eq!(Extension::JPEG.default_quality(), 90);
    assert_eq!(Extension::WEBP.default_quality(), 70);
    assert_eq!(Extension::AVIF.default_quality(), 40);
}

#[test]
fn quality_falls_back_from_profile_to_configuration_to_format() {
    assert_eq!(pick_quality(Some(55.5f32), Some(60.0), 90.0), 55.5);
    assert_eq!(pick_quality(None, Some(60.0f32), 90.0), 60.0);
    assert_eq!(pick_quality(None, None, 90.0f32), 90.0);
    assert_eq!(
        pick_quality(None, None, Extension::WEBP.default_quality() as f32),
        70.0
    );
}

#[test]
fn error_new_carries_the_message() {
    let error = Error::new("something failed");
    assert!(matches!(error, Error::Custom(_)));
    assert_eq!(error.to_string(), "something failed");
}

#[test]
fn error_err_is_an_err() {
    let result: Result<u8, Error> = Error::err("no");
    let error = result.unwrap_err();
    assert!(matches!(error, Error::Custom(_)));
    assert_eq!(error.to_string(), "no");
}

#[test]
fn every_error_variant_shows_its_message() {
    assert_eq!(Error::Custom("a".to_string()).to_string(), "a");
    assert_eq!(Error::Poison("b".to_string()).to_string(), "b");
    assert_eq!(Error::Send("c".to_string()).to_string(), "c");
    assert_eq!(Error::Other("d".to_string()).to_string(), "d");
}

#[test]
fn or_display_replaces_the_error_only() {
    let good: Result<u8, u16> = Ok(3);
    assert_eq!(good.or_display("ignored").unwrap(), 3);
    let bad: Result<u8, u16> = Err(500);
    let error = bad.or_display("replaced").unwrap_err();
    assert!(matches!(error, Error::Custom(_)));
    assert_eq!(error.to_string(), "replaced");
}

fn profile(pattern: Option<&str>, pre_optimize: Option<bool>) -> Size {
    Size {
        width: 300,
        height: 200,
        pattern: pattern.map(|p| p.to_string()),
        pre_optimize,
    }
}

#[test]
fn a_profile_without_pattern_applies_to_everything() {
    let size = profile(None, None);
    assert!(size.matches("anything/at/all"));
    assert!(size.matches(""));
}

#[test]
fn a_profile_with_pattern_applies_where_it_matches() {
    let size = profile(Some("^products/"), None);
    assert!(size.matches("products/shoe"));
    assert!(!size.matches("banners/products/shoe"));
}

#[test]
fn a_pattern_that_does_not_compile_applies_to_nothing() {
    let size = profile(Some("(unclosed"), None);
    assert!(!size.matches("(unclosed"));
}

#[test]
fn pre_optimize_defaults_to_false() {
    assert!(!profile(None, None).pre_optimized());
    assert!(!profile(None, Some(false)).pre_optimized());
    assert!(profile(None, Some(true)).pre_optimized());
}

#[test]
fn default_configuration() {
    let config = Config::default();
    assert_eq!(config.extensions, vec![Extension::AVIF]);
    assert_eq!(config.default_format, Extension::JPEG);
    assert_eq!(config.roots, vec!["/dev/null".to_string()]);
    assert_eq!(config.url, "/media");
    assert_eq!(config.cache_directory, "/tmp/impress");
    assert_eq!(config.pre_optimizer_threads, None);
    assert_eq!(config.sizes.len(), 1);
    assert_eq!(config.sizes[0].0, "default");
    assert_eq!(config.sizes[0].1.width, 500);
    assert_eq!(config.sizes[0].1.height, 500);
    assert!(config.logger.is_none());
    assert!(config.url_regex.is_none());
}

#[test]
fn size_lookup_finds_the_first_of_a_name() {
    let mut config = Config::default();
    config.sizes.push(("low".to_string(), profile(None, None)));
    let mut second = profile(None, None);
    second.width = 999;
    config.sizes.push(("low".to_string(), second));
    assert_eq!(config.size("low").unwrap().width, 300);
    assert_eq!(config.size("default").unwrap().width, 500);
    assert!(config.size("missing").is_none());
}

#[test]
fn prepare_builds_the_url_regex() {
    let mut config = Config::default();
    config.url = "/media/{size}/{path}[.{ext}]".to_string();
    config.sizes.push(("product".to_string(), profile(Some("^products/"), Some(true))));
    let ready = config.prepare().expect("a valid configuration");
    assert_eq!(
        ready.url_regex.as_deref(),
        Some(r"^/media/(?<size>\w+)/(?<path>.+?)(\.(?<ext>[a-zA-Z0-9]+))?$")
    );
    assert_eq!(ready.sizes.len(), 2);
    assert_eq!(ready.url, "/media/{size}/{path}[.{ext}]");
}

#[test]
fn prepare_rejects_a_template_without_tokens() {
    let error = Config::default().prepare().unwrap_err();
    assert_eq!(
        error.to_string(),
        "Arguments {size} and {path} are required in URL pattern"
    );
}

#[test]
fn prepare_rejects_unbalanced_brackets() {
    let mut config = Config::default();
    config.url = "/media/{size}/{path}[.{ext}[".to_string();
    let error = config.prepare().unwrap_err();
    assert_eq!(error.to_string(), "Invalid URL pattern in config file");
}

#[test]
fn prepare_rejects_a_pattern_that_does_not_compile() {
    let mut config = Config::default();
    config.url = "/media/{size}/{path}".to_string();
    config.sizes.push(("broken".to_string(), profile(Some("(unclosed"), None)));
    let error = config.prepare().unwrap_err();
    assert!(matches!(error, Error::Other(_)));
}

#[test]
fn a_template_whose_expression_does_not_compile_is_an_outside_error() {
    let error = Config::build_url_regex("{size}{path}]x[").unwrap_err();
    assert!(matches!(error, Error::Other(_)));
}
