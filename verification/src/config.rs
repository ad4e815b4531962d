//! The configuration: the formats on offer, the size profiles, the source
//! roots and the cache directory.

use vstd::prelude::*;
use vstd::string::*;

use crate::error::Error;
use crate::pattern;
use crate::pattern::{escaped, regex_compiles, regex_match};
use crate::text::{
    append_chars, chars_of, contains, contains_text, count, count_char, replace_all, replaced,
    str_eq, string_of,
};

verus! {

/// An output format.
#[derive(Clone, Copy, Debug, PartialEq, Eq, Hash, Structural)]
pub enum Extension {
    JPEG,
    WEBP,
    AVIF,
}

/// The text of a static string slice.
pub open spec fn text_of(s: &'static str) -> Seq<char> {
    s@
}

/// The file extensions that the `image` crate knows for each format, the
/// preferred one first.
pub open spec fn known_extensions(format: Extension) -> Seq<Seq<char>> {
    match format {
        Extension::JPEG => seq!["jpg"@, "jpeg"@],
        Extension::WEBP => seq!["webp"@],
        Extension::AVIF => seq!["avif"@],
    }
}

/// The file extensions of a format.
///
/// Trusted: `image::ImageFormat::extensions_str`, called on the variant of
/// `ImageFormat` that stands for `format`. Its source lists `jpg` and `jpeg`
/// for JPEG, `webp` for WebP and `avif` for AVIF, in this order.
#[verifier::external_body]
fn format_extensions(format: Extension) -> (r: &'static [&'static str])
    ensures
        r@.map_values(|s: &'static str| text_of(s)) == known_extensions(format),
{
    match format {
        Extension::JPEG => image::ImageFormat::Jpeg,
        Extension::WEBP => image::ImageFormat::WebP,
        Extension::AVIF => image::ImageFormat::Avif,
    }.extensions_str()
}

/// Lowercase of a text, as the standard library computes it.
pub uninterp spec fn lowercased(s: Seq<char>) -> Seq<char>;

/// The lowercase form of `s`.
///
/// Trusted: `str::to_lowercase` of the standard library, whose result depends
/// on the characters of `s` alone.
#[verifier::external_body]
fn to_lowercase(s: &str) -> (r: String)
    ensures
        r@ == lowercased(s@),
{
    s.to_lowercase()
}

impl Extension {
    /// The position of the format in `values()`; per-format tables are indexed
    /// by it.
    pub open spec fn spec_index(self) -> int {
        match self {
            Extension::JPEG => 0,
            Extension::WEBP => 1,
            Extension::AVIF => 2,
        }
    }

    /// The media type of the format.
    pub open spec fn spec_media_type(self) -> Seq<char> {
        match self {
            Extension::JPEG => "image/jpeg"@,
            Extension::WEBP => "image/webp"@,
            Extension::AVIF => "image/avif"@,
        }
    }

    /// The extension of the files that hold the format.
    pub open spec fn spec_extension(self) -> Seq<char> {
        known_extensions(self)[0]
    }

    /// The format that a lowercase name stands for.
    pub open spec fn spec_from_lowercase(name: Seq<char>) -> Option<Extension> {
        if name == "jpeg"@ || name == "jpg"@ {
            Some(Extension::JPEG)
        } else if name == "webp"@ {
            Some(Extension::WEBP)
        } else if name == "avif"@ {
            Some(Extension::AVIF)
        } else {
            None
        }
    }

    /// The format that a name stands for, whatever its case.
    pub open spec fn spec_from_ext(name: Seq<char>) -> Option<Extension> {
        Self::spec_from_lowercase(lowercased(name))
    }

    /// The built-in quality of the format, in percent.
    pub open spec fn spec_default_quality(self) -> int {
        match self {
            Extension::JPEG => 90,
            Extension::WEBP => 70,
            Extension::AVIF => 40,
        }
    }

    /// All formats, in the order of their index.
    pub fn values() -> (r: [Extension; 3])
        ensures
            r@ == seq![Extension::JPEG, Extension::WEBP, Extension::AVIF],
            forall|i: int| 0 <= i < 3 ==> (#[trigger] r@[i]).spec_index() == i,
    {
        let r = [Extension::JPEG, Extension::WEBP, Extension::AVIF];
        assert(r@ =~= seq![Extension::JPEG, Extension::WEBP, Extension::AVIF]);
        r
    }

    /// The position of the format in `values()`.
    pub fn index(&self) -> (i: usize)
        ensures
            i == self.spec_index(),
            i < 3,
    {
        match self {
            Extension::JPEG => 0,
            Extension::WEBP => 1,
            Extension::AVIF => 2,
        }
    }

    /// The media type of the format, such as `image/webp`.
    pub fn to_media_type(&self) -> (r: &'static str)
        ensures
            r@ == self.spec_media_type(),
    {
        match self {
            Extension::JPEG => "image/jpeg",
            Extension::WEBP => "image/webp",
            Extension::AVIF => "image/avif",
        }
    }

    /// The format named by a lowercase file extension or media subtype.
    pub fn from_lowercase(value: &str) -> (r: Option<Extension>)
        ensures
            r == Self::spec_from_lowercase(value@),
    {
        if str_eq(value, "jpeg") || str_eq(value, "jpg") {
            Some(Extension::JPEG)
        } else if str_eq(value, "webp") {
            Some(Extension::WEBP)
        } else if str_eq(value, "avif") {
            Some(Extension::AVIF)
        } else {
            None
        }
    }

    /// The format named by a file extension or media subtype, whatever its
    /// case.
    pub fn from_ext(value: &str) -> (r: Option<Extension>)
        ensures
            r == Self::spec_from_ext(value@),
    {
        let lower = to_lowercase(value);
        Self::from_lowercase(lower.as_str())
    }

    /// The built-in quality of the format, in percent.
    pub fn default_quality(&self) -> (q: u8)
        ensures
            q == self.spec_default_quality(),
    {
        match self {
            Extension::JPEG => 90,
            Extension::WEBP => 70,
            Extension::AVIF => 40,
        }
    }

    /// The file extensions of the format, the preferred one first.
    pub fn extensions(&self) -> (r: &'static [&'static str])
        ensures
            r@.map_values(|s: &'static str| text_of(s)) == known_extensions(*self),
    {
        format_extensions(*self)
    }

    /// The extension of the files that hold the format.
    pub fn extension(&self) -> (r: &'static str)
        ensures
            r@ == self.spec_extension(),
    {
        let all = self.extensions();
        proof {
            let mapped = all@.map_values(|s: &'static str| text_of(s));
            assert(mapped.len() == all@.len());
            assert(known_extensions(*self).len() > 0);
            assert(mapped[0] == text_of(all@[0]));
        }
        all[0]
    }
}

/// How loud the log is.
#[derive(Clone, Copy, Debug, PartialEq, Eq, Structural)]
pub enum LogLevel {
    Off,
    Error,
    Warn,
    Info,
    Debug,
    Trace,
}

/// Where the log goes.
#[derive(Clone, Debug)]
pub struct Logger {
    pub path: String,
    pub level: Option<LogLevel>,
}

/// A size profile: the box that an image is fitted into, and the images that
/// it applies to.
#[derive(Clone, Debug)]
pub struct Size {
    pub width: u32,
    pub height: u32,
    /// A regular expression on the image-id; without one the profile applies
    /// to every image.
    pub pattern: Option<String>,
    pub pre_optimize: Option<bool>,
}

impl Size {
    /// Whether the profile applies to `image`. A pattern that does not
    /// compile applies to nothing.
    pub open spec fn spec_matches(&self, image: Seq<char>) -> bool {
        match self.pattern {
            Some(p) => regex_match(p@, image) == Some(true),
            None => true,
        }
    }

    /// Whether variants of the profile are made ahead of the first request.
    pub open spec fn spec_pre_optimized(&self) -> bool {
        self.pre_optimize == Some(true)
    }

    /// Whether the pattern of the profile, if it has one, compiles.
    pub open spec fn pattern_compiles(&self) -> bool {
        match self.pattern {
            Some(p) => regex_compiles(p@),
            None => true,
        }
    }

    /// Whether the profile applies to `image`.
    pub fn matches(&self, image: &str) -> (r: bool)
        ensures
            r == self.spec_matches(image@),
    {
        match &self.pattern {
            Some(p) => pattern::is_match(p.as_str(), image),
            None => true,
        }
    }

    /// Whether variants of the profile are made ahead of the first request.
    pub fn pre_optimized(&self) -> (r: bool)
        ensures
            r == self.spec_pre_optimized(),
    {
        match self.pre_optimize {
            Some(b) => b,
            None => false,
        }
    }
}

/// The configuration of the engine.
#[derive(Clone, Debug)]
pub struct Config {
    /// The formats offered to negotiation, the server's preference first.
    pub extensions: Vec<Extension>,
    /// The format served where the client states no preference.
    pub default_format: Extension,
    /// The directories of source images.
    pub roots: Vec<String>,
    /// The URL template.
    pub url: String,
    pub cache_directory: String,
    pub pre_optimizer_threads: Option<usize>,
    /// The size profiles by name.
    pub sizes: Vec<(String, Size)>,
    pub logger: Option<Logger>,
    /// The regular expression made from `url`, once the configuration is
    /// prepared.
    pub url_regex: Option<String>,
}

/// The position of the first profile called `name`.
pub open spec fn first_named(sizes: Seq<(String, Size)>, name: Seq<char>) -> Option<int>
    decreases sizes.len(),
{
    if sizes.len() == 0 {
        None
    } else if sizes[0].0@ == name {
        Some(0)
    } else {
        match first_named(sizes.skip(1), name) {
            Some(i) => Some(i + 1),
            None => None,
        }
    }
}

/// `first_named` finds a profile of that name, and no earlier one has it.
pub proof fn lemma_first_named(sizes: Seq<(String, Size)>, name: Seq<char>)
    ensures
        match first_named(sizes, name) {
            Some(i) => 0 <= i < sizes.len() && sizes[i].0@ == name && forall|j: int|
                0 <= j < i ==> (#[trigger] sizes[j]).0@ != name,
            None => forall|j: int| 0 <= j < sizes.len() ==> (#[trigger] sizes[j]).0@ != name,
        },
    decreases sizes.len(),
{
    if sizes.len() > 0 && sizes[0].0@ != name {
        let rest = sizes.skip(1);
        lemma_first_named(rest, name);
        match first_named(rest, name) {
            Some(i) => {
                assert forall|j: int| 0 <= j < i + 1 implies (#[trigger] sizes[j]).0@ != name by {
                    if j > 0 {
                        assert(rest[j - 1] == sizes[j]);
                    }
                }
            },
            None => {
                assert forall|j: int| 0 <= j < sizes.len() implies (#[trigger] sizes[j]).0@
                    != name by {
                    if j > 0 {
                        assert(rest[j - 1] == sizes[j]);
                    }
                }
            },
        }
    }
}

/// The regular expression that a URL template stands for: the template as a
/// literal between `^` and `$`, with `{size}`, `{path}` and `{ext}` turned
/// into named groups and `[`..`]` into an optional group.
pub open spec fn url_regex_source(url: Seq<char>) -> Seq<char> {
    let literal = seq!['^'] + escaped(url) + seq!['$'];
    let with_size = replaced(literal, "\\{size\\}"@, "(?<size>\\w+)"@);
    let with_path = replaced(with_size, "\\{path\\}"@, "(?<path>.+?)"@);
    let with_ext = replaced(with_path, "\\{ext\\}"@, "(?<ext>[a-zA-Z0-9]+)"@);
    let opened = replaced(with_ext, "\\["@, "("@);
    replaced(opened, "\\]"@, ")?"@)
}

/// Whether a URL template names both the size and the path.
pub open spec fn has_required_tokens(url: Seq<char>) -> bool {
    contains_text(url, "{size}"@) && contains_text(url, "{path}"@)
}

/// Whether a text holds as many `(` as `)`.
pub open spec fn balanced(s: Seq<char>) -> bool {
    count_char(s, '(') == count_char(s, ')')
}

impl Config {
    /// The profile called `name`: the first of that name.
    pub open spec fn spec_size(&self, name: Seq<char>) -> Option<Size> {
        match first_named(self.sizes@, name) {
            Some(i) => Some(self.sizes@[i].1),
            None => None,
        }
    }

    /// Whether the pattern of every profile compiles.
    pub open spec fn patterns_compile(&self) -> bool {
        forall|i: int|
            0 <= i < self.sizes@.len() ==> (#[trigger] self.sizes@[i]).1.pattern_compiles()
    }

    /// The profile called `name`, if the configuration has one.
    pub fn size(&self, name: &str) -> (r: Option<&Size>)
        ensures
            match r {
                Some(s) => self.spec_size(name@) == Some(*s),
                None => self.spec_size(name@) is None,
            },
    {
        let mut i: usize = 0;
        while i < self.sizes.len()
            invariant
                i <= self.sizes.len(),
                forall|j: int| 0 <= j < i ==> (#[trigger] self.sizes@[j]).0@ != name@,
            decreases self.sizes.len() - i,
        {
            if str_eq(self.sizes[i].0.as_str(), name) {
                proof {
                    lemma_first_named(self.sizes@, name@);
                }
                return Some(&self.sizes[i].1);
            }
            i = i + 1;
        }
        proof {
            lemma_first_named(self.sizes@, name@);
        }
        None
    }

    /// Turns a URL template into the text of a regular expression.
    ///
    /// Fails where the template lacks `{size}` or `{path}`, where the
    /// expression would hold unbalanced parentheses, and where the `regex`
    /// crate does not accept the expression.
    pub fn build_url_regex(url: &str) -> (r: Result<String, Error>)
        ensures
            match r {
                Ok(source) => {
                    &&& has_required_tokens(url@)
                    &&& balanced(url_regex_source(url@))
                    &&& regex_compiles(url_regex_source(url@))
                    &&& source@ == url_regex_source(url@)
                },
                Err(e) => if !has_required_tokens(url@) {
                    e is Custom && e.message()
                        == "Arguments {size} and {path} are required in URL pattern"@
                } else if !balanced(url_regex_source(url@)) {
                    e is Custom && e.message() == "Invalid URL pattern in config file"@
                } else {
                    e is Other && !regex_compiles(url_regex_source(url@))
                },
            },
    {
        let raw = chars_of(url);
        if !contains(&raw, &chars_of("{size}")) || !contains(&raw, &chars_of("{path}")) {
            return Error::err("Arguments {size} and {path} are required in URL pattern");
        }
        let literal = pattern::run_escape(url);
        let mut clean: Vec<char> = Vec::new();
        clean.push('^');
        append_chars(&mut clean, &chars_of(literal.as_str()));
        clean.push('$');
        assert(clean@ =~= seq!['^'] + escaped(url@) + seq!['$']);
        let clean = replace_all(&clean, &chars_of("\\{size\\}"), &chars_of("(?<size>\\w+)"));
        let clean = replace_all(&clean, &chars_of("\\{path\\}"), &chars_of("(?<path>.+?)"));
        let clean = replace_all(
            &clean,
            &chars_of("\\{ext\\}"),
            &chars_of("(?<ext>[a-zA-Z0-9]+)"),
        );
        let clean = replace_all(&clean, &chars_of("\\["), &chars_of("("));
        let clean = replace_all(&clean, &chars_of("\\]"), &chars_of(")?"));
        if count(&clean, '(') != count(&clean, ')') {
            return Error::err("Invalid URL pattern in config file");
        }
        let source = string_of(&clean);
        match pattern::check(source.as_str()) {
            Ok(()) => Ok(source),
            Err(e) => Err(e),
        }
    }
}

/// The quality that a profile encodes a format with: the profile's own if it
/// names one, else the configuration's, else the format's built-in quality.
pub open spec fn quality_of<Q>(profile: Option<Q>, global: Option<Q>, built_in: Q) -> Q {
    match profile {
        Some(q) => q,
        None => match global {
            Some(q) => q,
            None => built_in,
        },
    }
}

/// The quality that a profile encodes a format with.
pub fn pick_quality<Q>(profile: Option<Q>, global: Option<Q>, built_in: Q) -> (q: Q)
    ensures
        q == quality_of(profile, global, built_in),
{
    match profile {
        Some(q) => q,
        None => match global {
            Some(q) => q,
            None => built_in,
        },
    }
}

impl Default for Config {
    /// A configuration to start from: AVIF on offer, JPEG by default, one
    /// profile `default` of 500 by 500, and no source root that exists.
    fn default() -> (r: Config)
        ensures
            r.extensions@ == seq![Extension::AVIF],
            r.default_format == Extension::JPEG,
            r.roots@.len() == 1,
            r.roots@[0]@ == "/dev/null"@,
            r.url@ == "/media"@,
            r.cache_directory@ == "/tmp/impress"@,
            r.pre_optimizer_threads is None,
            r.sizes@.len() == 1,
            r.sizes@[0].0@ == "default"@,
            r.sizes@[0].1.width == 500,
            r.sizes@[0].1.height == 500,
            r.sizes@[0].1.pattern is None,
            r.sizes@[0].1.pre_optimize is None,
            r.logger is None,
            r.url_regex is None,
    {
        let mut extensions: Vec<Extension> = Vec::new();
        extensions.push(Extension::AVIF);
        let mut roots: Vec<String> = Vec::new();
        roots.push(String::from_str("/dev/null"));
        let mut sizes: Vec<(String, Size)> = Vec::new();
        sizes.push(
            (
                String::from_str("default"),
                Size { width: 500, height: 500, pattern: None, pre_optimize: None },
            ),
        );
        let r = Config {
            extensions,
            default_format: Extension::JPEG,
            roots,
            url: String::from_str("/media"),
            cache_directory: String::from_str("/tmp/impress"),
            pre_optimizer_threads: None,
            sizes,
            logger: None,
            url_regex: None,
        };
        assert(r.extensions@ =~= seq![Extension::AVIF]);
        r
    }
}

impl Config {
    /// Makes a configuration ready for use: builds the regular expression of
    /// its URL template and checks the pattern of every profile.
    ///
    /// Fails as `build_url_regex` does on the URL template, and with the
    /// error of the `regex` crate on the first pattern that does not compile.
    pub fn prepare(self) -> (r: Result<Config, Error>)
        ensures
            match r {
                Ok(config) => {
                    &&& has_required_tokens(self.url@)
                    &&& balanced(url_regex_source(self.url@))
                    &&& regex_compiles(url_regex_source(self.url@))
                    &&& self.patterns_compile()
                    &&& config.url_regex matches Some(source)
                    &&& source@ == url_regex_source(self.url@)
                    &&& config == (Config { url_regex: config.url_regex, ..self })
                },
                Err(e) => if !has_required_tokens(self.url@) {
                    e is Custom && e.message()
                        == "Arguments {size} and {path} are required in URL pattern"@
                } else if !balanced(url_regex_source(self.url@)) {
                    e is Custom && e.message() == "Invalid URL pattern in config file"@
                } else {
                    e is Other && (!regex_compiles(url_regex_source(self.url@))
                        || !self.patterns_compile())
                },
            },
    {
        let source = match Config::build_url_regex(self.url.as_str()) {
            Ok(source) => source,
            Err(e) => {
                return Err(e);
            },
        };
        let mut i: usize = 0;
        while i < self.sizes.len()
            invariant
                i <= self.sizes.len(),
                has_required_tokens(self.url@),
                balanced(url_regex_source(self.url@)),
                forall|j: int| 0 <= j < i ==> (#[trigger] self.sizes@[j]).1.pattern_compiles(),
            decreases self.sizes.len() - i,
        {
            match &self.sizes[i].1.pattern {
                Some(pattern) => {
                    match pattern::check(pattern.as_str()) {
                        Ok(()) => {},
                        Err(e) => {
                            assert(!self.sizes@[i as int].1.pattern_compiles());
                            return Err(e);
                        },
                    }
                },
                None => {},
            }
            i = i + 1;
        }
        let mut config = self;
        config.url_regex = Some(source);
        Ok(config)
    }
}

} // verus!
