//! The resolver: what is served for an image, a size profile and the formats
//! that a client accepts.

use vstd::prelude::*;
use vstd::string::*;

use crate::cache::{registered, views_of, CacheImage, Variant, VariantIndex, VariantView};
use crate::config::{Config, Extension, Size};
use crate::error::Error;
use crate::file_saver::{variant_path, variant_path_of, OptimizeImage};
use crate::images::{content_type, is_supported, known_file_extensions, path_mime_type};
use crate::negotiation::{
    best, by_default, candidates, media_types_of, negotiated, no_preference, order, ranked,
    without, without_first,
};
use crate::utils::{decompose_filename, path_extension, path_relative_to, relative_to, stem_of};

verus! {

/// The formats among `formats` for which `image` has a variant of `size`, in
/// the order of `formats`.
pub open spec fn offered_formats(
    formats: Seq<Extension>,
    image: Map<(Seq<char>, Extension), Seq<char>>,
    size: Seq<char>,
) -> Seq<Extension>
    decreases formats.len(),
{
    if formats.len() == 0 {
        formats
    } else if image.dom().contains((size, formats.last())) {
        offered_formats(formats.drop_last(), image, size).push(formats.last())
    } else {
        offered_formats(formats.drop_last(), image, size)
    }
}

/// The formats among `formats` for which `image` has no variant of `size`, in
/// the order of `formats`.
pub open spec fn missing_formats(
    formats: Seq<Extension>,
    image: Map<(Seq<char>, Extension), Seq<char>>,
    size: Seq<char>,
) -> Seq<Extension>
    decreases formats.len(),
{
    if formats.len() == 0 {
        formats
    } else if image.dom().contains((size, formats.last())) {
        missing_formats(formats.drop_last(), image, size)
    } else {
        missing_formats(formats.drop_last(), image, size).push(formats.last())
    }
}

/// A format is offered exactly when it is configured and has a variant.
pub proof fn lemma_offered(
    formats: Seq<Extension>,
    image: Map<(Seq<char>, Extension), Seq<char>>,
    size: Seq<char>,
    format: Extension,
)
    ensures
        offered_formats(formats, image, size).contains(format) <==> formats.contains(format)
            && image.dom().contains((size, format)),
    decreases formats.len(),
{
    if formats.len() > 0 {
        let rest = formats.drop_last();
        lemma_offered(rest, image, size, format);
        let offered = offered_formats(formats, image, size);
        let before = offered_formats(rest, image, size);
        if formats.contains(format) {
            let i = choose|i: int| 0 <= i < formats.len() && formats[i] == format;
            if i < rest.len() {
                assert(rest[i] == format);
            }
        }
        if rest.contains(format) {
            let i = choose|i: int| 0 <= i < rest.len() && rest[i] == format;
            assert(formats[i] == format);
        }
        if image.dom().contains((size, formats.last())) {
            assert(offered == before.push(formats.last()));
            if before.contains(format) {
                let i = choose|i: int| 0 <= i < before.len() && before[i] == format;
                assert(offered[i] == format);
            }
            if offered.contains(format) {
                let i = choose|i: int| 0 <= i < offered.len() && offered[i] == format;
                if i < before.len() {
                    assert(before[i] == format);
                } else {
                    assert(formats[formats.len() - 1] == format);
                }
            }
            if format == formats.last() {
                assert(offered[offered.len() - 1] == format);
                assert(formats[formats.len() - 1] == format);
            }
        } else {
            if format == formats.last() {
                assert(formats[formats.len() - 1] == format);
            }
        }
    }
}

/// What is left after taking out one occurrence was there before.
pub proof fn lemma_without_first_subset(formats: Seq<Extension>, format: Extension, x: Extension)
    requires
        without_first(formats, format).contains(x),
    ensures
        formats.contains(x),
    decreases formats.len(),
{
    let left = without_first(formats, format);
    let i = choose|i: int| 0 <= i < left.len() && left[i] == x;
    if formats.len() == 0 {
    } else if formats[0] == format {
        assert(formats[i + 1] == x);
    } else {
        if i == 0 {
            assert(formats[0] == x);
        } else {
            let rest = formats.skip(1);
            assert(without_first(rest, format)[i - 1] == x);
            lemma_without_first_subset(rest, format, x);
            let j = choose|j: int| 0 <= j < rest.len() && rest[j] == x;
            assert(formats[j + 1] == x);
        }
    }
}

/// What is left after taking out every occurrence was there before.
pub proof fn lemma_without_subset(formats: Seq<Extension>, format: Extension, x: Extension)
    requires
        without(formats, format).contains(x),
    ensures
        formats.contains(x),
    decreases formats.len(),
{
    let left = without(formats, format);
    let i = choose|i: int| 0 <= i < left.len() && left[i] == x;
    if formats.len() > 0 {
        let rest = formats.drop_last();
        let before = without(rest, format);
        if formats.last() != format && i == before.len() {
            assert(formats[formats.len() - 1] == x);
        } else {
            assert(before[i] == x);
            lemma_without_subset(rest, format, x);
            let j = choose|j: int| 0 <= j < rest.len() && rest[j] == x;
            assert(formats[j] == x);
        }
    }
}

/// Negotiation ranks offered formats only.
pub proof fn lemma_ranked_subset(header: Seq<char>, offered: Seq<Extension>, x: Extension)
    requires
        ranked(header, offered).contains(x),
    ensures
        offered.contains(x),
    decreases offered.len(),
{
    let all = ranked(header, offered);
    let i = choose|i: int| 0 <= i < all.len() && all[i] == x;
    match best(header, offered) {
        Some(format) => {
            let rest = without_first(offered, format);
            if i > 0 {
                assert(rest.len() < offered.len());
                assert(ranked(header, rest)[i - 1] == x);
                lemma_ranked_subset(header, rest, x);
                lemma_without_first_subset(offered, format, x);
            }
        },
        None => {},
    }
}

/// Every format that is tried is one of the offered formats.
pub proof fn lemma_candidates_subset(
    accept: Option<Seq<char>>,
    offered: Seq<Extension>,
    default_format: Extension,
    x: Extension,
)
    requires
        candidates(accept, offered, default_format).contains(x),
    ensures
        offered.contains(x),
{
    if no_preference(accept) {
        if offered.contains(default_format) {
            let all = by_default(offered, default_format);
            let i = choose|i: int| 0 <= i < all.len() && all[i] == x;
            if i > 0 {
                assert(without(offered, default_format)[i - 1] == x);
                lemma_without_subset(offered, default_format, x);
            }
        }
    } else {
        lemma_ranked_subset(accept->0, offered, x);
    }
}

/// The offered and the missing formats of `image` for `size`.
pub fn split_formats(formats: &Vec<Extension>, image: &CacheImage, size: &str) -> (r: (
    Vec<Extension>,
    Vec<Extension>,
))
    ensures
        r.0@ == offered_formats(formats@, image@, size@),
        r.1@ == missing_formats(formats@, image@, size@),
{
    let mut offered: Vec<Extension> = Vec::new();
    let mut missing: Vec<Extension> = Vec::new();
    let mut i: usize = 0;
    while i < formats.len()
        invariant
            i <= formats.len(),
            offered@ == offered_formats(formats@.take(i as int), image@, size@),
            missing@ == missing_formats(formats@.take(i as int), image@, size@),
        decreases formats.len() - i,
    {
        assert(formats@.take(i + 1).drop_last() =~= formats@.take(i as int));
        if image.has(size, formats[i]) {
            offered.push(formats[i]);
        } else {
            missing.push(formats[i]);
        }
        i = i + 1;
    }
    assert(formats@.take(formats.len() as int) =~= formats@);
    (offered, missing)
}

/// What is opened for a request.
#[derive(Debug)]
pub enum Attempt {
    /// The file of a registered variant.
    Variant { extension: Extension, path: String },
    /// The source image itself.
    Source { path: String },
}

/// When a file was last modified: seconds and nanoseconds since the epoch.
#[derive(Clone, Copy, Debug, PartialEq, Eq, Structural)]
pub struct Timestamp {
    pub seconds: i64,
    pub nanoseconds: u32,
}

/// What the host needs to answer a request, beside the bytes of the file.
#[derive(Debug)]
pub struct FetchResult {
    /// The length of the file in bytes.
    pub size: u64,
    pub last_modified: Timestamp,
    pub inode: u64,
    pub mime: String,
    /// Whether a registered variant is served, and not the source image.
    pub is_optimized: bool,
}

/// The answer of the resolver for an image that it knows: the jobs to hand to
/// the optimizer, and the files to try in order.
#[derive(Debug)]
pub struct Plan {
    pub image_id: String,
    pub size: String,
    /// A job for each configured format that has no variant yet. The client
    /// is waiting, so the encoder should not take its time.
    pub jobs: Vec<OptimizeImage>,
    /// The registered variants that the client accepts, the best first.
    pub variants: Vec<Variant>,
    /// The source image, served where no variant can be.
    pub source_path: String,
}

impl Plan {
    /// What is opened at the `n`-th try: the variants in order, then the
    /// source.
    pub fn attempt(&self, n: usize) -> (r: Attempt)
        ensures
            match r {
                Attempt::Variant { extension, path } => n < self.variants@.len() && extension
                    == self.variants@[n as int].extension && path@
                    == self.variants@[n as int].path@,
                Attempt::Source { path } => n >= self.variants@.len() && path@
                    == self.source_path@,
            },
    {
        if n < self.variants.len() {
            Attempt::Variant {
                extension: self.variants[n].extension,
                path: self.variants[n].path.clone(),
            }
        } else {
            Attempt::Source { path: self.source_path.clone() }
        }
    }

    /// The job that makes the variant of the `n`-th try anew, for when its
    /// file turns out to be gone. There is none once the source is reached.
    pub fn corrective_job(&self, n: usize) -> (r: Option<OptimizeImage>)
        ensures
            match r {
                Some(job) => n < self.variants@.len() && job.key() == (
                    self.image_id@,
                    self.size@,
                    self.variants@[n as int].extension,
                    false,
                ),
                None => n >= self.variants@.len(),
            },
    {
        if n < self.variants.len() {
            Some(
                OptimizeImage {
                    image_id: self.image_id.clone(),
                    size: self.size.clone(),
                    extension: self.variants[n].extension,
                    prefer_quality: false,
                },
            )
        } else {
            None
        }
    }

    /// Whether the `n`-th try serves a variant.
    pub fn is_optimized(&self, n: usize) -> (r: bool)
        ensures
            r == (n < self.variants@.len()),
    {
        n < self.variants.len()
    }

    /// What the host is told of the file that the `n`-th try opened: a
    /// variant has the media type of its format, the source that of its file
    /// extension.
    pub fn fetch_result(&self, n: usize, size: u64, last_modified: Timestamp, inode: u64) -> (r:
        Result<FetchResult, Error>)
        ensures
            match r {
                Ok(found) => {
                    &&& found.size == size
                    &&& found.last_modified == last_modified
                    &&& found.inode == inode
                    &&& found.is_optimized == (n < self.variants@.len())
                    &&& n < self.variants@.len() ==> found.mime@
                        == self.variants@[n as int].extension.spec_media_type()
                    &&& n >= self.variants@.len() ==> path_mime_type(self.source_path@) == Some(
                        found.mime@,
                    )
                },
                Err(e) => n >= self.variants@.len() && path_mime_type(self.source_path@) is None
                    && e is Other,
            },
    {
        let mime = if n < self.variants.len() {
            String::from_str(self.variants[n].extension.to_media_type())
        } else {
            match content_type(self.source_path.as_str()) {
                Ok(mime) => mime,
                Err(e) => {
                    return Err(e);
                },
            }
        };
        Ok(FetchResult { size, last_modified, inode, mime, is_optimized: n < self.variants.len() })
    }
}

/// The engine's state: the configuration and the variant index.
#[derive(Debug)]
pub struct Cache {
    pub config: Config,
    pub data: VariantIndex,
}

impl Cache {
    /// Whether a request for `image_id` at `size` is answered: the profile is
    /// configured, it applies to the image, and the image is indexed.
    pub open spec fn serves(&self, image_id: Seq<char>, size: Seq<char>) -> bool {
        &&& self.config.spec_size(size) matches Some(profile)
        &&& profile.spec_matches(image_id)
        &&& self.data@.dom().contains(image_id)
    }

    /// The formats tried for a request, in order.
    pub open spec fn tried(
        &self,
        image_id: Seq<char>,
        size: Seq<char>,
        accept: Option<Seq<char>>,
    ) -> Seq<Extension> {
        candidates(
            accept,
            offered_formats(self.config.extensions@, self.data@[image_id]@, size),
            self.config.default_format,
        )
    }

    /// An engine with the given configuration and an empty index.
    pub fn new(config: Config) -> (r: Cache)
        ensures
            r.config == config,
            r.data@ == Map::<Seq<char>, CacheImage>::empty(),
    {
        Cache { config, data: VariantIndex::new() }
    }

    /// Resolves a request. `None` says that there is nothing to serve.
    pub fn get(&self, image_id: &str, size: &str, accept: Option<&str>) -> (r: Option<Plan>)
        ensures
            r is Some <==> self.serves(image_id@, size@),
            r matches Some(plan) ==> {
                let image = self.data@[image_id@];
                let accepted = match accept {
                    Some(header) => Some(header@),
                    None => None,
                };
                let tried = self.tried(image_id@, size@, accepted);
                let missing = missing_formats(self.config.extensions@, image@, size@);
                &&& plan.image_id@ == image_id@
                &&& plan.size@ == size@
                &&& plan.source_path@ == image.source()
                &&& plan.jobs@.len() == missing.len()
                &&& forall|i: int|
                    0 <= i < missing.len() ==> (#[trigger] plan.jobs@[i]).key() == (
                        image_id@,
                        size@,
                        missing[i],
                        false,
                    )
                &&& plan.variants@.len() == tried.len()
                &&& forall|i: int|
                    0 <= i < tried.len() ==> {
                        &&& (#[trigger] plan.variants@[i]).extension == tried[i]
                        &&& plan.variants@[i].size@ == size@
                        &&& image@.dom().contains((size@, tried[i]))
                        &&& plan.variants@[i].path@ == image@[(size@, tried[i])]
                    }
            },
    {
        let profile = match self.config.size(size) {
            Some(profile) => profile,
            None => {
                return None;
            },
        };
        if !profile.matches(image_id) {
            return None;
        }
        let image = match self.data.get_source(image_id) {
            Some(image) => image,
            None => {
                return None;
            },
        };
        let (offered, missing) = split_formats(&self.config.extensions, image, size);
        let mut jobs: Vec<OptimizeImage> = Vec::new();
        let mut i: usize = 0;
        while i < missing.len()
            invariant
                i <= missing.len(),
                jobs@.len() == i,
                forall|j: int|
                    0 <= j < i ==> (#[trigger] jobs@[j]).key() == (
                        image_id@,
                        size@,
                        missing@[j],
                        false,
                    ),
            decreases missing.len() - i,
        {
            jobs.push(
                OptimizeImage {
                    image_id: String::from_str(image_id),
                    size: String::from_str(size),
                    extension: missing[i],
                    prefer_quality: false,
                },
            );
            i = i + 1;
        }
        let tried = order(accept, &offered, self.config.default_format);
        let ghost accepted = match accept {
            Some(header) => Some(header@),
            None => None,
        };
        let mut variants: Vec<Variant> = Vec::new();
        let mut k: usize = 0;
        while k < tried.len()
            invariant
                k <= tried.len(),
                tried@ == candidates(accepted, offered@, self.config.default_format),
                offered@ == offered_formats(self.config.extensions@, image@, size@),
                variants@.len() == k,
                forall|j: int|
                    0 <= j < k ==> {
                        &&& (#[trigger] variants@[j]).extension == tried@[j]
                        &&& variants@[j].size@ == size@
                        &&& image@.dom().contains((size@, tried@[j]))
                        &&& variants@[j].path@ == image@[(size@, tried@[j])]
                    },
            decreases tried.len() - k,
        {
            proof {
                assert(tried@.contains(tried@[k as int]));
                lemma_candidates_subset(
                    accepted,
                    offered@,
                    self.config.default_format,
                    tried@[k as int],
                );
                lemma_offered(self.config.extensions@, image@, size@, tried@[k as int]);
            }
            match image.get(size, tried[k]) {
                Some(path) => {
                    variants.push(
                        Variant {
                            size: String::from_str(size),
                            extension: tried[k],
                            path: path.clone(),
                        },
                    );
                },
                None => {
                    // a format that is tried is on offer, and so has a variant
                    assert(false);
                },
            }
            k = k + 1;
        }
        Some(
            Plan {
                image_id: String::from_str(image_id),
                size: String::from_str(size),
                jobs,
                variants,
                source_path: image.base_image_path().clone(),
            },
        )
    }
}

/// The files that the variants of an image would lie in for one profile: one
/// for each format, in the order of the formats.
pub open spec fn expected_for_size(
    cache_directory: Seq<char>,
    size: Seq<char>,
    formats: Seq<Extension>,
    image_id: Seq<char>,
) -> Seq<VariantView>
    decreases formats.len(),
{
    if formats.len() == 0 {
        Seq::empty()
    } else {
        expected_for_size(cache_directory, size, formats.drop_last(), image_id).push(
            (
                size,
                formats.last(),
                variant_path_of(cache_directory, size, image_id, formats.last()),
            ),
        )
    }
}

/// The files that the variants of an image would lie in: those of each
/// profile, in the order of the profiles.
pub open spec fn expected_variants(
    cache_directory: Seq<char>,
    sizes: Seq<(String, Size)>,
    formats: Seq<Extension>,
    image_id: Seq<char>,
) -> Seq<VariantView>
    decreases sizes.len(),
{
    if sizes.len() == 0 {
        Seq::empty()
    } else {
        expected_variants(cache_directory, sizes.drop_last(), formats, image_id)
            + expected_for_size(cache_directory, sizes.last().0@, formats, image_id)
    }
}

/// The image-id of the file at `file` under the source root `root`: its path
/// relative to the root, without the extension. There is none where the file
/// does not lie under the root, has no extension, or has one that the `image`
/// crate does not know.
pub open spec fn source_id_of(root: Seq<char>, file: Seq<char>) -> Option<Seq<char>> {
    match path_relative_to(file, root) {
        Some(relative) => match path_extension(relative) {
            Some(extension) => if known_file_extensions().contains(extension) {
                Some(stem_of(relative, Some(extension)))
            } else {
                None
            },
            None => None,
        },
        None => None,
    }
}

impl Cache {
    /// The image-id under which the file at `file` is indexed, if it is a
    /// source image under `root`.
    pub fn source_id(root: &str, file: &str) -> (r: Option<String>)
        ensures
            match r {
                Some(id) => source_id_of(root@, file@) == Some(id@),
                None => source_id_of(root@, file@) is None,
            },
    {
        let relative = match relative_to(file, root) {
            Some(relative) => relative,
            None => {
                return None;
            },
        };
        let (stem, extension) = decompose_filename(relative.as_str());
        match (stem, extension) {
            (Some(stem), Some(extension)) => {
                if is_supported(extension) {
                    Some(String::from_str(stem))
                } else {
                    None
                }
            },
            _ => None,
        }
    }

    /// The files in which the variants of `image_id` would lie, for every
    /// profile and every configured format. Those that exist are what
    /// `load_image` takes.
    pub fn expected(&self, image_id: &str) -> (r: Vec<Variant>)
        ensures
            views_of(r@) == expected_variants(
                self.config.cache_directory@,
                self.config.sizes@,
                self.config.extensions@,
                image_id@,
            ),
    {
        let mut out: Vec<Variant> = Vec::new();
        let mut i: usize = 0;
        assert(views_of(out@) =~= Seq::<VariantView>::empty());
        while i < self.config.sizes.len()
            invariant
                i <= self.config.sizes.len(),
                views_of(out@) == expected_variants(
                    self.config.cache_directory@,
                    self.config.sizes@.take(i as int),
                    self.config.extensions@,
                    image_id@,
                ),
            decreases self.config.sizes.len() - i,
        {
            assert(self.config.sizes@.take(i + 1).drop_last() =~= self.config.sizes@.take(
                i as int,
            ));
            let ghost before = views_of(out@);
            let ghost size = self.config.sizes@[i as int].0@;
            let mut j: usize = 0;
            assert(before + Seq::<VariantView>::empty() =~= before);
            while j < self.config.extensions.len()
                invariant
                    i < self.config.sizes.len(),
                    j <= self.config.extensions.len(),
                    size == self.config.sizes@[i as int].0@,
                    views_of(out@) == before + expected_for_size(
                        self.config.cache_directory@,
                        size,
                        self.config.extensions@.take(j as int),
                        image_id@,
                    ),
                decreases self.config.extensions.len() - j,
            {
                assert(self.config.extensions@.take(j + 1).drop_last()
                    =~= self.config.extensions@.take(j as int));
                let format = self.config.extensions[j];
                let variant = Variant {
                    size: self.config.sizes[i].0.clone(),
                    extension: format,
                    path: variant_path(
                        self.config.cache_directory.as_str(),
                        self.config.sizes[i].0.as_str(),
                        image_id,
                        format,
                    ),
                };
                proof {
                    let shown = (variant.size@, variant.extension, variant.path@);
                    assert(views_of(out@.push(variant)) =~= views_of(out@).push(shown));
                    let so_far = expected_for_size(
                        self.config.cache_directory@,
                        size,
                        self.config.extensions@.take(j as int),
                        image_id@,
                    );
                    assert((before + so_far).push(shown) =~= before + so_far.push(shown));
                }
                out.push(variant);
                j = j + 1;
            }
            assert(self.config.extensions@.take(self.config.extensions@.len() as int)
                =~= self.config.extensions@);
            i = i + 1;
        }
        assert(self.config.sizes@.take(self.config.sizes@.len() as int) =~= self.config.sizes@);
        out
    }

    /// Indexes the source image at `source_path` under `image_id`, with the
    /// variants in `present` registered, in place of an earlier entry for
    /// that id if there is one.
    pub fn load_image(&mut self, image_id: String, source_path: String, present: Vec<Variant>)
        ensures
            final(self).config == old(self).config,
            final(self).data@ == old(self).data@.insert(image_id@, final(self).data@[image_id@]),
            final(self).data@[image_id@].source() == source_path@,
            final(self).data@[image_id@]@ == registered(present@),
    {
        let mut item = CacheImage::new(source_path);
        let mut i: usize = 0;
        while i < present.len()
            invariant
                i <= present.len(),
                item.source() == source_path@,
                item@ == registered(present@.take(i as int)),
            decreases present.len() - i,
        {
            assert(present@.take(i + 1).drop_last() =~= present@.take(i as int));
            item.add(present[i].size.clone(), present[i].extension, present[i].path.clone());
            i = i + 1;
        }
        assert(present@.take(present@.len() as int) =~= present@);
        self.data.insert(image_id, item);
    }

    /// Where the client states a preference and accepts none of the formats
    /// that have a variant, no variant is tried: the source is served as it
    /// is.
    pub proof fn lemma_unsupported_accept_serves_source(
        &self,
        image_id: Seq<char>,
        size: Seq<char>,
        header: Seq<char>,
    )
        requires
            !no_preference(Some(header)),
            negotiated(
                header,
                media_types_of(
                    offered_formats(self.config.extensions@, self.data@[image_id]@, size),
                ),
            ) is None,
        ensures
            self.tried(image_id, size, Some(header)) == Seq::<Extension>::empty(),
    {
    }

    /// Where the client states no preference and the default format has a
    /// variant, the variant in the default format is tried first.
    pub proof fn lemma_no_preference_serves_default(
        &self,
        image_id: Seq<char>,
        size: Seq<char>,
        accept: Option<Seq<char>>,
    )
        requires
            no_preference(accept),
            self.config.extensions@.contains(self.config.default_format),
            self.data@[image_id]@.dom().contains((size, self.config.default_format)),
        ensures
            self.tried(image_id, size, accept).len() > 0,
            self.tried(image_id, size, accept)[0] == self.config.default_format,
    {
        lemma_offered(
            self.config.extensions@,
            self.data@[image_id]@,
            size,
            self.config.default_format,
        );
    }
}

} // verus!
