//! The optimizer's work: which variant to make, where its file goes, and when
//! it is registered.

use vstd::prelude::*;
use vstd::string::*;

use crate::cache::{CacheImage, VariantIndex};
use crate::config::{Config, Extension, Size};
use crate::error::Error;

verus! {

/// A request to make the variant of one image for one profile and format.
#[derive(Debug)]
pub struct OptimizeImage {
    pub image_id: String,
    pub size: String,
    pub extension: Extension,
    /// Whether the encoder may take its time: so for the variants that are
    /// made ahead, not for those that a waiting request asked for.
    pub prefer_quality: bool,
}

/// What a job says: the image-id, the name of the profile, the format, and
/// whether the encoder may take its time.
pub type JobKey = (Seq<char>, Seq<char>, Extension, bool);

impl OptimizeImage {
    /// What the job says.
    pub open spec fn key(&self) -> JobKey {
        (self.image_id@, self.size@, self.extension, self.prefer_quality)
    }
}

/// What each job of a list says.
pub open spec fn keys_of(jobs: Seq<OptimizeImage>) -> Seq<JobKey> {
    Seq::new(jobs.len(), |i: int| jobs[i].key())
}

/// Where the variant of `image_id` for `size` and `format` lies:
/// `<cache_directory>/<size>/<image_id>.<extension of the format>`.
pub open spec fn variant_path_of(
    cache_directory: Seq<char>,
    size: Seq<char>,
    image_id: Seq<char>,
    format: Extension,
) -> Seq<char> {
    cache_directory + seq!['/'] + size + seq!['/'] + image_id + seq!['.'] + format.spec_extension()
}

/// Where the variant of `image_id` for `size` and `format` lies.
pub fn variant_path(cache_directory: &str, size: &str, image_id: &str, format: Extension) -> (r:
    String)
    ensures
        r@ == variant_path_of(cache_directory@, size@, image_id@, format),
{
    proof {
        reveal_strlit("/");
        reveal_strlit(".");
        assert("/"@ =~= seq!['/']);
        assert("."@ =~= seq!['.']);
    }
    let mut path = String::from_str(cache_directory);
    path.append("/");
    path.append(size);
    path.append("/");
    path.append(image_id);
    path.append(".");
    path.append(format.extension());
    path
}

/// Where the bytes of a variant are written before the finished file is
/// renamed to `target_path`: beside it, so that the rename stays within one
/// directory.
pub open spec fn staging_path_of(target_path: Seq<char>) -> Seq<char> {
    target_path + ".part"@
}

/// What a worker needs to make a variant: the source to read, the box to fit
/// it into, the format to encode, and the file to write.
#[derive(Debug)]
pub struct EncodeTask {
    pub source_path: String,
    pub width: u32,
    pub height: u32,
    pub extension: Extension,
    pub prefer_quality: bool,
    /// The file that the bytes are written to first.
    pub staging_path: String,
    /// The file of the variant, which the staging file is renamed to.
    pub target_path: String,
}

/// An encoded variant on its way to disk: what the job asked for, the bytes,
/// and where they go.
#[derive(Debug)]
pub struct PersistJob {
    pub image: OptimizeImage,
    pub data: Vec<u8>,
    /// The file that the bytes are written to first.
    pub staging_path: String,
    /// The file of the variant, which the staging file is renamed to.
    pub target_path: String,
}

/// How writing the file of a variant ended.
#[derive(Clone, Copy, Debug, PartialEq, Eq, Structural)]
pub enum WriteOutcome {
    /// The file was written.
    Written,
    /// A file was there already and was left as it was.
    AlreadyPresent,
    /// The file could not be written.
    Failed,
}

/// Whether a variant is written, given whether its file exists: a file that is
/// there is never written again.
pub fn must_write(destination_exists: bool) -> (r: bool)
    ensures
        r == !destination_exists,
{
    !destination_exists
}

/// The task for a job, from the configuration and the index as they are now.
///
/// A job is dropped with an error where its profile is not configured, where
/// the profile does not apply to the image, and where the image is not
/// indexed.
pub fn save_image(config: &Config, cache: &VariantIndex, image: &OptimizeImage) -> (r: Result<
    EncodeTask,
    Error,
>)
    ensures
        match r {
            Ok(task) => {
                &&& config.spec_size(image.size@) matches Some(profile)
                &&& profile.spec_matches(image.image_id@)
                &&& cache@.dom().contains(image.image_id@)
                &&& task.source_path@ == cache@[image.image_id@].source()
                &&& task.width == profile.width
                &&& task.height == profile.height
                &&& task.extension == image.extension
                &&& task.prefer_quality == image.prefer_quality
                &&& task.target_path@ == variant_path_of(
                    config.cache_directory@,
                    image.size@,
                    image.image_id@,
                    image.extension,
                )
                &&& task.staging_path@ == staging_path_of(task.target_path@)
            },
            Err(e) => e is Custom && match config.spec_size(image.size@) {
                None => e.message() == "Unknown image size "@ + image.size@,
                Some(profile) => if !profile.spec_matches(image.image_id@) {
                    e.message() == "Image does not match size "@ + image.size@
                } else {
                    !cache@.dom().contains(image.image_id@) && e.message() == "Image not found"@
                },
            },
        },
{
    let target_path = variant_path(
        config.cache_directory.as_str(),
        image.size.as_str(),
        image.image_id.as_str(),
        image.extension,
    );
    let profile: &Size = match config.size(image.size.as_str()) {
        Some(profile) => profile,
        None => {
            let mut message = String::from_str("Unknown image size ");
            message.append(image.size.as_str());
            return Err(Error::Custom(message));
        },
    };
    if !profile.matches(image.image_id.as_str()) {
        let mut message = String::from_str("Image does not match size ");
        message.append(image.size.as_str());
        return Err(Error::Custom(message));
    }
    let source_path = match cache.get_source(image.image_id.as_str()) {
        Some(entry) => entry.base_image_path().clone(),
        None => {
            return Error::err("Image not found");
        },
    };
    let mut staging_path = target_path.clone();
    staging_path.append(".part");
    Ok(
        EncodeTask {
            source_path,
            width: profile.width,
            height: profile.height,
            extension: image.extension,
            prefer_quality: image.prefer_quality,
            staging_path,
            target_path,
        },
    )
}

/// The encoded variant of a job on its way to disk.
pub fn persist_job(image: OptimizeImage, task: EncodeTask, data: Vec<u8>) -> (job: PersistJob)
    ensures
        job.image == image,
        job.data == data,
        job.staging_path == task.staging_path,
        job.target_path == task.target_path,
{
    PersistJob { image, data, staging_path: task.staging_path, target_path: task.target_path }
}

/// Registers the variant of a job once its file is on disk.
///
/// Nothing is registered where the file could not be written, nor where the
/// image has left the index in the meantime; both are errors.
pub fn register(
    cache: &mut VariantIndex,
    image: OptimizeImage,
    target_path: String,
    outcome: WriteOutcome,
) -> (r: Result<(), Error>)
    ensures
        final(cache)@.dom() == old(cache)@.dom(),
        match r {
            Ok(()) => {
                &&& outcome != WriteOutcome::Failed
                &&& old(cache)@.dom().contains(image.image_id@)
                &&& final(cache)@ == old(cache)@.insert(
                    image.image_id@,
                    final(cache)@[image.image_id@],
                )
                &&& final(cache)@[image.image_id@].source() == old(cache)@[image.image_id@].source()
                &&& final(cache)@[image.image_id@]@ == old(cache)@[image.image_id@]@.insert(
                    (image.size@, image.extension),
                    target_path@,
                )
            },
            Err(e) => {
                &&& final(cache)@ == old(cache)@
                &&& e is Custom
                &&& if outcome == WriteOutcome::Failed {
                    e.message() == "Failed to write the image"@
                } else {
                    !old(cache)@.dom().contains(image.image_id@) && e.message()
                        == "Failed to get a lock"@
                }
            },
        },
{
    if outcome == WriteOutcome::Failed {
        return Error::err("Failed to write the image");
    }
    if !cache.contains(image.image_id.as_str()) {
        return Error::err("Failed to get a lock");
    }
    cache.insert_variant(image.image_id.as_str(), image.size, image.extension, target_path);
    Ok(())
}

/// Every file that the index names is among `files`.
pub open spec fn all_present(index: Map<Seq<char>, CacheImage>, files: Set<Seq<char>>) -> bool {
    forall|id: Seq<char>, key: (Seq<char>, Extension)|
        index.dom().contains(id) && (#[trigger] index[id]@.dom().contains(key)) ==> files.contains(
            index[id]@[key],
        )
}

/// Registration keeps the index within the files that exist: where every
/// registered file exists, and a variant is registered whose file exists,
/// every registered file exists afterwards.
pub proof fn lemma_registration_keeps_files_present(
    before: Map<Seq<char>, CacheImage>,
    after: Map<Seq<char>, CacheImage>,
    files: Set<Seq<char>>,
    image_id: Seq<char>,
    key: (Seq<char>, Extension),
    path: Seq<char>,
)
    requires
        all_present(before, files),
        files.contains(path),
        before.dom().contains(image_id),
        after == before.insert(image_id, after[image_id]),
        after[image_id]@ == before[image_id]@.insert(key, path),
    ensures
        all_present(after, files),
{
    assert forall|id: Seq<char>, k: (Seq<char>, Extension)|
        after.dom().contains(id) && (#[trigger] after[id]@.dom().contains(k)) implies files.contains(
        after[id]@[k],
    ) by {
        if id == image_id {
            if k != key {
                assert(before[id]@.dom().contains(k));
            }
        } else {
            assert(before[id]@.dom().contains(k));
        }
    }
}

/// Registering the same variant twice leaves the index as registering it
/// once does.
pub proof fn lemma_registration_is_idempotent(
    variants: Map<(Seq<char>, Extension), Seq<char>>,
    key: (Seq<char>, Extension),
    path: Seq<char>,
)
    ensures
        variants.insert(key, path).insert(key, path) == variants.insert(key, path),
{
    assert(variants.insert(key, path).insert(key, path) =~= variants.insert(key, path));
}

} // verus!
