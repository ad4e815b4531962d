//! The sweep: which variants are made ahead of the first request.

use vstd::prelude::*;
use vstd::string::*;

use crate::cache::{CacheImage, VariantIndex};
use crate::config::{Config, Extension, Size};
use crate::file_saver::{keys_of, JobKey, OptimizeImage};

verus! {

/// What the sweep reads of an indexed image: its id and its registered
/// variants.
pub type ImageView = (Seq<char>, Map<(Seq<char>, Extension), Seq<char>>);

/// What the sweep reads of the index: the ids and the registered variants of
/// the images, in the order of the index.
pub open spec fn entry_views(entries: Seq<(String, CacheImage)>) -> Seq<ImageView> {
    Seq::new(entries.len(), |i: int| (entries[i].0@, entries[i].1@))
}

/// Whether the variant of the image `entry` for the profile `size` and
/// `format` is wanted: the profile applies to the image, and the variant is
/// not registered.
pub open spec fn wanted(size: (String, Size), format: Extension, entry: ImageView) -> bool {
    size.1.spec_matches(entry.0) && !entry.1.dom().contains((size.0@, format))
}

/// The job that makes the variant of the image `entry` for the profile
/// `size` and `format` ahead of a request: the encoder may take its time.
pub open spec fn job_for(size: (String, Size), format: Extension, entry: ImageView) -> JobKey {
    (entry.0, size.0@, format, true)
}

/// The jobs for one profile and one format: one for each image that wants the
/// variant, in the order of the index.
pub open spec fn jobs_for_format(
    size: (String, Size),
    format: Extension,
    entries: Seq<ImageView>,
) -> Seq<JobKey>
    decreases entries.len(),
{
    if entries.len() == 0 {
        Seq::empty()
    } else if wanted(size, format, entries.last()) {
        jobs_for_format(size, format, entries.drop_last()).push(
            job_for(size, format, entries.last()),
        )
    } else {
        jobs_for_format(size, format, entries.drop_last())
    }
}

/// The jobs for one profile: those of each format, in the order of the
/// formats.
pub open spec fn jobs_for_size(
    size: (String, Size),
    formats: Seq<Extension>,
    entries: Seq<ImageView>,
) -> Seq<JobKey>
    decreases formats.len(),
{
    if formats.len() == 0 {
        Seq::empty()
    } else {
        jobs_for_size(size, formats.drop_last(), entries) + jobs_for_format(
            size,
            formats.last(),
            entries,
        )
    }
}

/// The jobs of the sweep: those of each profile that is made ahead, in the
/// order of the profiles.
pub open spec fn sweep_jobs(
    sizes: Seq<(String, Size)>,
    formats: Seq<Extension>,
    entries: Seq<ImageView>,
) -> Seq<JobKey>
    decreases sizes.len(),
{
    if sizes.len() == 0 {
        Seq::empty()
    } else if sizes.last().1.spec_pre_optimized() {
        sweep_jobs(sizes.drop_last(), formats, entries) + jobs_for_size(
            sizes.last(),
            formats,
            entries,
        )
    } else {
        sweep_jobs(sizes.drop_last(), formats, entries)
    }
}

/// The jobs for one profile and one format are exactly those of the images
/// that want the variant.
pub proof fn lemma_jobs_for_format(
    size: (String, Size),
    format: Extension,
    entries: Seq<ImageView>,
    job: JobKey,
)
    ensures
        jobs_for_format(size, format, entries).contains(job) <==> exists|k: int|
            0 <= k < entries.len() && wanted(size, format, #[trigger] entries[k]) && job == job_for(
                size,
                format,
                entries[k],
            ),
    decreases entries.len(),
{
    if entries.len() > 0 {
        let rest = entries.drop_last();
        let before = jobs_for_format(size, format, rest);
        let all = jobs_for_format(size, format, entries);
        lemma_jobs_for_format(size, format, rest, job);
        if all.contains(job) {
            let i = choose|i: int| 0 <= i < all.len() && all[i] == job;
            if i < before.len() {
                assert(before[i] == job);
                let k = choose|k: int|
                    0 <= k < rest.len() && wanted(size, format, #[trigger] rest[k]) && job
                        == job_for(size, format, rest[k]);
                assert(entries[k] == rest[k]);
            } else {
                assert(wanted(size, format, entries[entries.len() - 1]));
            }
        }
        if exists|k: int|
            0 <= k < entries.len() && wanted(size, format, #[trigger] entries[k]) && job == job_for(
                size,
                format,
                entries[k],
            ) {
            let k = choose|k: int|
                0 <= k < entries.len() && wanted(size, format, #[trigger] entries[k]) && job
                    == job_for(size, format, entries[k]);
            if k < rest.len() {
                assert(rest[k] == entries[k]);
                let i = choose|i: int| 0 <= i < before.len() && before[i] == job;
                assert(all[i] == job);
            } else {
                assert(all[all.len() - 1] == job);
            }
        }
    }
}

/// The jobs for one profile are exactly those of the configured formats and
/// the images that want the variant.
pub proof fn lemma_jobs_for_size(
    size: (String, Size),
    formats: Seq<Extension>,
    entries: Seq<ImageView>,
    job: JobKey,
)
    ensures
        jobs_for_size(size, formats, entries).contains(job) <==> exists|j: int, k: int|
            0 <= j < formats.len() && 0 <= k < entries.len() && wanted(
                size,
                #[trigger] formats[j],
                #[trigger] entries[k],
            ) && job == job_for(size, formats[j], entries[k]),
    decreases formats.len(),
{
    if formats.len() > 0 {
        let rest = formats.drop_last();
        let before = jobs_for_size(size, rest, entries);
        let last = jobs_for_format(size, formats.last(), entries);
        let all = jobs_for_size(size, formats, entries);
        lemma_jobs_for_size(size, rest, entries, job);
        lemma_jobs_for_format(size, formats.last(), entries, job);
        if all.contains(job) {
            let i = choose|i: int| 0 <= i < all.len() && all[i] == job;
            if i < before.len() {
                assert(before[i] == job);
                let (j, k) = choose|j: int, k: int|
                    0 <= j < rest.len() && 0 <= k < entries.len() && wanted(
                        size,
                        #[trigger] rest[j],
                        #[trigger] entries[k],
                    ) && job == job_for(size, rest[j], entries[k]);
                assert(formats[j] == rest[j]);
            } else {
                assert(last[i - before.len()] == job);
                let k = choose|k: int|
                    0 <= k < entries.len() && wanted(size, formats.last(), #[trigger] entries[k])
                        && job == job_for(size, formats.last(), entries[k]);
                assert(formats[formats.len() - 1] == formats.last());
            }
        }
        if exists|j: int, k: int|
            0 <= j < formats.len() && 0 <= k < entries.len() && wanted(
                size,
                #[trigger] formats[j],
                #[trigger] entries[k],
            ) && job == job_for(size, formats[j], entries[k]) {
            let (j, k) = choose|j: int, k: int|
                0 <= j < formats.len() && 0 <= k < entries.len() && wanted(
                    size,
                    #[trigger] formats[j],
                    #[trigger] entries[k],
                ) && job == job_for(size, formats[j], entries[k]);
            if j < rest.len() {
                assert(rest[j] == formats[j]);
                let i = choose|i: int| 0 <= i < before.len() && before[i] == job;
                assert(all[i] == job);
            } else {
                let i = choose|i: int| 0 <= i < last.len() && last[i] == job;
                assert(all[before.len() + i] == job);
            }
        }
    }
}

/// The sweep holds a job exactly for each profile that is made ahead, each
/// configured format and each indexed image such that the profile applies to
/// the image and the variant is not registered.
pub proof fn lemma_sweep_jobs(
    sizes: Seq<(String, Size)>,
    formats: Seq<Extension>,
    entries: Seq<ImageView>,
    job: JobKey,
)
    ensures
        sweep_jobs(sizes, formats, entries).contains(job) <==> exists|i: int, j: int, k: int|
            0 <= i < sizes.len() && 0 <= j < formats.len() && 0 <= k < entries.len() && (
            #[trigger] sizes[i]).1.spec_pre_optimized() && wanted(
                sizes[i],
                #[trigger] formats[j],
                #[trigger] entries[k],
            ) && job == job_for(sizes[i], formats[j], entries[k]),
    decreases sizes.len(),
{
    if sizes.len() > 0 {
        let rest = sizes.drop_last();
        let before = sweep_jobs(rest, formats, entries);
        let last = jobs_for_size(sizes.last(), formats, entries);
        let all = sweep_jobs(sizes, formats, entries);
        lemma_sweep_jobs(rest, formats, entries, job);
        lemma_jobs_for_size(sizes.last(), formats, entries, job);
        if all.contains(job) {
            let n = choose|n: int| 0 <= n < all.len() && all[n] == job;
            if n < before.len() {
                assert(before[n] == job);
                let (i, j, k) = choose|i: int, j: int, k: int|
                    0 <= i < rest.len() && 0 <= j < formats.len() && 0 <= k < entries.len() && (
                    #[trigger] rest[i]).1.spec_pre_optimized() && wanted(
                        rest[i],
                        #[trigger] formats[j],
                        #[trigger] entries[k],
                    ) && job == job_for(rest[i], formats[j], entries[k]);
                assert(sizes[i] == rest[i]);
            } else {
                assert(sizes.last().1.spec_pre_optimized());
                assert(last[n - before.len()] == job);
                let (j, k) = choose|j: int, k: int|
                    0 <= j < formats.len() && 0 <= k < entries.len() && wanted(
                        sizes.last(),
                        #[trigger] formats[j],
                        #[trigger] entries[k],
                    ) && job == job_for(sizes.last(), formats[j], entries[k]);
                assert(sizes[sizes.len() - 1] == sizes.last());
            }
        }
        if exists|i: int, j: int, k: int|
            0 <= i < sizes.len() && 0 <= j < formats.len() && 0 <= k < entries.len() && (
            #[trigger] sizes[i]).1.spec_pre_optimized() && wanted(
                sizes[i],
                #[trigger] formats[j],
                #[trigger] entries[k],
            ) && job == job_for(sizes[i], formats[j], entries[k]) {
            let (i, j, k) = choose|i: int, j: int, k: int|
                0 <= i < sizes.len() && 0 <= j < formats.len() && 0 <= k < entries.len() && (
                #[trigger] sizes[i]).1.spec_pre_optimized() && wanted(
                    sizes[i],
                    #[trigger] formats[j],
                    #[trigger] entries[k],
                ) && job == job_for(sizes[i], formats[j], entries[k]);
            if i < rest.len() {
                assert(rest[i] == sizes[i]);
                let n = choose|n: int| 0 <= n < before.len() && before[n] == job;
                assert(all[n] == job);
            } else {
                let n = choose|n: int| 0 <= n < last.len() && last[n] == job;
                assert(all[before.len() + n] == job);
            }
        }
    }
}

/// Once every profile that is made ahead has, in every configured format, a
/// variant of every indexed image that it applies to, the sweep asks for
/// nothing.
pub proof fn lemma_sweep_of_a_populated_index(
    sizes: Seq<(String, Size)>,
    formats: Seq<Extension>,
    entries: Seq<ImageView>,
)
    requires
        forall|i: int, j: int, k: int|
            0 <= i < sizes.len() && 0 <= j < formats.len() && 0 <= k < entries.len() && (
            #[trigger] sizes[i]).1.spec_pre_optimized() && sizes[i].1.spec_matches(
                (#[trigger] entries[k]).0,
            ) ==> entries[k].1.dom().contains((sizes[i].0@, #[trigger] formats[j])),
    ensures
        sweep_jobs(sizes, formats, entries) == Seq::<JobKey>::empty(),
{
    let jobs = sweep_jobs(sizes, formats, entries);
    if jobs.len() > 0 {
        lemma_sweep_jobs(sizes, formats, entries, jobs[0]);
        assert(jobs.contains(jobs[0]));
    }
    assert(jobs =~= Seq::<JobKey>::empty());
}

/// The jobs of the sweep over the whole index: for each profile that is made
/// ahead and each configured format, a job for each indexed image that the
/// profile applies to and that lacks the variant.
pub fn sweep(config: &Config, data: &VariantIndex) -> (jobs: Vec<OptimizeImage>)
    ensures
        keys_of(jobs@) == sweep_jobs(
            config.sizes@,
            config.extensions@,
            entry_views(data.entries()),
        ),
{
    let ghost entries = entry_views(data.entries());
    let mut jobs: Vec<OptimizeImage> = Vec::new();
    let mut i: usize = 0;
    while i < config.sizes.len()
        invariant
            i <= config.sizes.len(),
            entries == entry_views(data.entries()),
            keys_of(jobs@) == sweep_jobs(config.sizes@.take(i as int), config.extensions@, entries),
        decreases config.sizes.len() - i,
    {
        assert(config.sizes@.take(i + 1).drop_last() =~= config.sizes@.take(i as int));
        let ghost size = config.sizes@[i as int];
        if config.sizes[i].1.pre_optimized() {
            let ghost before = keys_of(jobs@);
            let mut j: usize = 0;
            while j < config.extensions.len()
                invariant
                    i < config.sizes.len(),
                    j <= config.extensions.len(),
                            entries == entry_views(data.entries()),
                    size == config.sizes@[i as int],
                    keys_of(jobs@) == before + jobs_for_size(
                        size,
                        config.extensions@.take(j as int),
                        entries,
                    ),
                decreases config.extensions.len() - j,
            {
                assert(config.extensions@.take(j + 1).drop_last() =~= config.extensions@.take(
                    j as int,
                ));
                let format = config.extensions[j];
                let ghost mid = keys_of(jobs@);
                let mut k: usize = 0;
                while k < data.len()
                    invariant
                        i < config.sizes.len(),
                        k <= data.entries().len(),
                                    entries == entry_views(data.entries()),
                        size == config.sizes@[i as int],
                        keys_of(jobs@) == mid + jobs_for_format(
                            size,
                            format,
                            entries.take(k as int),
                        ),
                    decreases data.entries().len() - k,
                {
                    assert(entries.take(k + 1).drop_last() =~= entries.take(k as int));
                    assert(entries.take(k + 1).last() == (
                        data.entries()[k as int].0@,
                        data.entries()[k as int].1@,
                    ));
                    let id = data.id_at(k);
                    let image = data.image_at(k);
                    if config.sizes[i].1.matches(id.as_str()) && !image.has(
                        config.sizes[i].0.as_str(),
                        format,
                    ) {
                        let job = OptimizeImage {
                            image_id: id.clone(),
                            size: config.sizes[i].0.clone(),
                            extension: format,
                            prefer_quality: true,
                        };
                        assert(keys_of(jobs@.push(job)) =~= keys_of(jobs@).push(job.key()));
                        jobs.push(job);
                    }
                    k = k + 1;
                }
                assert(entries.take(entries.len() as int) =~= entries);
                j = j + 1;
            }
            assert(config.extensions@.take(config.extensions@.len() as int)
                =~= config.extensions@);
        }
        i = i + 1;
    }
    assert(config.sizes@.take(config.sizes@.len() as int) =~= config.sizes@);
    jobs
}

/// The jobs of the sweep for one image: for each profile that is made ahead
/// and applies to the image, and each configured format, a job where the
/// variant is not registered.
pub fn sweep_image(config: &Config, image_id: &str, image: &CacheImage) -> (jobs: Vec<
    OptimizeImage,
>)
    ensures
        keys_of(jobs@) == sweep_jobs(config.sizes@, config.extensions@, seq![(image_id@, image@)]),
{
    let ghost entries = seq![(image_id@, image@)];
    let mut jobs: Vec<OptimizeImage> = Vec::new();
    let mut i: usize = 0;
    while i < config.sizes.len()
        invariant
            i <= config.sizes.len(),
            entries == seq![(image_id@, image@)],
            keys_of(jobs@) == sweep_jobs(config.sizes@.take(i as int), config.extensions@, entries),
        decreases config.sizes.len() - i,
    {
        assert(config.sizes@.take(i + 1).drop_last() =~= config.sizes@.take(i as int));
        let ghost size = config.sizes@[i as int];
        if config.sizes[i].1.pre_optimized() {
            let ghost before = keys_of(jobs@);
            let applies = config.sizes[i].1.matches(image_id);
            let mut j: usize = 0;
            while j < config.extensions.len()
                invariant
                    i < config.sizes.len(),
                    j <= config.extensions.len(),
                            entries == seq![(image_id@, image@)],
                    size == config.sizes@[i as int],
                    applies == size.1.spec_matches(image_id@),
                    keys_of(jobs@) == before + jobs_for_size(
                        size,
                        config.extensions@.take(j as int),
                        entries,
                    ),
                decreases config.extensions.len() - j,
            {
                assert(config.extensions@.take(j + 1).drop_last() =~= config.extensions@.take(
                    j as int,
                ));
                let format = config.extensions[j];
                proof {
                    assert(entries.drop_last() =~= Seq::<ImageView>::empty());
                    assert(entries.last() == (image_id@, image@));
                    assert(jobs_for_format(size, format, entries.drop_last()) =~= Seq::<
                        JobKey,
                    >::empty());
                }
                if applies && !image.has(config.sizes[i].0.as_str(), format) {
                    let job = OptimizeImage {
                        image_id: String::from_str(image_id),
                        size: config.sizes[i].0.clone(),
                        extension: format,
                        prefer_quality: true,
                    };
                    assert(keys_of(jobs@.push(job)) =~= keys_of(jobs@).push(job.key()));
                    jobs.push(job);
                }
                j = j + 1;
            }
            assert(config.extensions@.take(config.extensions@.len() as int)
                =~= config.extensions@);
        }
        i = i + 1;
    }
    assert(config.sizes@.take(config.sizes@.len() as int) =~= config.sizes@);
    jobs
}

} // verus!
