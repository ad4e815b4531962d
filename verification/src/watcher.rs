//! The source watcher: what a change under a source root does to the index,
//! which files it orphans and which variants it asks for.

use vstd::prelude::*;
use vstd::string::*;

use crate::cache::{CacheImage, Variant, VariantIndex};
use crate::config::{Config, Extension};
use crate::error::Error;
use crate::file_saver::{keys_of, OptimizeImage};
use crate::pre_optimizer::{sweep_image, sweep_jobs};
use crate::utils::{path_relative_to, path_without_extension, relative_to, remove_extension};

verus! {

/// What the file system reports of a path.
#[derive(Clone, Copy, Debug, PartialEq, Eq, Structural)]
pub enum EventKind {
    /// A file that was open for writing was closed.
    ClosedAfterWrite,
    /// A file was removed.
    FileRemoved,
    /// A file was renamed away from this path.
    RenamedFrom,
    /// A file was renamed to this path.
    RenamedTo,
    /// Anything else.
    Other,
}

/// A report of the file system.
#[derive(Debug)]
pub struct Event {
    pub kind: EventKind,
    pub paths: Vec<String>,
}

/// What a report means for the source it names.
#[derive(Clone, Copy, Debug, PartialEq, Eq, Structural)]
pub enum Change {
    /// The source is new or has new content.
    Modification,
    /// The source is gone.
    Deletion,
    /// Nothing that concerns the index.
    Ignored,
}

/// What the watcher asks of its host after a report: files to delete, and
/// jobs for the optimizer.
#[derive(Debug)]
pub struct Reaction {
    pub to_delete: Vec<String>,
    pub to_optimize: Vec<OptimizeImage>,
}

/// What a kind of report means.
pub open spec fn change_of(kind: EventKind) -> Change {
    match kind {
        EventKind::ClosedAfterWrite => Change::Modification,
        EventKind::RenamedTo => Change::Modification,
        EventKind::FileRemoved => Change::Deletion,
        EventKind::RenamedFrom => Change::Deletion,
        EventKind::Other => Change::Ignored,
    }
}

/// `path` made relative to each of `roots` in turn, where it lies under one.
pub open spec fn without_roots(path: Seq<char>, roots: Seq<String>) -> Seq<char>
    decreases roots.len(),
{
    if roots.len() == 0 {
        path
    } else {
        let so_far = without_roots(path, roots.drop_last());
        match path_relative_to(so_far, roots.last()@) {
            Some(rest) => rest,
            None => so_far,
        }
    }
}

/// The image-id of the source at `path`: the path without its extension,
/// relative to the source root that it lies under.
pub open spec fn image_id_of(path: Seq<char>, roots: Seq<String>) -> Seq<char> {
    without_roots(path_without_extension(path), roots)
}

/// What a kind of report means.
pub fn classify(kind: EventKind) -> (r: Change)
    ensures
        r == change_of(kind),
{
    match kind {
        EventKind::ClosedAfterWrite => Change::Modification,
        EventKind::RenamedTo => Change::Modification,
        EventKind::FileRemoved => Change::Deletion,
        EventKind::RenamedFrom => Change::Deletion,
        EventKind::Other => Change::Ignored,
    }
}

/// The path that a report is about: its first.
pub fn get_image_path(event: &Event) -> (r: Result<String, Error>)
    ensures
        match r {
            Ok(path) => event.paths@.len() > 0 && path@ == event.paths@[0]@,
            Err(e) => event.paths@.len() == 0 && e is Custom && e.message() == "No path in event"@,
        },
{
    if event.paths.len() > 0 {
        Ok(event.paths[0].clone())
    } else {
        Error::err("No path in event")
    }
}

/// The image-id of the source at `path`.
pub fn get_image_id(path: &str, config: &Config) -> (r: String)
    ensures
        r@ == image_id_of(path@, config.roots@),
{
    let mut image_id = remove_extension(path);
    let mut i: usize = 0;
    while i < config.roots.len()
        invariant
            i <= config.roots.len(),
            image_id@ == without_roots(path_without_extension(path@), config.roots@.take(i as int)),
        decreases config.roots.len() - i,
    {
        assert(config.roots@.take(i + 1).drop_last() =~= config.roots@.take(i as int));
        match relative_to(image_id.as_str(), config.roots[i].as_str()) {
            Some(rest) => {
                image_id = rest;
            },
            None => {},
        }
        i = i + 1;
    }
    assert(config.roots@.take(config.roots@.len() as int) =~= config.roots@);
    image_id
}

/// What `handle_modification` leaves behind for a report: the index before
/// and after, and what is handed back.
pub open spec fn modification_outcome(
    event: Event,
    config: Config,
    before: VariantIndex,
    after: VariantIndex,
    r: Result<Reaction, Error>,
) -> bool {
    match r {
        Ok(reaction) => {
            let path = event.paths@[0]@;
            let id = image_id_of(path, config.roots@);
            let entry = after@[id];
            &&& event.paths@.len() > 0
            &&& after@ == before@.insert(id, entry)
            &&& entry@ == Map::<(Seq<char>, Extension), Seq<char>>::empty()
            &&& entry.source() == if before@.dom().contains(id) {
                before@[id].source()
            } else {
                path
            }
            &&& if before@.dom().contains(id) {
                &&& reaction.to_delete@.len() == before@[id].variants().len()
                &&& forall|i: int|
                    0 <= i < reaction.to_delete@.len() ==> (#[trigger] reaction.to_delete@[i])@
                        == before@[id].variants()[i].path@
            } else {
                reaction.to_delete@.len() == 0
            }
            &&& keys_of(reaction.to_optimize@) == sweep_jobs(
                config.sizes@,
                config.extensions@,
                seq![(id, Map::<(Seq<char>, Extension), Seq<char>>::empty())],
            )
        },
        Err(e) => {
            &&& event.paths@.len() == 0
            &&& after@ == before@
            &&& e is Custom
            &&& e.message() == "No path in event"@
        },
    }
}

/// What `handle_deletion` leaves behind for a report: the index before and
/// after, and what is handed back.
pub open spec fn deletion_outcome(
    event: Event,
    config: Config,
    before: VariantIndex,
    after: VariantIndex,
    r: Result<Reaction, Error>,
) -> bool {
    match r {
        Ok(reaction) => {
            let id = image_id_of(event.paths@[0]@, config.roots@);
            &&& event.paths@.len() > 0
            &&& after@ == before@.remove(id)
            &&& reaction.to_optimize@.len() == 0
            &&& if before@.dom().contains(id) {
                &&& reaction.to_delete@.len() == before@[id].variants().len()
                &&& forall|i: int|
                    0 <= i < reaction.to_delete@.len() ==> (#[trigger] reaction.to_delete@[i])@
                        == before@[id].variants()[i].path@
            } else {
                reaction.to_delete@.len() == 0
            }
        },
        Err(e) => {
            &&& event.paths@.len() == 0
            &&& after@ == before@
            &&& e is Custom
            &&& e.message() == "No path in event"@
        },
    }
}

/// The image-ids of the sources under the roots after a change to the source
/// `id`, given those before it.
pub open spec fn sources_after(sources: Set<Seq<char>>, change: Change, id: Seq<char>) -> Set<
    Seq<char>,
> {
    match change {
        Change::Modification => sources.insert(id),
        Change::Deletion => sources.remove(id),
        Change::Ignored => sources,
    }
}

/// The index follows the source tree: where it held exactly the sources that
/// existed before a change, an entry for each and none for anything else,
/// then after the report of the change was handled it holds exactly the
/// sources that exist after it.
pub proof fn lemma_index_follows_sources(
    event: Event,
    config: Config,
    before: VariantIndex,
    after: VariantIndex,
    r: Result<Reaction, Error>,
    sources: Set<Seq<char>>,
)
    requires
        before@.dom() == sources,
        r is Ok,
        match change_of(event.kind) {
            Change::Modification => modification_outcome(event, config, before, after, r),
            Change::Deletion => deletion_outcome(event, config, before, after, r),
            Change::Ignored => after@ == before@,
        },
    ensures
        after@.dom() == sources_after(
            sources,
            change_of(event.kind),
            image_id_of(event.paths@[0]@, config.roots@),
        ),
{
    let id = image_id_of(event.paths@[0]@, config.roots@);
    match change_of(event.kind) {
        Change::Modification => {
            assert(after@.dom() =~= sources.insert(id));
        },
        Change::Deletion => {
            assert(after@.dom() =~= sources.remove(id));
        },
        Change::Ignored => {},
    }
}

/// Takes in that the source named by `event` is new or has new content.
///
/// The image is indexed if it was not; its registered variants leave the
/// index and their files are handed out for deletion; a job is asked for
/// each profile that is made ahead and applies to the image, in each
/// configured format. A report without path is an error and changes nothing.
pub fn handle_modification(event: &Event, config: &Config, data: &mut VariantIndex) -> (r: Result<
    Reaction,
    Error,
>)
    ensures
        modification_outcome(*event, *config, *old(data), *final(data), r),
{
    let image_path = match get_image_path(event) {
        Ok(path) => path,
        Err(e) => {
            return Err(e);
        },
    };
    let image_id = get_image_id(image_path.as_str(), config);
    let known = data.contains(image_id.as_str());
    if !known {
        data.insert(image_id.clone(), CacheImage::new(image_path));
    }
    let to_delete = data.take_variants(image_id.as_str());
    let to_optimize = match data.get_source(image_id.as_str()) {
        Some(image) => sweep_image(config, image_id.as_str(), image),
        None => Vec::new(),
    };
    proof {
        assert(final(data)@ =~= old(data)@.insert(image_id@, final(data)@[image_id@]));
    }
    Ok(Reaction { to_delete, to_optimize })
}

/// Takes in that the source named by `event` is gone: its entry leaves the
/// index, and the files of its variants are handed out for deletion. A report
/// without path is an error and changes nothing.
pub fn handle_deletion(event: &Event, config: &Config, data: &mut VariantIndex) -> (r: Result<
    Reaction,
    Error,
>)
    ensures
        deletion_outcome(*event, *config, *old(data), *final(data), r),
{
    let image_path = match get_image_path(event) {
        Ok(path) => path,
        Err(e) => {
            return Err(e);
        },
    };
    let image_id = get_image_id(image_path.as_str(), config);
    let to_delete = match data.remove(image_id.as_str()) {
        Some(mut image) => image.take_variants(),
        None => Vec::new(),
    };
    Ok(Reaction { to_delete, to_optimize: Vec::new() })
}

/// Reacts to a report of the file system: as `handle_modification` where a
/// file was written or renamed in, as `handle_deletion` where one was removed
/// or renamed away, and not at all otherwise.
pub fn event_handler(event: &Event, config: &Config, data: &mut VariantIndex) -> (r: Result<
    Reaction,
    Error,
>)
    ensures
        match change_of(event.kind) {
            Change::Modification => modification_outcome(
                *event,
                *config,
                *old(data),
                *final(data),
                r,
            ),
            Change::Deletion => deletion_outcome(*event, *config, *old(data), *final(data), r),
            Change::Ignored => {
                &&& r is Ok
                &&& r->Ok_0.to_delete@.len() == 0
                &&& r->Ok_0.to_optimize@.len() == 0
                &&& final(data)@ == old(data)@
            },
        },
{
    match classify(event.kind) {
        Change::Modification => handle_modification(event, config, data),
        Change::Deletion => handle_deletion(event, config, data),
        Change::Ignored => Ok(Reaction { to_delete: Vec::new(), to_optimize: Vec::new() }),
    }
}

} // verus!
