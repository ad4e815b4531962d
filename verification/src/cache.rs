//! The variant index: which derived files exist for which source image.

use vstd::prelude::*;
use vstd::string::*;

use crate::config::Extension;
use crate::text::str_eq;

verus! {

/// One derived file: the profile and format it was made for, and where it
/// lies.
#[derive(Debug)]
pub struct Variant {
    pub size: String,
    pub extension: Extension,
    pub path: String,
}

impl Variant {
    /// What a variant is found by: the profile's name and the format.
    pub open spec fn key(&self) -> (Seq<char>, Extension) {
        (self.size@, self.extension)
    }
}

/// What a variant says: the profile's name, the format, and the path.
pub type VariantView = (Seq<char>, Extension, Seq<char>);

/// What each variant of a list says.
pub open spec fn views_of(variants: Seq<Variant>) -> Seq<VariantView> {
    Seq::new(variants.len(), |i: int| (variants[i].size@, variants[i].extension, variants[i].path@))
}

/// The map that registering the variants of a list in order gives: a later
/// variant for a profile and format replaces an earlier one.
pub open spec fn registered(variants: Seq<Variant>) -> Map<(Seq<char>, Extension), Seq<char>>
    decreases variants.len(),
{
    if variants.len() == 0 {
        Map::empty()
    } else {
        registered(variants.drop_last()).insert(variants.last().key(), variants.last().path@)
    }
}

/// No two variants of the list are for the same profile and format.
pub open spec fn distinct_keys(variants: Seq<Variant>) -> bool {
    forall|i: int, j: int|
        0 <= i < j < variants.len() ==> (#[trigger] variants[i]).key() != (
        #[trigger] variants[j]).key()
}

/// Whether the list holds a variant for `key`.
pub open spec fn has_key(variants: Seq<Variant>, key: (Seq<char>, Extension)) -> bool {
    exists|i: int| 0 <= i < variants.len() && (#[trigger] variants[i]).key() == key
}

/// The position of a variant for `key`.
pub open spec fn position_of(variants: Seq<Variant>, key: (Seq<char>, Extension)) -> int {
    choose|i: int| 0 <= i < variants.len() && (#[trigger] variants[i]).key() == key
}

/// The list as a map from profile and format to the path of the file.
pub open spec fn variants_map(variants: Seq<Variant>) -> Map<(Seq<char>, Extension), Seq<char>> {
    Map::new(
        |key: (Seq<char>, Extension)| has_key(variants, key),
        |key: (Seq<char>, Extension)| variants[position_of(variants, key)].path@,
    )
}

/// In a list without repeated keys, the map sends the key of each variant to
/// its path.
pub proof fn lemma_variant_lookup(variants: Seq<Variant>, i: int)
    requires
        distinct_keys(variants),
        0 <= i < variants.len(),
    ensures
        variants_map(variants).dom().contains(variants[i].key()),
        variants_map(variants)[variants[i].key()] == variants[i].path@,
        position_of(variants, variants[i].key()) == i,
{
    let key = variants[i].key();
    assert(has_key(variants, key));
    let p = position_of(variants, key);
    if p != i {
        if p < i {
            assert(variants[p].key() != variants[i].key());
        } else {
            assert(variants[i].key() != variants[p].key());
        }
    }
}

/// A source image and the variants derived from it.
#[derive(Debug)]
pub struct CacheImage {
    base_image_path: String,
    optimized: Vec<Variant>,
}

impl View for CacheImage {
    type V = Map<(Seq<char>, Extension), Seq<char>>;

    /// The registered variants: from profile and format to the path of the
    /// file.
    open spec fn view(&self) -> Map<(Seq<char>, Extension), Seq<char>> {
        variants_map(self.variants())
    }
}

impl CacheImage {
    /// The path of the source image.
    pub closed spec fn source(&self) -> Seq<char> {
        self.base_image_path@
    }

    /// The registered variants, oldest registration first.
    pub closed spec fn variants(&self) -> Seq<Variant> {
        self.optimized@
    }

    /// No profile and format is registered twice. Every entry is so: the
    /// functions that change one keep it so.
    pub open spec fn wf(&self) -> bool {
        distinct_keys(self.variants())
    }

    /// What holds of every entry that the program holds.
    #[verifier::type_invariant]
    spec fn well_formed(&self) -> bool {
        distinct_keys(self.optimized@)
    }

    /// An entry for the source at `base_image_path`, without variants.
    pub fn new(base_image_path: String) -> (r: CacheImage)
        ensures
            r.wf(),
            r.source() == base_image_path@,
            r.variants() == Seq::<Variant>::empty(),
            r@ == Map::<(Seq<char>, Extension), Seq<char>>::empty(),
    {
        let r = CacheImage { base_image_path, optimized: Vec::new() };
        assert(r@ =~= Map::<(Seq<char>, Extension), Seq<char>>::empty());
        r
    }

    /// The path of the source image.
    pub fn base_image_path(&self) -> (r: &String)
        ensures
            r@ == self.source(),
    {
        &self.base_image_path
    }

    /// The position of the variant for `size` and `ext`.
    fn find(&self, size: &str, ext: Extension) -> (r: Option<usize>)
        ensures
            match r {
                Some(i) => i < self.variants().len() && self.variants()[i as int].key() == (
                    size@,
                    ext,
                ),
                None => !has_key(self.variants(), (size@, ext)),
            },
    {
        let mut i: usize = 0;
        while i < self.optimized.len()
            invariant
                i <= self.optimized.len(),
                forall|j: int| 0 <= j < i ==> (#[trigger] self.optimized@[j]).key() != (size@, ext),
            decreases self.optimized.len() - i,
        {
            if self.optimized[i].extension == ext && str_eq(self.optimized[i].size.as_str(), size) {
                return Some(i);
            }
            i = i + 1;
        }
        None
    }

    /// Takes the list of variants out of the entry, to be put back changed.
    fn take_list(&mut self) -> (list: Vec<Variant>)
        ensures
            list@ == old(self).optimized@,
            final(self).optimized@ == Seq::<Variant>::empty(),
            final(self).base_image_path == old(self).base_image_path,
    {
        let mut list: Vec<Variant> = Vec::new();
        std::mem::swap(&mut self.optimized, &mut list);
        list
    }

    /// Registers the file at `path` as the variant for `size` and `ext`, in
    /// place of an earlier registration for them if there is one.
    pub fn add(&mut self, size: String, ext: Extension, path: String)
        ensures
            final(self).wf(),
            final(self).source() == old(self).source(),
            final(self)@ == old(self)@.insert((size@, ext), path@),
            views_of(final(self).variants()) == if old(self)@.dom().contains((size@, ext)) {
                views_of(old(self).variants()).update(
                    position_of(old(self).variants(), (size@, ext)),
                    (size@, ext, path@),
                )
            } else {
                views_of(old(self).variants()).push((size@, ext, path@))
            },
    {
        proof {
            use_type_invariant(&*self);
        }
        let ghost before = self.optimized@;
        let ghost key = (size@, ext);
        let found = self.find(size.as_str(), ext);
        let mut list = self.take_list();
        match found {
            Some(i) => {
                let _ = list.remove(i);
                list.insert(i, Variant { size, extension: ext, path });
            },
            None => {
                list.push(Variant { size, extension: ext, path });
            },
        }
        proof {
            let after = list@;
            let at: int = match found {
                Some(i) => i as int,
                None => before.len() as int,
            };
            assert(after[at].key() == key && after[at].path@ == path@);
            assert forall|j: int| 0 <= j < after.len() && j != at implies after[j]
                == before[j] by {}
            assert forall|i: int, j: int| 0 <= i < j < after.len() implies (
            #[trigger] after[i]).key() != (#[trigger] after[j]).key() by {
                if i != at && j != at {
                    assert(before[i].key() != before[j].key());
                } else if found is Some {
                    assert(after[i].key() == before[i].key());
                    assert(after[j].key() == before[j].key());
                } else {
                    assert(before[i].key() != key);
                }
            }
            assert forall|k: (Seq<char>, Extension)|
                variants_map(after).dom().contains(k) <==> #[trigger] variants_map(before).insert(
                    key,
                    path@,
                ).dom().contains(k) by {
                if has_key(after, k) {
                    let p = position_of(after, k);
                    if p != at {
                        assert(before[p].key() == k);
                    }
                }
                if has_key(before, k) {
                    let p = position_of(before, k);
                    if found is Some {
                        assert(after[p].key() == k);
                    } else {
                        assert(after[p] == before[p]);
                    }
                }
                if k == key {
                    assert(after[at].key() == k);
                }
            }
            assert forall|k: (Seq<char>, Extension)| #[trigger]
                variants_map(after).dom().contains(k) implies variants_map(after)[k]
                == variants_map(before).insert(key, path@)[k] by {
                let p = position_of(after, k);
                lemma_variant_lookup(after, p);
                if p != at {
                    assert(before[p].key() == k);
                    lemma_variant_lookup(before, p);
                }
            }
            assert(variants_map(after) =~= variants_map(before).insert(key, path@));
            match found {
                Some(i) => {
                    lemma_variant_lookup(before, i as int);
                    assert(views_of(after) =~= views_of(before).update(
                        i as int,
                        (size@, ext, path@),
                    ));
                },
                None => {
                    assert(views_of(after) =~= views_of(before).push((size@, ext, path@)));
                },
            }
        }
        self.optimized = list;
    }

    /// The path of the variant for `size` and `ext`, if one is registered.
    pub fn get(&self, size: &str, ext: Extension) -> (r: Option<&String>)
        ensures
            self.wf(),
            match r {
                Some(path) => self@.dom().contains((size@, ext)) && self@[(size@, ext)] == path@,
                None => !self@.dom().contains((size@, ext)),
            },
    {
        proof {
            use_type_invariant(self);
        }
        match self.find(size, ext) {
            Some(i) => {
                proof {
                    lemma_variant_lookup(self.optimized@, i as int);
                }
                Some(&self.optimized[i].path)
            },
            None => None,
        }
    }

    /// Whether a variant for `size` and `ext` is registered.
    pub fn has(&self, size: &str, ext: Extension) -> (r: bool)
        ensures
            self.wf(),
            r == self@.dom().contains((size@, ext)),
    {
        proof {
            use_type_invariant(self);
        }
        self.find(size, ext).is_some()
    }

    /// How many variants are registered.
    pub fn len(&self) -> (n: usize)
        ensures
            n == self.variants().len(),
    {
        self.optimized.len()
    }

    /// The variant at position `i`, counted from the oldest registration.
    pub fn variant_at(&self, i: usize) -> (v: &Variant)
        requires
            i < self.variants().len(),
        ensures
            *v == self.variants()[i as int],
    {
        &self.optimized[i]
    }

    /// A copy of the entry.
    pub fn snapshot(&self) -> (r: CacheImage)
        ensures
            r.source() == self.source(),
            views_of(r.variants()) == views_of(self.variants()),
            r@ == self@,
            r.wf(),
    {
        proof {
            use_type_invariant(self);
        }
        let mut optimized: Vec<Variant> = Vec::new();
        let mut i: usize = 0;
        while i < self.optimized.len()
            invariant
                i <= self.optimized.len(),
                optimized@.len() == i,
                forall|j: int| 0 <= j < i ==> #[trigger] optimized@[j] == self.optimized@[j],
            decreases self.optimized.len() - i,
        {
            optimized.push(
                Variant {
                    size: self.optimized[i].size.clone(),
                    extension: self.optimized[i].extension,
                    path: self.optimized[i].path.clone(),
                },
            );
            i = i + 1;
        }
        assert(optimized@ =~= self.optimized@);
        CacheImage { base_image_path: self.base_image_path.clone(), optimized }
    }

    /// Takes every registration out of the entry and hands out the paths of
    /// the files, for the caller to delete.
    pub fn take_variants(&mut self) -> (paths: Vec<String>)
        ensures
            final(self).wf(),
            final(self).source() == old(self).source(),
            final(self).variants() == Seq::<Variant>::empty(),
            final(self)@ == Map::<(Seq<char>, Extension), Seq<char>>::empty(),
            paths@.len() == old(self).variants().len(),
            forall|i: int|
                0 <= i < paths@.len() ==> (#[trigger] paths@[i])@ == old(self).variants()[i].path@,
    {
        let mut paths: Vec<String> = Vec::new();
        let mut i: usize = 0;
        while i < self.optimized.len()
            invariant
                i <= self.optimized.len(),
                self.optimized@ == old(self).optimized@,
                self.base_image_path == old(self).base_image_path,
                paths@.len() == i,
                forall|j: int| 0 <= j < i ==> (#[trigger] paths@[j])@ == self.optimized@[j].path@,
            decreases self.optimized.len() - i,
        {
            paths.push(self.optimized[i].path.clone());
            i = i + 1;
        }
        self.optimized = Vec::new();
        assert(self@ =~= Map::<(Seq<char>, Extension), Seq<char>>::empty());
        paths
    }
}

/// No two entries of the list are for the same image-id.
pub open spec fn distinct_ids(entries: Seq<(String, CacheImage)>) -> bool {
    forall|i: int, j: int|
        0 <= i < j < entries.len() ==> (#[trigger] entries[i]).0@ != (#[trigger] entries[j]).0@
}

/// Whether the list holds an entry for `id`.
pub open spec fn has_id(entries: Seq<(String, CacheImage)>, id: Seq<char>) -> bool {
    exists|i: int| 0 <= i < entries.len() && (#[trigger] entries[i]).0@ == id
}

/// The position of an entry for `id`.
pub open spec fn position_of_id(entries: Seq<(String, CacheImage)>, id: Seq<char>) -> int {
    choose|i: int| 0 <= i < entries.len() && (#[trigger] entries[i]).0@ == id
}

/// The list as a map from image-id to entry.
pub open spec fn index_map(entries: Seq<(String, CacheImage)>) -> Map<Seq<char>, CacheImage> {
    Map::new(
        |id: Seq<char>| has_id(entries, id),
        |id: Seq<char>| entries[position_of_id(entries, id)].1,
    )
}

/// In a list without repeated ids, the map sends the id of each entry to the
/// entry.
pub proof fn lemma_index_lookup(entries: Seq<(String, CacheImage)>, i: int)
    requires
        distinct_ids(entries),
        0 <= i < entries.len(),
    ensures
        index_map(entries).dom().contains(entries[i].0@),
        index_map(entries)[entries[i].0@] == entries[i].1,
        position_of_id(entries, entries[i].0@) == i,
{
    let id = entries[i].0@;
    assert(has_id(entries, id));
    let p = position_of_id(entries, id);
    if p != i {
        if p < i {
            assert(entries[p].0@ != entries[i].0@);
        } else {
            assert(entries[i].0@ != entries[p].0@);
        }
    }
}

/// Replacing the entry at one position, under the same id, changes the map at
/// that id and nowhere else.
pub proof fn lemma_index_update(
    before: Seq<(String, CacheImage)>,
    after: Seq<(String, CacheImage)>,
    at: int,
)
    requires
        distinct_ids(before),
        0 <= at < before.len(),
        after.len() == before.len(),
        after[at].0@ == before[at].0@,
        forall|j: int| 0 <= j < before.len() && j != at ==> after[j] == before[j],
    ensures
        distinct_ids(after),
        index_map(after) == index_map(before).insert(before[at].0@, after[at].1),
{
    assert forall|j: int| 0 <= j < after.len() implies (#[trigger] after[j]).0@
        == before[j].0@ by {}
    assert forall|i: int, j: int| 0 <= i < j < after.len() implies (#[trigger] after[i]).0@ != (
    #[trigger] after[j]).0@ by {
        assert(before[i].0@ != before[j].0@);
    }
    let id = before[at].0@;
    let target = index_map(before).insert(id, after[at].1);
    assert forall|k: Seq<char>|
        index_map(after).dom().contains(k) <==> #[trigger] target.dom().contains(k) by {
        if has_id(after, k) {
            let p = position_of_id(after, k);
            assert(before[p].0@ == k);
        }
        if has_id(before, k) {
            let p = position_of_id(before, k);
            assert(after[p].0@ == k);
        }
        if k == id {
            assert(after[at].0@ == k);
        }
    }
    assert forall|k: Seq<char>| #[trigger] index_map(after).dom().contains(k) implies index_map(
        after,
    )[k] == target[k] by {
        let p = position_of_id(after, k);
        lemma_index_lookup(after, p);
        if p != at {
            assert(before[p].0@ == k);
            lemma_index_lookup(before, p);
        }
    }
    assert(index_map(after) =~= target);
}

/// Appending an entry under a new id adds it to the map.
pub proof fn lemma_index_push(before: Seq<(String, CacheImage)>, entry: (String, CacheImage))
    requires
        distinct_ids(before),
        !has_id(before, entry.0@),
    ensures
        distinct_ids(before.push(entry)),
        index_map(before.push(entry)) == index_map(before).insert(entry.0@, entry.1),
{
    let after = before.push(entry);
    let at = before.len() as int;
    assert forall|i: int, j: int| 0 <= i < j < after.len() implies (#[trigger] after[i]).0@ != (
    #[trigger] after[j]).0@ by {
        if j == at {
            assert(before[i].0@ != entry.0@);
        } else {
            assert(before[i].0@ != before[j].0@);
        }
    }
    let target = index_map(before).insert(entry.0@, entry.1);
    assert forall|k: Seq<char>|
        index_map(after).dom().contains(k) <==> #[trigger] target.dom().contains(k) by {
        if has_id(after, k) {
            let p = position_of_id(after, k);
            if p != at {
                assert(before[p].0@ == k);
            }
        }
        if has_id(before, k) {
            let p = position_of_id(before, k);
            assert(after[p].0@ == k);
        }
        if k == entry.0@ {
            assert(after[at].0@ == k);
        }
    }
    assert forall|k: Seq<char>| #[trigger] index_map(after).dom().contains(k) implies index_map(
        after,
    )[k] == target[k] by {
        let p = position_of_id(after, k);
        lemma_index_lookup(after, p);
        if p != at {
            assert(before[p].0@ == k);
            lemma_index_lookup(before, p);
        }
    }
    assert(index_map(after) =~= target);
}

/// Taking the entry at one position out of the list takes its id out of the
/// map.
pub proof fn lemma_index_remove(before: Seq<(String, CacheImage)>, at: int)
    requires
        distinct_ids(before),
        0 <= at < before.len(),
    ensures
        distinct_ids(before.remove(at)),
        index_map(before.remove(at)) == index_map(before).remove(before[at].0@),
{
    let after = before.remove(at);
    let id = before[at].0@;
    assert forall|j: int| 0 <= j < after.len() implies #[trigger] after[j] == before[if j < at {
        j
    } else {
        j + 1
    }] by {}
    assert forall|i: int, j: int| 0 <= i < j < after.len() implies (#[trigger] after[i]).0@ != (
    #[trigger] after[j]).0@ by {
        let bi = if i < at {
            i
        } else {
            i + 1
        };
        let bj = if j < at {
            j
        } else {
            j + 1
        };
        assert(before[bi].0@ != before[bj].0@);
    }
    let target = index_map(before).remove(id);
    assert forall|k: Seq<char>|
        index_map(after).dom().contains(k) <==> #[trigger] target.dom().contains(k) by {
        if has_id(after, k) {
            let p = position_of_id(after, k);
            let bp = if p < at {
                p
            } else {
                p + 1
            };
            assert(before[bp].0@ == k);
            if k == id {
                if bp < at {
                    assert(before[bp].0@ != before[at].0@);
                } else {
                    assert(before[at].0@ != before[bp].0@);
                }
            }
        }
        if has_id(before, k) && k != id {
            let p = position_of_id(before, k);
            let ap = if p < at {
                p
            } else {
                p - 1
            };
            assert(after[ap].0@ == k);
        }
    }
    assert forall|k: Seq<char>| #[trigger] index_map(after).dom().contains(k) implies index_map(
        after,
    )[k] == target[k] by {
        let p = position_of_id(after, k);
        lemma_index_lookup(after, p);
        let bp = if p < at {
            p
        } else {
            p + 1
        };
        assert(before[bp].0@ == k);
        lemma_index_lookup(before, bp);
    }
    assert(index_map(after) =~= target);
}

/// The variant index: one entry per image-id.
#[derive(Debug)]
pub struct VariantIndex {
    entries: Vec<(String, CacheImage)>,
}

impl View for VariantIndex {
    type V = Map<Seq<char>, CacheImage>;

    /// The entries by image-id.
    open spec fn view(&self) -> Map<Seq<char>, CacheImage> {
        index_map(self.entries())
    }
}

impl VariantIndex {
    /// The entries with their ids, oldest first.
    pub closed spec fn entries(&self) -> Seq<(String, CacheImage)> {
        self.entries@
    }

    /// The indexed image-ids, oldest entry first.
    pub open spec fn ids(&self) -> Seq<Seq<char>> {
        Seq::new(self.entries().len(), |i: int| self.entries()[i].0@)
    }

    /// No image-id has two entries, and every entry is well-formed. Every
    /// index is so: the functions that change one keep it so.
    pub open spec fn wf(&self) -> bool {
        &&& distinct_ids(self.entries())
        &&& forall|i: int| 0 <= i < self.entries().len() ==> (#[trigger] self.entries()[i]).1.wf()
    }

    /// What holds of every index that the program holds.
    #[verifier::type_invariant]
    spec fn well_formed(&self) -> bool {
        &&& distinct_ids(self.entries@)
        &&& forall|i: int| 0 <= i < self.entries@.len() ==> (#[trigger] self.entries@[i]).1.wf()
    }

    /// Takes the list of entries out of the index, to be put back changed.
    fn take_entries(&mut self) -> (list: Vec<(String, CacheImage)>)
        ensures
            list@ == old(self).entries@,
            final(self).entries@ == Seq::<(String, CacheImage)>::empty(),
    {
        let mut list: Vec<(String, CacheImage)> = Vec::new();
        std::mem::swap(&mut self.entries, &mut list);
        list
    }

    /// The map sends the id at each position to the entry at that position.
    pub proof fn lemma_entry_at(&self, i: int)
        requires
            self.wf(),
            0 <= i < self.entries().len(),
        ensures
            self@.dom().contains(self.ids()[i]),
            self@[self.ids()[i]] == self.entries()[i].1,
    {
        lemma_index_lookup(self.entries(), i);
    }

    /// An index without entries.
    pub fn new() -> (r: VariantIndex)
        ensures
            r.wf(),
            r.entries() == Seq::<(String, CacheImage)>::empty(),
            r@ == Map::<Seq<char>, CacheImage>::empty(),
    {
        let r = VariantIndex { entries: Vec::new() };
        assert(r@ =~= Map::<Seq<char>, CacheImage>::empty());
        r
    }

    /// How many images are indexed.
    pub fn len(&self) -> (n: usize)
        ensures
            n == self.entries().len(),
    {
        self.entries.len()
    }

    /// The image-id of the entry at position `i`.
    pub fn id_at(&self, i: usize) -> (id: &String)
        requires
            i < self.entries().len(),
        ensures
            *id == self.entries()[i as int].0,
    {
        &self.entries[i].0
    }

    /// The entry at position `i`.
    pub fn image_at(&self, i: usize) -> (image: &CacheImage)
        requires
            i < self.entries().len(),
        ensures
            *image == self.entries()[i as int].1,
    {
        &self.entries[i].1
    }

    /// The position of the entry for `image_id`.
    fn find(&self, image_id: &str) -> (r: Option<usize>)
        ensures
            match r {
                Some(i) => i < self.entries().len() && self.entries()[i as int].0@ == image_id@,
                None => !has_id(self.entries(), image_id@),
            },
    {
        let mut i: usize = 0;
        while i < self.entries.len()
            invariant
                i <= self.entries.len(),
                forall|j: int| 0 <= j < i ==> (#[trigger] self.entries@[j]).0@ != image_id@,
            decreases self.entries.len() - i,
        {
            if str_eq(self.entries[i].0.as_str(), image_id) {
                return Some(i);
            }
            i = i + 1;
        }
        None
    }

    /// The entry for `image_id`, if the image is indexed.
    pub fn get_source(&self, image_id: &str) -> (r: Option<&CacheImage>)
        ensures
            self.wf(),
            match r {
                Some(image) => self@.dom().contains(image_id@) && self@[image_id@] == *image
                    && image.wf(),
                None => !self@.dom().contains(image_id@),
            },
    {
        proof {
            use_type_invariant(self);
        }
        match self.find(image_id) {
            Some(i) => {
                proof {
                    lemma_index_lookup(self.entries@, i as int);
                }
                Some(&self.entries[i].1)
            },
            None => None,
        }
    }

    /// Whether `image_id` is indexed.
    pub fn contains(&self, image_id: &str) -> (r: bool)
        ensures
            r == self@.dom().contains(image_id@),
    {
        self.find(image_id).is_some()
    }

    /// Installs `image` as the entry for `image_id`, in place of an earlier
    /// entry for that id if there is one.
    pub fn insert(&mut self, image_id: String, image: CacheImage)
        ensures
            final(self).wf(),
            final(self)@ == old(self)@.insert(image_id@, image),
            final(self).ids() == if old(self)@.dom().contains(image_id@) {
                old(self).ids()
            } else {
                old(self).ids().push(image_id@)
            },
    {
        proof {
            use_type_invariant(&*self);
            use_type_invariant(&image);
        }
        let ghost before = self.entries@;
        let found = self.find(image_id.as_str());
        let mut list = self.take_entries();
        match found {
            Some(i) => {
                let _ = list.remove(i);
                list.insert(i, (image_id, image));
                proof {
                    lemma_index_update(before, list@, i as int);
                }
            },
            None => {
                proof {
                    lemma_index_push(before, (image_id, image));
                }
                list.push((image_id, image));
            },
        }
        self.entries = list;
        proof {
            if found is Some {
                assert(final(self).ids() =~= old(self).ids());
            } else {
                assert(final(self).ids() =~= old(self).ids().push(image_id@));
            }
        }
    }

    /// Registers the file at `variant_path` as the variant of `image_id` for
    /// `size` and `format`. Does nothing where the image is not indexed.
    pub fn insert_variant(
        &mut self,
        image_id: &str,
        size: String,
        format: Extension,
        variant_path: String,
    )
        ensures
            final(self).wf(),
            final(self)@.dom() == old(self)@.dom(),
            final(self).ids() == old(self).ids(),
            !old(self)@.dom().contains(image_id@) ==> final(self)@ == old(self)@,
            old(self)@.dom().contains(image_id@) ==> {
                &&& final(self)@ == old(self)@.insert(image_id@, final(self)@[image_id@])
                &&& final(self)@[image_id@].source() == old(self)@[image_id@].source()
                &&& final(self)@[image_id@]@ == old(self)@[image_id@]@.insert(
                    (size@, format),
                    variant_path@,
                )
            },
    {
        proof {
            use_type_invariant(&*self);
        }
        let ghost before = self.entries@;
        match self.find(image_id) {
            Some(i) => {
                proof {
                    lemma_index_lookup(before, i as int);
                }
                let mut list = self.take_entries();
                let (id, mut image) = list.remove(i);
                image.add(size, format, variant_path);
                list.insert(i, (id, image));
                proof {
                    lemma_index_update(before, list@, i as int);
                    lemma_index_lookup(list@, i as int);
                }
                self.entries = list;
                proof {
                    assert(final(self)@.dom() =~= old(self)@.dom());
                    assert(final(self).ids() =~= old(self).ids());
                }
            },
            None => {},
        }
    }

    /// Installs `new_source_path` as the source of `image_id`, with no
    /// variants, and hands out the paths of the variants that the image had,
    /// for the caller to delete.
    pub fn replace_source(&mut self, image_id: &str, new_source_path: String) -> (old_variants: Vec<
        String,
    >)
        ensures
            final(self).wf(),
            final(self)@.dom() == old(self)@.dom().insert(image_id@),
            final(self).ids() == if old(self)@.dom().contains(image_id@) {
                old(self).ids()
            } else {
                old(self).ids().push(image_id@)
            },
            final(self)@ == old(self)@.insert(image_id@, final(self)@[image_id@]),
            final(self)@[image_id@].source() == new_source_path@,
            final(self)@[image_id@]@ == Map::<(Seq<char>, Extension), Seq<char>>::empty(),
            final(self)@[image_id@].variants() == Seq::<Variant>::empty(),
            old(self)@.dom().contains(image_id@) ==> {
                &&& old_variants@.len() == old(self)@[image_id@].variants().len()
                &&& forall|i: int|
                    0 <= i < old_variants@.len() ==> (#[trigger] old_variants@[i])@ == old(
                        self,
                    )@[image_id@].variants()[i].path@
            },
            !old(self)@.dom().contains(image_id@) ==> old_variants@.len() == 0,
    {
        proof {
            use_type_invariant(&*self);
        }
        let ghost before = self.entries@;
        let found = self.find(image_id);
        let mut list = self.take_entries();
        match found {
            Some(i) => {
                proof {
                    lemma_index_lookup(before, i as int);
                }
                let (id, mut image) = list.remove(i);
                let paths = image.take_variants();
                list.insert(i, (id, CacheImage::new(new_source_path)));
                proof {
                    lemma_index_update(before, list@, i as int);
                    lemma_index_lookup(list@, i as int);
                }
                self.entries = list;
                proof {
                    assert(final(self)@.dom() =~= old(self)@.dom().insert(image_id@));
                    assert(final(self).ids() =~= old(self).ids());
                }
                paths
            },
            None => {
                let entry = (String::from_str(image_id), CacheImage::new(new_source_path));
                proof {
                    lemma_index_push(before, entry);
                    lemma_index_lookup(before.push(entry), before.len() as int);
                }
                list.push(entry);
                self.entries = list;
                assert(final(self).ids() =~= old(self).ids().push(image_id@));
                Vec::new()
            },
        }
    }

    /// A copy of every entry with its id, oldest first: what a reader keeps
    /// after it lets go of the index.
    pub fn iter_snapshot(&self) -> (r: Vec<(String, CacheImage)>)
        ensures
            r@.len() == self.entries().len(),
            forall|i: int|
                0 <= i < r@.len() ==> {
                    &&& (#[trigger] r@[i]).0@ == self.ids()[i]
                    &&& r@[i].1.source() == self.entries()[i].1.source()
                    &&& r@[i].1@ == self.entries()[i].1@
                    &&& views_of(r@[i].1.variants()) == views_of(self.entries()[i].1.variants())
                },
    {
        let mut out: Vec<(String, CacheImage)> = Vec::new();
        let mut i: usize = 0;
        while i < self.entries.len()
            invariant
                i <= self.entries.len(),
                out@.len() == i,
                forall|j: int|
                    0 <= j < i ==> {
                        &&& (#[trigger] out@[j]).0@ == self.entries@[j].0@
                        &&& out@[j].1.source() == self.entries@[j].1.source()
                        &&& out@[j].1@ == self.entries@[j].1@
                        &&& views_of(out@[j].1.variants()) == views_of(
                            self.entries@[j].1.variants(),
                        )
                    },
            decreases self.entries.len() - i,
        {
            out.push((self.entries[i].0.clone(), self.entries[i].1.snapshot()));
            i = i + 1;
        }
        out
    }

    /// Takes every registration out of the entry for `image_id` and hands out
    /// the paths of the files, for the caller to delete. The entry stays, with
    /// its source. Does nothing where the image is not indexed.
    pub fn take_variants(&mut self, image_id: &str) -> (paths: Vec<String>)
        ensures
            final(self).wf(),
            final(self)@.dom() == old(self)@.dom(),
            final(self).ids() == old(self).ids(),
            !old(self)@.dom().contains(image_id@) ==> final(self)@ == old(self)@ && paths@.len()
                == 0,
            old(self)@.dom().contains(image_id@) ==> {
                &&& final(self)@ == old(self)@.insert(image_id@, final(self)@[image_id@])
                &&& final(self)@[image_id@].source() == old(self)@[image_id@].source()
                &&& final(self)@[image_id@]@ == Map::<(Seq<char>, Extension), Seq<char>>::empty()
                &&& final(self)@[image_id@].variants() == Seq::<Variant>::empty()
                &&& paths@.len() == old(self)@[image_id@].variants().len()
                &&& forall|i: int|
                    0 <= i < paths@.len() ==> (#[trigger] paths@[i])@ == old(
                        self,
                    )@[image_id@].variants()[i].path@
            },
    {
        proof {
            use_type_invariant(&*self);
        }
        let ghost before = self.entries@;
        match self.find(image_id) {
            Some(i) => {
                proof {
                    lemma_index_lookup(before, i as int);
                }
                let mut list = self.take_entries();
                let (id, mut image) = list.remove(i);
                let paths = image.take_variants();
                list.insert(i, (id, image));
                proof {
                    lemma_index_update(before, list@, i as int);
                    lemma_index_lookup(list@, i as int);
                }
                self.entries = list;
                proof {
                    assert(final(self)@.dom() =~= old(self)@.dom());
                    assert(final(self).ids() =~= old(self).ids());
                }
                paths
            },
            None => Vec::new(),
        }
    }

    /// Takes the entry for `image_id` out of the index and hands it out, for
    /// the caller to delete its files.
    pub fn remove(&mut self, image_id: &str) -> (r: Option<CacheImage>)
        ensures
            final(self).wf(),
            final(self)@ == old(self)@.remove(image_id@),
            final(self).ids() == if old(self)@.dom().contains(image_id@) {
                old(self).ids().remove(position_of_id(old(self).entries(), image_id@))
            } else {
                old(self).ids()
            },
            match r {
                Some(image) => old(self)@.dom().contains(image_id@) && old(self)@[image_id@]
                    == image && image.wf(),
                None => !old(self)@.dom().contains(image_id@),
            },
    {
        proof {
            use_type_invariant(&*self);
        }
        let ghost before = self.entries@;
        match self.find(image_id) {
            Some(i) => {
                proof {
                    lemma_index_lookup(before, i as int);
                    lemma_index_remove(before, i as int);
                }
                let mut list = self.take_entries();
                let (_, image) = list.remove(i);
                self.entries = list;
                assert(final(self).ids() =~= old(self).ids().remove(i as int));
                Some(image)
            },
            None => {
                assert(old(self)@.remove(image_id@) =~= old(self)@);
                None
            },
        }
    }
}

} // verus!
