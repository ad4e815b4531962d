use impress::cache::{CacheImage, Variant, VariantIndex};
use impress::config::Extension;

#[test]
fn a_new_entry_has_its_source_and_no_variants() {
    let image = CacheImage::new("media/a.jpg".to_string());
    assert_eq!(image.base_image_path(), "media/a.jpg");
    assert_eq!(image.len(), 0);
    assert!(!image.has("small", Extension::WEBP));
    assert_eq!(image.get("small", Extension::WEBP), None);
}

#[test]
fn add_registers_and_get_finds() {
    let mut image = CacheImage::new("media/a.jpg".to_string());
    image.add("small".to_string(), Extension::WEBP, "cache/small/a.webp".to_string());
    image.add("small".to_string(), Extension::AVIF, "cache/small/a.avif".to_string());
    image.add("large".to_string(), Extension::WEBP, "cache/large/a.webp".to_string());
    assert_eq!(image.len(), 3);
    assert!(image.has("small", Extension::WEBP));
    assert!(image.has("small", Extension::AVIF));
    assert!(image.has("large", Extension::WEBP));
    assert!(!image.has("large", Extension::AVIF));
    assert!(!image.has("small", Extension::JPEG));
    assert_eq!(
        image.get("small", Extension::AVIF),
        Some(&"cache/small/a.avif".to_string())
    );
    assert_eq!(
        image.get("large", Extension::WEBP),
        Some(&"cache/large/a.webp".to_string())
    );
}

#[test]
fn adding_twice_keeps_one_registration() {
    let mut image = CacheImage::new("media/a.jpg".to_string());
    image.add("small".to_string(), Extension::WEBP, "first.webp".to_string());
    image.add("small".to_string(), Extension::WEBP, "first.webp".to_string());
    assert_eq!(image.len(), 1);
    image.add("small".to_string(), Extension::WEBP, "second.webp".to_string());
    assert_eq!(image.len(), 1);
    assert_eq!(image.get("small", Extension::WEBP), Some(&"second.webp".to_string()));
}

#[test]
fn variants_keep_their_order_of_registration() {
    let mut image = CacheImage::new("media/a.jpg".to_string());
    image.add("s".to_string(), Extension::WEBP, "1".to_string());
    image.add("s".to_string(), Extension::AVIF, "2".to_string());
    image.add("s".to_string(), Extension::WEBP, "3".to_string());
    let first: &Variant = image.variant_at(0);
    assert_eq!(first.size, "s");
    assert_eq!(first.extension, Extension::WEBP);
    assert_eq!(first.path, "3");
    assert_eq!(image.variant_at(1).path, "2");
}

#[test]
fn take_variants_empties_the_entry() {
    let mut image = CacheImage::new("media/a.jpg".to_string());
    image.add("s".to_string(), Extension::WEBP, "1".to_string());
    image.add("t".to_string(), Extension::AVIF, "2".to_string());
    let paths = image.take_variants();
    assert_eq!(paths, vec!["1".to_string(), "2".to_string()]);
    assert_eq!(image.len(), 0);
    assert!(!image.has("s", Extension::WEBP));
    assert_eq!(image.base_image_path(), "media/a.jpg");
    assert!(image.take_variants().is_empty());
}

fn index_with(ids: &[&str]) -> VariantIndex {
    let mut index = VariantIndex::new();
    for id in ids {
        index.insert(id.to_string(), CacheImage::new(format!("media/{}.jpg", id)));
    }
    index
}

#[test]
fn an_empty_index_knows_nothing() {
    let index = VariantIndex::new();
    assert_eq!(index.len(), 0);
    assert!(!index.contains("a"));
    assert!(index.get_source("a").is_none());
}

#[test]
fn insert_and_get_source() {
    let index = index_with(&["a", "b/c"]);
    assert_eq!(index.len(), 2);
    assert!(index.contains("a"));
    assert!(index.contains("b/c"));
    assert!(!index.contains("b"));
    assert_eq!(index.get_source("b/c").unwrap().base_image_path(), "media/b/c.jpg");
    assert_eq!(index.id_at(0), "a");
    assert_eq!(index.image_at(1).base_image_path(), "media/b/c.jpg");
}

#[test]
fn insert_replaces_an_entry_of_the_same_id() {
    let mut index = index_with(&["a", "b"]);
    index.insert("a".to_string(), CacheImage::new("media/a.png".to_string()));
    assert_eq!(index.len(), 2);
    assert_eq!(index.get_source("a").unwrap().base_image_path(), "media/a.png");
    assert_eq!(index.get_source("b").unwrap().base_image_path(), "media/b.jpg");
}

#[test]
fn insert_variant_registers_for_a_known_image() {
    let mut index = index_with(&["a", "b"]);
    index.insert_variant("b", "small".to_string(), Extension::WEBP, "c/small/b.webp".to_string());
    assert!(index.get_source("b").unwrap().has("small", Extension::WEBP));
    assert!(!index.get_source("a").unwrap().has("small", Extension::WEBP));
    assert_eq!(
        index.get_source("b").unwrap().get("small", Extension::WEBP),
        Some(&"c/small/b.webp".to_string())
    );
    assert_eq!(index.get_source("b").unwrap().base_image_path(), "media/b.jpg");
}

#[test]
fn insert_variant_does_nothing_for_an_unknown_image() {
    let mut index = index_with(&["a"]);
    index.insert_variant("zzz", "small".to_string(), Extension::WEBP, "x".to_string());
    assert_eq!(index.len(), 1);
    assert!(!index.contains("zzz"));
    assert_eq!(index.get_source("a").unwrap().len(), 0);
}

#[test]
fn replace_source_hands_out_the_old_variants() {
    let mut index = index_with(&["a"]);
    index.insert_variant("a", "small".to_string(), Extension::WEBP, "c/small/a.webp".to_string());
    index.insert_variant("a", "small".to_string(), Extension::AVIF, "c/small/a.avif".to_string());
    let old = index.replace_source("a", "media/renamed.jpg".to_string());
    assert_eq!(old, vec!["c/small/a.webp".to_string(), "c/small/a.avif".to_string()]);
    let entry = index.get_source("a").unwrap();
    assert_eq!(entry.base_image_path(), "media/renamed.jpg");
    assert_eq!(entry.len(), 0);
}

#[test]
fn replace_source_indexes_an_unknown_image() {
    let mut index = index_with(&["a"]);
    let old = index.replace_source("n", "media/n.jpg".to_string());
    assert!(old.is_empty());
    assert_eq!(index.len(), 2);
    assert_eq!(index.get_source("n").unwrap().base_image_path(), "media/n.jpg");
}

#[test]
fn take_variants_keeps_the_entry() {
    let mut index = index_with(&["a", "b"]);
    index.insert_variant("a", "small".to_string(), Extension::WEBP, "c/small/a.webp".to_string());
    let paths = index.take_variants("a");
    assert_eq!(paths, vec!["c/small/a.webp".to_string()]);
    assert!(index.contains("a"));
    assert_eq!(index.get_source("a").unwrap().len(), 0);
    assert_eq!(index.get_source("a").unwrap().base_image_path(), "media/a.jpg");
    assert!(index.take_variants("unknown").is_empty());
    assert_eq!(index.len(), 2);
}

#[test]
fn remove_takes_the_entry_out() {
    let mut index = index_with(&["a", "b", "c"]);
    index.insert_variant("b", "small".to_string(), Extension::WEBP, "c/small/b.webp".to_string());
    let removed = index.remove("b").expect("b was indexed");
    assert_eq!(removed.base_image_path(), "media/b.jpg");
    assert!(removed.has("small", Extension::WEBP));
    assert_eq!(index.len(), 2);
    assert!(!index.contains("b"));
    assert!(index.contains("a"));
    assert!(index.contains("c"));
    assert_eq!(index.id_at(1), "c");
    assert!(index.remove("b").is_none());
}

#[test]
fn a_snapshot_is_a_copy() {
    let mut index = index_with(&["a", "b"]);
    index.insert_variant("b", "small".to_string(), Extension::WEBP, "c/small/b.webp".to_string());
    let snapshot = index.iter_snapshot();
    index.remove("a");
    index.take_variants("b");
    assert_eq!(snapshot.len(), 2);
    assert_eq!(snapshot[0].0, "a");
    assert_eq!(snapshot[0].1.base_image_path(), "media/a.jpg");
    assert_eq!(snapshot[0].1.len(), 0);
    assert_eq!(snapshot[1].0, "b");
    assert_eq!(snapshot[1].1.base_image_path(), "media/b.jpg");
    assert_eq!(
        snapshot[1].1.get("small", Extension::WEBP),
        Some(&"c/small/b.webp".to_string())
    );
    let copy = snapshot[1].1.snapshot();
    assert_eq!(copy.len(), 1);
    assert_eq!(copy.variant_at(0).path, "c/small/b.webp");
}
