use vtracer_webapp::binary::{
    can_segment, count_opened, BinaryImageConverter, BinaryImageConverterParams,
};
use vtracer_webapp::document::{Document, PathEntry};
use vtracer_webapp::keying::{PixelBuffer, Rgba};

const BLACK: Rgba = Rgba { r: 0, g: 0, b: 0, a: 255 };

/// An image that is white but for the pixels marked `#`.
fn picture(rows: &[&str]) -> (Vec<u8>, usize, usize) {
    let mut bytes = Vec::new();
    for row in rows {
        for ch in row.chars() {
            let v = if ch == '#' { 0 } else { 255 };
            bytes.extend_from_slice(&[v, v, v, 255]);
        }
    }
    (bytes, rows[0].len(), rows.len())
}

fn params(filter_speckle: usize) -> BinaryImageConverterParams {
    BinaryImageConverterParams { filter_speckle, path_precision: 3 }
}

fn two_blobs() -> (Vec<u8>, usize, usize) {
    picture(&["#.....", "......", "...##.", "...##.", "......"])
}

#[test]
fn a_new_converter_waits_for_its_image() {
    let mut c = BinaryImageConverter::new(params(0));
    assert!(!c.is_initialized());
    assert_eq!(c.cluster_count(), 0);
    assert_eq!(c.progress(), 100);
    assert!(c.entries().is_empty());
    let (bytes, w, h) = picture(&["..", ".."]);
    c.init(PixelBuffer::from_bytes(&bytes, w, h).unwrap());
    assert!(c.is_initialized());
    assert!(c.tick());
    assert!(c.tick());
    assert!(c.entries().is_empty());
}

#[test]
fn binary_ticks_once_per_cluster() {
    let (bytes, w, h) = two_blobs();
    let mut c = BinaryImageConverter::from_bytes(&bytes, w, h, params(0));
    assert_eq!(c.cluster_count(), 2);
    assert_eq!(c.progress(), 0);
    assert!(!c.tick());
    assert_eq!(c.progress(), 50);
    assert_eq!(c.entries().len(), 1);
    assert!(!c.tick());
    assert_eq!(c.progress(), 100);
    assert_eq!(c.entries().len(), 2);
    assert!(c.tick());
    assert!(c.tick());
    assert_eq!(c.progress(), 100);
    assert_eq!(c.entries().len(), 2);
}

#[test]
fn binary_document_is_in_reverse_order_of_emission() {
    let (bytes, w, h) = two_blobs();
    let mut c = BinaryImageConverter::from_bytes(&bytes, w, h, params(0));
    while !c.tick() {}
    assert_eq!(
        c.entries(),
        vec![
            PathEntry { cluster: 1, color: BLACK, precision: 3 },
            PathEntry { cluster: 0, color: BLACK, precision: 3 },
        ]
    );
}

#[test]
fn binary_speckles_are_ticked_but_not_emitted() {
    let (bytes, w, h) = two_blobs();
    let mut c = BinaryImageConverter::from_bytes(&bytes, w, h, params(2));
    let mut ticks = 0;
    while !c.tick() {
        ticks += 1;
    }
    assert_eq!(ticks, 2);
    let entries = c.entries();
    assert_eq!(entries.len(), 1);
    assert_eq!(c.clusters().get_cluster(entries[0].cluster).size(), 4);
    let mut none = BinaryImageConverter::from_bytes(&bytes, w, h, params(5));
    while !none.tick() {}
    assert!(none.entries().is_empty());
    assert_eq!(none.progress(), 100);
}

#[test]
fn binary_foreground_is_red_below_128() {
    let bytes = vec![127, 255, 255, 0, 128, 0, 0, 255];
    let c = BinaryImageConverter::from_bytes(&bytes, 2, 1, params(0));
    assert_eq!(c.cluster_count(), 1);
    assert_eq!(c.clusters().get_cluster(0).size(), 1);
}

#[test]
fn binary_progress_rounds_down() {
    let (bytes, w, h) = picture(&["#.#.#"]);
    let mut c = BinaryImageConverter::from_bytes(&bytes, w, h, params(0));
    assert_eq!(c.cluster_count(), 3);
    let mut seen = vec![c.progress()];
    while !c.tick() {
        seen.push(c.progress());
    }
    assert_eq!(seen, vec![0, 33, 66, 100]);
}

#[test]
fn binary_init_keeps_the_document() {
    let (bytes, w, h) = two_blobs();
    let mut c = BinaryImageConverter::from_bytes(&bytes, w, h, params(0));
    assert!(c.is_initialized());
    while !c.tick() {}
    let before = c.entries();
    assert_eq!(before.len(), 2);
    let (bytes, w, h) = picture(&["#"]);
    c.init(PixelBuffer::from_bytes(&bytes, w, h).unwrap());
    assert_eq!(c.cluster_count(), 1);
    assert_eq!(c.progress(), 0);
    assert_eq!(c.entries(), before);
    assert!(!c.tick());
    assert!(c.tick());
    let after = c.entries();
    assert_eq!(after.len(), 3);
    assert_eq!(after[0], PathEntry { cluster: 0, color: BLACK, precision: 3 });
    assert_eq!(after[1..].to_vec(), before);
}

#[test]
fn document_prepends() {
    let mut d = Document::new();
    let entry = |i: usize| PathEntry { cluster: i, color: BLACK, precision: 2 };
    d.prepend(entry(1));
    d.prepend(entry(2));
    d.prepend(entry(3));
    assert_eq!(d.len(), 3);
    assert_eq!(d.get(0), Some(entry(3)));
    assert_eq!(d.get(1), Some(entry(2)));
    assert_eq!(d.get(2), Some(entry(1)));
    assert_eq!(d.get(3), None);
    assert_eq!(d.to_vec(), vec![entry(3), entry(2), entry(1)]);
}

#[test]
fn opened_clusters_are_counted() {
    let (bytes, w, h) = two_blobs();
    let img = PixelBuffer::from_bytes(&bytes, w, h).unwrap();
    assert_eq!(count_opened(&img), 2);
    assert!(can_segment(&img));
    // A pixel opens a cluster when nothing dark is above it or to its left.
    let (bytes, w, h) = picture(&["#.#", "##.", "..#"]);
    let img = PixelBuffer::from_bytes(&bytes, w, h).unwrap();
    assert_eq!(count_opened(&img), 3);
    let (bytes, w, h) = picture(&["..#", "#.."]);
    let img = PixelBuffer::from_bytes(&bytes, w, h).unwrap();
    assert_eq!(count_opened(&img), 2);
}

#[test]
fn a_large_dark_image_is_segmentable() {
    let row = PixelBuffer::from_bytes(&vec![0u8; 4 * 65535], 65535, 1).unwrap();
    assert_eq!(count_opened(&row), 1);
    assert!(can_segment(&row));
    let c = BinaryImageConverter::from_bytes(&vec![0u8; 4 * 65535], 65535, 1, params(0));
    assert_eq!(c.cluster_count(), 1);
    assert_eq!(c.clusters().get_cluster(0).size(), 65535);
    let block = BinaryImageConverter::from_bytes(&vec![0u8; 4 * 90000], 300, 300, params(0));
    assert_eq!(block.cluster_count(), 1);
}

/// A row in which every second pixel is dark, `dark` of them.
fn dotted(dark: usize) -> Vec<u8> {
    let mut bytes = Vec::new();
    for _ in 0..dark {
        bytes.extend_from_slice(&[0, 0, 0, 255, 255, 255, 255, 255]);
    }
    bytes
}

#[test]
fn too_many_clusters_are_not_segmentable() {
    let fits = dotted(65534);
    let img = PixelBuffer::from_bytes(&fits, 2 * 65534, 1).unwrap();
    assert_eq!(count_opened(&img), 65534);
    assert!(can_segment(&img));
    let c = BinaryImageConverter::from_bytes(&fits, 2 * 65534, 1, params(0));
    assert_eq!(c.cluster_count(), 65534);
    let over = PixelBuffer::from_bytes(&dotted(65535), 2 * 65535, 1).unwrap();
    assert_eq!(count_opened(&over), 65535);
    assert!(!can_segment(&over));
}
