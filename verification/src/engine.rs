//! The segmentation engine of the `visioncortex` crate. Its types are
//! opaque here, and what the calls into it do is taken on trust: the
//! functions without a proof are those that make such a call.

use crate::keying::{pixel_of, no_key, PixelBuffer, Rgba};
use vstd::prelude::*;
use visioncortex::color_clusters::{IncrementalBuilder, KeyingAction, Runner, RunnerConfig};
use visioncortex::{Color, ColorImage};

verus! {

/// The clusters of a single-colour segmentation.
#[verifier::external_type_specification]
#[verifier::external_body]
pub struct ExRegions(visioncortex::clusters::Clusters);

/// A colour segmentation in progress.
#[verifier::external_type_specification]
#[verifier::external_body]
pub struct ExIncrementalBuilder(visioncortex::color_clusters::IncrementalBuilder);

/// The clusters of a finished colour segmentation.
#[verifier::external_type_specification]
#[verifier::external_body]
pub struct ExColorClusters(visioncortex::color_clusters::Clusters);

/// The sizes, in pixels, of the clusters of a single-colour segmentation, in
/// the order in which the engine lists them.
pub uninterp spec fn region_sizes(c: visioncortex::clusters::Clusters) -> Seq<nat>;

/// The sizes of the clusters that the engine finds among the foreground
/// pixels of an image of the given bytes and size.
pub uninterp spec fn foreground_regions(bytes: Seq<u8>, width: int, height: int) -> Seq<nat>;

/// Whether the result of a segmentation in progress is still to be taken.
pub uninterp spec fn engine_open(b: IncrementalBuilder) -> bool;

/// The image that a segmentation in progress was started on: its bytes, its
/// width and its height.
pub uninterp spec fn engine_image(b: IncrementalBuilder) -> (Seq<u8>, nat, nat);

/// The settings that a segmentation in progress was started with.
pub uninterp spec fn engine_config(b: IncrementalBuilder) -> EngineConfig;

/// Whether a segmentation in progress has no work left, so that its next
/// tick does nothing and says so.
pub uninterp spec fn engine_done(b: IncrementalBuilder) -> bool;

/// What taking the result of a segmentation in progress would give: the
/// colours of its output clusters, and the bytes of their flattened image.
pub uninterp spec fn engine_yield(b: IncrementalBuilder) -> (Seq<(u8, u8, u8, u8)>, Seq<u8>);

/// The engine's own figure of how far a segmentation has come.
pub uninterp spec fn engine_figure(b: IncrementalBuilder) -> u32;

/// The bytes of the image on which every output cluster of a finished
/// segmentation is painted in its colour.
pub uninterp spec fn flat_image(c: visioncortex::color_clusters::Clusters) -> Seq<u8>;

/// Width and height of the image that a finished segmentation was made of.
pub uninterp spec fn clusters_dims(c: visioncortex::color_clusters::Clusters) -> (nat, nat);

/// The colours of the output clusters of a finished segmentation, as
/// (red, green, blue, alpha), in the engine's output order.
pub uninterp spec fn output_colors(c: visioncortex::color_clusters::Clusters) -> Seq<
    (u8, u8, u8, u8),
>;

/// Most clusters that the single-colour engine may open on an image: it
/// numbers them in 16 bits.
pub const MAX_OPENED: usize = 65534;

/// Widest and highest image that the single-colour engine takes: it keeps
/// positions in signed 32 bits.
pub const MAX_BINARY_SIDE: usize = 0x7fff_ffff;

/// Most pixels that an image may have for the colour engine, which adds up
/// colour channels and computes its progress in 32 bits.
pub const MAX_COLOR_AREA: usize = 16777216;

/// Whether pixel `i` of the row-major image is foreground.
pub open spec fn dark(bytes: Seq<u8>, i: int) -> bool {
    pixel_of(bytes, i).r < 128
}

/// Whether the engine opens a cluster at pixel `i`: it is foreground, and
/// neither the pixel above it nor the one to its left is.
pub open spec fn opens_cluster(bytes: Seq<u8>, width: int, i: int) -> bool {
    &&& dark(bytes, i)
    &&& !(i >= width && dark(bytes, i - width))
    &&& !(i % width > 0 && dark(bytes, i - 1))
}

/// The pixels among the first `n` at which the engine opens a cluster.
pub open spec fn opened_count(bytes: Seq<u8>, width: int, n: int) -> nat
    decreases n,
{
    if n <= 0 {
        0
    } else {
        opened_count(bytes, width, n - 1) + if opens_cluster(bytes, width, n - 1) {
            1nat
        } else {
            0nat
        }
    }
}

/// Whether the single-colour engine takes the image.
pub open spec fn segmentable(img: PixelBuffer) -> bool {
    &&& img.wf()
    &&& img.width <= MAX_BINARY_SIDE
    &&& img.height <= MAX_BINARY_SIDE
    &&& opened_count(img.pixels@, img.width as int, img.width * img.height) <= MAX_OPENED
}

/// A pixel counts as foreground when its red channel is below 128.
pub fn is_foreground(c: Rgba) -> (r: bool)
    ensures
        r == (c.r < 128),
{
    c.r < 128
}

/// What the engine does with pixels of the key colour.
#[derive(Clone, Copy, Debug, PartialEq, Eq, Structural)]
pub enum Keying {
    Keep,
    Discard,
}

/// The settings of one colour segmentation.
#[derive(Clone, Copy, Debug, PartialEq, Eq, Structural)]
pub struct EngineConfig {
    pub diagonal: bool,
    pub hierarchical: u32,
    pub batch_size: i32,
    pub good_min_area: usize,
    pub good_max_area: usize,
    pub is_same_color_a: i32,
    pub is_same_color_b: i32,
    pub deepen_diff: i32,
    pub hollow_neighbours: usize,
    pub key_color: Rgba,
    pub keying: Keying,
}

/// Whether the engine leaves a pixel of colour `p` out: it does when it was
/// given a key other than transparent black, is told to discard, and `p` is
/// the key.
pub open spec fn discarded(p: Rgba, key: Rgba, keying: Keying) -> bool {
    keying == Keying::Discard && key != no_key() && p == key
}

/// Whether some pixel of the image is not left out.
pub open spec fn has_live_pixel(bytes: Seq<u8>, key: Rgba, keying: Keying) -> bool {
    exists|i: int|
        0 <= i && 4 * i + 3 < bytes.len() && !discarded(#[trigger] pixel_of(bytes, i), key, keying)
}

/// Whether a segmentation in progress has any pixel to cluster.
pub open spec fn engine_feeds(b: IncrementalBuilder) -> bool {
    has_live_pixel(engine_image(b).0, engine_config(b).key_color, engine_config(b).keying)
}

/// Calls `ColorImage::to_binary_image` with `is_foreground` and then
/// `BinaryImage::to_clusters` without diagonal adjacency. The sizes of the
/// clusters are a function of the image alone. The engine opens a cluster
/// only at a foreground pixel that has no foreground pixel above it or to
/// its left, and panics when the number of open clusters no longer fits 16
/// bits, so the number of such pixels is kept below that.
#[verifier::external_body]
pub(crate) fn segment_foreground(img: &PixelBuffer) -> (c: visioncortex::clusters::Clusters)
    requires
        segmentable(*img),
    ensures
        region_sizes(c) == foreground_regions(img.pixels@, img.width as int, img.height as int),
{
    let image = ColorImage { pixels: img.pixels.clone(), width: img.width, height: img.height };
    image.to_binary_image(|c: Color| is_foreground(Rgba { r: c.r, g: c.g, b: c.b, a: c.a }))
        .to_clusters(false)
}

/// `Clusters::default` of the single-colour engine: no cluster at all.
#[verifier::external_body]
pub(crate) fn no_regions() -> (c: visioncortex::clusters::Clusters)
    ensures
        region_sizes(c) == Seq::<nat>::empty(),
{
    visioncortex::clusters::Clusters::default()
}

/// `Clusters::len` of the single-colour engine.
#[verifier::external_body]
pub(crate) fn region_count(c: &visioncortex::clusters::Clusters) -> (n: usize)
    ensures
        n == region_sizes(*c).len(),
{
    c.len()
}

/// `Cluster::size` of cluster `i`, reached by `Clusters::get_cluster`, which
/// indexes a vector and so needs `i` below the count.
#[verifier::external_body]
pub(crate) fn region_size(c: &visioncortex::clusters::Clusters, i: usize) -> (n: usize)
    requires
        i < region_sizes(*c).len(),
    ensures
        n == region_sizes(*c)[i as int],
{
    c.get_cluster(i).size()
}

/// `Runner::new` and `Runner::start`: a segmentation of `img` under `cfg`
/// with no work done yet. The runner asserts that the colour shift is below
/// 8 and shifts by it, so it must be in 0..8; the engine keeps sizes and
/// sums in 32 bits. At the start the result is not taken, and the image and
/// the settings are the ones given.
#[verifier::external_body]
pub(crate) fn start_engine(cfg: &EngineConfig, img: PixelBuffer) -> (b: IncrementalBuilder)
    requires
        img.wf(),
        img.width * img.height <= MAX_COLOR_AREA,
        img.width <= u32::MAX,
        img.height <= u32::MAX,
        0 <= cfg.is_same_color_a < 8,
        0 < cfg.batch_size <= 25600,
    ensures
        engine_open(b),
        engine_image(b) == (img.pixels@, img.width as nat, img.height as nat),
        engine_config(b) == *cfg,
{
    let image = ColorImage { pixels: img.pixels, width: img.width, height: img.height };
    let k = cfg.key_color;
    Runner::new(RunnerConfig {
        diagonal: cfg.diagonal, hierarchical: cfg.hierarchical, batch_size: cfg.batch_size,
        good_min_area: cfg.good_min_area, good_max_area: cfg.good_max_area,
        is_same_color_a: cfg.is_same_color_a, is_same_color_b: cfg.is_same_color_b,
        deepen_diff: cfg.deepen_diff, hollow_neighbours: cfg.hollow_neighbours,
        key_color: Color { r: k.r, g: k.g, b: k.b, a: k.a },
        keying_action: match cfg.keying {
            Keying::Keep => KeyingAction::Keep,
            Keying::Discard => KeyingAction::Discard,
        },
    }, image).start()
}

/// `IncrementalBuilder::tick`: one batch of work, and `false`, while work is
/// left; nothing, and `true`, once none was left before the call, so that
/// the result to be taken is then the same as before. It panics once the
/// result was taken. The image and the settings stay as they were.
#[verifier::external_body]
pub(crate) fn engine_tick(b: &mut IncrementalBuilder) -> (finished: bool)
    requires
        engine_open(*old(b)),
    ensures
        finished == engine_done(*old(b)),
        finished ==> engine_yield(*final(b)) == engine_yield(*old(b)),
        engine_open(*final(b)),
        engine_image(*final(b)) == engine_image(*old(b)),
        engine_config(*final(b)) == engine_config(*old(b)),
{
    b.tick()
}

/// `IncrementalBuilder::progress`. It divides by the number of pixels, and
/// later by the number of distinct cluster sizes, so it is asked only of an
/// engine that has a pixel to cluster. The number is given a name and
/// nothing more is claimed of it.
#[verifier::external_body]
pub(crate) fn engine_progress(b: &IncrementalBuilder) -> (p: u32)
    requires
        engine_feeds(*b),
    ensures
        p == engine_figure(*b),
{
    b.progress()
}

/// `IncrementalBuilder::result`, which panics when taken twice; so the
/// engine is given up here. The clusters are what the engine had to give,
/// and have the size of its image.
#[verifier::external_body]
pub(crate) fn engine_result(b: IncrementalBuilder) -> (c: visioncortex::color_clusters::Clusters)
    requires
        engine_open(b),
    ensures
        (output_colors(c), flat_image(c)) == engine_yield(b),
        clusters_dims(c) == (engine_image(b).1, engine_image(b).2),
{
    let mut b = b;
    b.result()
}

/// `Clusters::output_len` of the colour engine.
#[verifier::external_body]
pub(crate) fn output_len(c: &visioncortex::color_clusters::Clusters) -> (n: usize)
    ensures
        n == output_colors(*c).len(),
{
    c.output_len()
}

/// `Cluster::residue_color` of output cluster `i`, reached through
/// `Clusters::view` and `ClustersView::get_cluster`; `i` indexes the output
/// list.
#[verifier::external_body]
pub(crate) fn output_color(c: &visioncortex::color_clusters::Clusters, i: usize) -> (col: Rgba)
    requires
        i < output_colors(*c).len(),
    ensures
        (col.r, col.g, col.b, col.a) == output_colors(*c)[i as int],
{
    let view = c.view();
    let k = view.get_cluster(view.clusters_output[i]).residue_color();
    Rgba { r: k.r, g: k.g, b: k.b, a: k.a }
}

/// `ClustersView::to_color_image`: every output cluster painted in its
/// colour, on an image of the size that was segmented, four bytes a pixel.
#[verifier::external_body]
pub(crate) fn flatten(c: &visioncortex::color_clusters::Clusters) -> (img: PixelBuffer)
    ensures
        img.wf(),
        img.pixels@ == flat_image(*c),
        (img.width as nat, img.height as nat) == clusters_dims(*c),
{
    let image = c.view().to_color_image();
    PixelBuffer { pixels: image.pixels, width: image.width, height: image.height }
}

} // verus!
