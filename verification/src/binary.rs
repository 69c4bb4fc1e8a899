//! The single-colour converter: one segmentation at the start, then one
//! cluster per tick.

use crate::document::{document_of, lemma_prepend_is_emit, Document, PathEntry};
use crate::engine::{
    dark, foreground_regions, is_foreground, no_regions, opened_count, opens_cluster,
    region_count, region_size, region_sizes, segment_foreground, segmentable, MAX_BINARY_SIDE,
    MAX_OPENED,
};
use crate::keying::{pixel_of, PixelBuffer, Rgba};
use vstd::prelude::*;

verus! {

/// What the single-colour converter reads of its settings.
#[derive(Clone, Copy, Debug, PartialEq, Eq, Structural)]
pub struct BinaryImageConverterParams {
    /// Clusters of fewer pixels are left out of the document.
    pub filter_speckle: usize,
    /// Decimals kept in the coordinates of a path.
    pub path_precision: u32,
}

/// The colour of every path of a single-colour document: opaque black.
pub open spec fn foreground_color() -> Rgba {
    Rgba { r: 0, g: 0, b: 0, a: 255 }
}

/// The entry that cluster `i` gives.
pub open spec fn binary_entry(i: int, params: BinaryImageConverterParams) -> PathEntry {
    PathEntry { cluster: i as usize, color: foreground_color(), precision: params.path_precision }
}

/// The entries that the first `k` clusters give, in the order of emission:
/// one for each cluster that is no speckle.
pub open spec fn binary_emitted(
    sizes: Seq<nat>,
    params: BinaryImageConverterParams,
    k: int,
) -> Seq<PathEntry>
    decreases k,
{
    if k <= 0 {
        Seq::empty()
    } else if sizes[k - 1] >= params.filter_speckle {
        binary_emitted(sizes, params, k - 1).push(binary_entry(k - 1, params))
    } else {
        binary_emitted(sizes, params, k - 1)
    }
}

/// One tick on a cursor over `n` clusters: the cursor after it, and whether
/// the tick reported the end.
pub open spec fn cursor_step(cursor: int, n: int) -> (int, bool) {
    if cursor < n {
        (cursor + 1, false)
    } else {
        (cursor, true)
    }
}

/// The cursor after `k` ticks from 0.
pub open spec fn cursor_after(n: int, k: nat) -> int
    decreases k,
{
    if k == 0 {
        0
    } else {
        cursor_step(cursor_after(n, (k - 1) as nat), n).0
    }
}

/// Completion in percent of a cursor over `n` clusters.
pub open spec fn binary_progress(cursor: int, n: int) -> int {
    if n == 0 {
        100
    } else {
        100 * cursor / n
    }
}

/// Whether pixel `i` of the image is foreground.
fn is_dark(img: &PixelBuffer, i: usize) -> (r: bool)
    requires
        4 * i + 3 < img.pixels@.len(),
    ensures
        r == dark(img.pixels@, i as int),
{
    let len: usize = img.pixels.len();
    let k: usize = 4 * i;
    is_foreground(
        Rgba { r: img.pixels[k], g: img.pixels[k + 1], b: img.pixels[k + 2], a: img.pixels[k + 3] },
    )
}

/// Counts the pixels at which the engine opens a cluster: the foreground
/// pixels that have no foreground pixel above them or to their left.
pub fn count_opened(img: &PixelBuffer) -> (count: usize)
    requires
        img.wf(),
    ensures
        count == opened_count(img.pixels@, img.width as int, img.width * img.height),
{
    let n: usize = img.pixels.len() / 4;
    let width: usize = img.width;
    proof {
        assert(img.width == 0 ==> img.width * img.height * 4 == 0) by (nonlinear_arith);
    }
    let mut count: usize = 0;
    let mut i: usize = 0;
    while i < n
        invariant
            i <= n,
            n == img.pixels@.len() / 4,
            img.pixels@.len() == n * 4,
            img.pixels@.len() <= usize::MAX,
            width == img.width,
            n > 0 ==> width > 0,
            count <= i,
            count == opened_count(img.pixels@, width as int, i as int),
        decreases n - i,
    {
        let here = is_dark(img, i);
        let above = i >= width && is_dark(img, i - width);
        let left = i > 0 && i % width > 0 && is_dark(img, i - 1);
        proof {
            let w = width as int;
            assert(0int % w == 0) by (nonlinear_arith)
                requires
                    w > 0,
            ;
            assert(opens_cluster(img.pixels@, w, i as int) == (here && !above && !left));
        }
        if here && !above && !left {
            count += 1;
        }
        i += 1;
    }
    count
}

/// Whether the engine takes the image: its sides and the number of clusters
/// that the engine opens on it are within the engine's limits.
pub fn can_segment(img: &PixelBuffer) -> (r: bool)
    requires
        img.wf(),
    ensures
        r == segmentable(*img),
{
    img.width <= MAX_BINARY_SIDE && img.height <= MAX_BINARY_SIDE && count_opened(img)
        <= MAX_OPENED
}

/// A raster image on its way to a single-colour document.
pub struct BinaryImageConverter {
    clusters: visioncortex::clusters::Clusters,
    counter: usize,
    params: BinaryImageConverterParams,
    document: Document,
    /// Whether `init` has given the converter an image.
    ready: bool,
    /// The document as `init` last found it.
    base: Ghost<Seq<PathEntry>>,
}

impl BinaryImageConverter {
    /// The sizes of the clusters, in the engine's order.
    pub closed spec fn sizes(&self) -> Seq<nat> {
        region_sizes(self.clusters)
    }

    /// How many clusters were dealt with.
    pub closed spec fn cursor(&self) -> int {
        self.counter as int
    }

    /// The settings.
    pub closed spec fn params(&self) -> BinaryImageConverterParams {
        self.params
    }

    /// The document so far.
    pub closed spec fn document(&self) -> Seq<PathEntry> {
        self.document@
    }

    /// The document as the last `init` found it; empty before any `init`.
    pub closed spec fn base(&self) -> Seq<PathEntry> {
        self.base@
    }

    /// Whether `init` has given the converter an image.
    pub closed spec fn initialized(&self) -> bool {
        self.ready
    }

    /// The cursor is within the cluster list, and the document holds, in
    /// front of what it held at the last `init`, what the clusters before
    /// the cursor gave, and nothing else.
    pub closed spec fn wf(&self) -> bool {
        &&& 0 <= self.counter <= self.sizes().len()
        &&& self.document@ == document_of(
            binary_emitted(self.sizes(), self.params, self.counter as int),
        ) + self.base@
    }

    /// Completion in percent, as `progress` returns it.
    pub open spec fn spec_progress(&self) -> int {
        binary_progress(self.cursor(), self.sizes().len() as int)
    }

    /// At every moment the document is its emissions since the last `init`
    /// read backwards, in front of what it held then: one entry for each
    /// cluster before the cursor that is no speckle, the latest first, and no
    /// cluster twice.
    pub proof fn lemma_document(&self)
        requires
            self.wf(),
        ensures
            0 <= self.cursor() <= self.sizes().len(),
            self.document() == document_of(
                binary_emitted(self.sizes(), self.params(), self.cursor()),
            ) + self.base(),
    {
    }

    /// Whether every cluster was dealt with.
    pub open spec fn finished(&self) -> bool {
        self.cursor() == self.sizes().len()
    }

    /// A converter that has no image yet, and so no cluster.
    pub fn new(params: BinaryImageConverterParams) -> (c: BinaryImageConverter)
        ensures
            c.wf(),
            c.params() == params,
            c.cursor() == 0,
            c.sizes() == Seq::<nat>::empty(),
            c.document() == Seq::<PathEntry>::empty(),
            c.base() == Seq::<PathEntry>::empty(),
            !c.initialized(),
    {
        BinaryImageConverter {
            clusters: no_regions(),
            counter: 0,
            params,
            document: Document::new(),
            ready: false,
            base: Ghost(Seq::empty()),
        }
    }

    /// A converter for an image given as row-major RGBA bytes, segmented and
    /// ready for its first tick.
    pub fn from_bytes(
        bytes: &[u8],
        width: usize,
        height: usize,
        params: BinaryImageConverterParams,
    ) -> (c: BinaryImageConverter)
        requires
            bytes@.len() == width * height * 4,
            width <= MAX_BINARY_SIDE,
            height <= MAX_BINARY_SIDE,
            opened_count(bytes@, width as int, width * height) <= MAX_OPENED,
        ensures
            c.wf(),
            c.params() == params,
            c.cursor() == 0,
            c.sizes() == foreground_regions(bytes@, width as int, height as int),
            c.document() == Seq::<PathEntry>::empty(),
            c.base() == Seq::<PathEntry>::empty(),
            c.initialized(),
    {
        let mut c = BinaryImageConverter::new(params);
        c.init(PixelBuffer::copy_of(bytes, width, height));
        c
    }

    /// Segments the foreground of `image` and puts the cursor in front of
    /// its first cluster. The document stays as it is: what is emitted from
    /// here on goes in front of it.
    pub fn init(&mut self, image: PixelBuffer)
        requires
            segmentable(image),
        ensures
            final(self).wf(),
            final(self).initialized(),
            final(self).params() == old(self).params(),
            final(self).cursor() == 0,
            final(self).sizes() == foreground_regions(
                image.pixels@,
                image.width as int,
                image.height as int,
            ),
            final(self).document() == old(self).document(),
            final(self).base() == old(self).document(),
    {
        self.clusters = segment_foreground(&image);
        self.counter = 0;
        self.ready = true;
        self.base = Ghost(self.document@);
        proof {
            assert(self.document@ =~= document_of(
                binary_emitted(self.sizes(), self.params, 0),
            ) + self.base@);
        }
    }

    /// One unit of work. While clusters are left, the next one is looked at,
    /// entered in front of the document unless it is a speckle, and the
    /// cursor moves on; the result is `false`. After the last cluster
    /// nothing changes any more and the result is `true`. A converter
    /// without an image must not be ticked.
    pub fn tick(&mut self) -> (done: bool)
        requires
            old(self).wf(),
            old(self).initialized(),
        ensures
            final(self).wf(),
            final(self).initialized(),
            final(self).base() == old(self).base(),
            old(self).cursor() <= final(self).cursor() <= final(self).sizes().len(),
            final(self).params() == old(self).params(),
            final(self).sizes() == old(self).sizes(),
            (final(self).cursor(), done) == cursor_step(
                old(self).cursor(),
                old(self).sizes().len() as int,
            ),
            final(self).spec_progress() >= old(self).spec_progress(),
            done ==> final(self).document() == old(self).document() && final(self).spec_progress()
                == 100,
            !done ==> final(self).document() == (if old(self).sizes()[old(self).cursor()] >= old(
                self,
            ).params().filter_speckle {
                seq![binary_entry(old(self).cursor(), old(self).params())] + old(self).document()
            } else {
                old(self).document()
            }),
    {
        let n = region_count(&self.clusters);
        proof {
            lemma_binary_progress(self.counter as int, self.counter as int, n as int);
        }
        if self.counter < n {
            proof {
                lemma_binary_progress(self.counter as int, self.counter + 1, n as int);
            }
            let size = region_size(&self.clusters, self.counter);
            if size >= self.params.filter_speckle {
                let entry = PathEntry {
                    cluster: self.counter,
                    color: Rgba::new(0, 0, 0),
                    precision: self.params.path_precision,
                };
                proof {
                    let emitted = binary_emitted(self.sizes(), self.params, self.counter as int);
                    lemma_prepend_is_emit(emitted, entry);
                    assert(seq![entry] + (document_of(emitted) + self.base@) =~= (seq![entry]
                        + document_of(emitted)) + self.base@);
                }
                self.document.prepend(entry);
            }
            self.counter += 1;
            false
        } else {
            true
        }
    }

    /// Completion in percent: 100 without clusters, else the share of
    /// clusters dealt with, rounded down.
    pub fn progress(&self) -> (p: u32)
        requires
            self.wf(),
        ensures
            p == self.spec_progress(),
            p <= 100,
            self.finished() ==> p == 100,
    {
        let n = region_count(&self.clusters);
        proof {
            lemma_binary_progress(self.counter as int, self.counter as int, n as int);
        }
        if n == 0 {
            100
        } else {
            let c: u128 = 100 * (self.counter as u128);
            (c / (n as u128)) as u32
        }
    }

    /// The document so far, first entry first.
    pub fn entries(&self) -> (v: Vec<PathEntry>)
        ensures
            v@ == self.document(),
    {
        self.document.to_vec()
    }

    /// The segmentation: the entries of the document name its clusters by
    /// position.
    pub fn clusters(&self) -> (c: &visioncortex::clusters::Clusters)
        ensures
            region_sizes(*c) == self.sizes(),
    {
        &self.clusters
    }

    /// Whether `init` has given the converter an image, so that it can be
    /// ticked.
    pub fn is_initialized(&self) -> (r: bool)
        ensures
            r == self.initialized(),
    {
        self.ready
    }

    /// Number of clusters.
    pub fn cluster_count(&self) -> (n: usize)
        ensures
            n == self.sizes().len(),
    {
        region_count(&self.clusters)
    }
}

/// Progress never falls as the cursor moves on, stays within 0 to 100, and
/// is 100 when the cursor has reached the end.
pub proof fn lemma_binary_progress(c1: int, c2: int, n: int)
    requires
        0 <= c1 <= c2 <= n,
    ensures
        0 <= binary_progress(c1, n) <= binary_progress(c2, n) <= 100,
        binary_progress(n, n) == 100,
{
    if n > 0 {
        assert(100 * c1 / n <= 100 * c2 / n) by (nonlinear_arith)
            requires
                0 <= c1 <= c2,
                n > 0,
        ;
        assert(100 * c2 / n <= 100 * n / n) by (nonlinear_arith)
            requires
                0 <= c2 <= n,
                n > 0,
        ;
        assert(100 * n / n == 100) by (nonlinear_arith)
            requires
                n > 0,
        ;
        assert(0 <= 100 * c1 / n) by (nonlinear_arith)
            requires
                0 <= c1,
                n > 0,
        ;
    }
}

/// From a fresh converter over `n` clusters, the cursor after `k` ticks is
/// the smaller of `k` and `n`: each of the first `n` ticks takes one
/// cluster, the next in line, and reports `false`; tick `n + 1` is the first
/// to report `true`, and every tick from there on does the same and moves
/// nothing.
pub proof fn lemma_ticks_until_done(n: nat, k: nat)
    ensures
        cursor_after(n as int, k) == (if k <= n {
            k as int
        } else {
            n as int
        }),
        cursor_step(cursor_after(n as int, k), n as int).1 == (k >= n),
    decreases k,
{
    if k > 0 {
        lemma_ticks_until_done(n, (k - 1) as nat);
    }
}

} // verus!
