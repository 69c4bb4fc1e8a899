//! The multi-colour converter: keying, one or two segmentations that run a
//! batch per tick, then one cluster per tick.

use crate::document::{document_of, lemma_prepend_is_emit, Document, PathEntry};
use crate::engine::{
    discarded, engine_config, engine_done, engine_feeds, engine_yield, engine_figure, engine_image, engine_open,
    engine_progress, engine_result, engine_tick, flatten, has_live_pixel, output_color,
    output_colors, output_len, start_engine, EngineConfig, Keying, MAX_COLOR_AREA,
};
use crate::keying::{
    all_candidates_used, key_outcome, key_transparent, no_key, pixel_of, PixelBuffer, Raster, Rgba,
};
use visioncortex::color_clusters::IncrementalBuilder;
use vstd::prelude::*;

verus! {

/// What the multi-colour converter reads of its settings.
#[derive(Clone, Debug)]
pub struct ColorImageConverterParams {
    /// `"cutout"` asks for a second segmentation of the flattened first one;
    /// every other value, such as `"stacked"`, for the first one alone.
    pub hierarchical: String,
    /// Smallest area of a region that the first segmentation keeps.
    pub filter_speckle: usize,
    /// By how many bits colour channels are shortened before they are
    /// compared; from 0 to 7.
    pub color_precision: i32,
    /// Colour difference between layers; 0 also switches diagonal adjacency on.
    pub layer_difference: i32,
    /// Decimals kept in the coordinates of a path.
    pub path_precision: u32,
}

/// The work of one engine tick.
pub const BATCH_SIZE: i32 = 25600;

/// The depth that stands for "as deep as it goes".
pub const HIERARCHICAL_MAX: u32 = 0xffff_ffff;

/// The depth of the second segmentation.
pub const RECLUSTER_DEPTH: u32 = 64;

/// Whether the settings ask for the second segmentation.
pub open spec fn is_cutout(hierarchical: Seq<char>) -> bool {
    hierarchical == "cutout"@
}

/// The engine settings of the first segmentation.
pub open spec fn first_pass(
    cutout: bool,
    filter_speckle: usize,
    color_precision: i32,
    layer_difference: i32,
    area: usize,
    key: Rgba,
) -> EngineConfig {
    EngineConfig {
        diagonal: layer_difference == 0,
        hierarchical: HIERARCHICAL_MAX,
        batch_size: BATCH_SIZE,
        good_min_area: filter_speckle,
        good_max_area: area,
        is_same_color_a: color_precision,
        is_same_color_b: 1,
        deepen_diff: layer_difference,
        hollow_neighbours: 1,
        key_color: key,
        keying: if cutout {
            Keying::Keep
        } else {
            Keying::Discard
        },
    }
}

/// The engine settings of the second segmentation: exact colours, no
/// diagonal adjacency, no smallest area, nothing keyed.
pub open spec fn second_pass(area: usize) -> EngineConfig {
    EngineConfig {
        diagonal: false,
        hierarchical: RECLUSTER_DEPTH,
        batch_size: BATCH_SIZE,
        good_min_area: 0,
        good_max_area: area,
        is_same_color_a: 0,
        is_same_color_b: 1,
        deepen_diff: 0,
        hollow_neighbours: 0,
        key_color: no_key(),
        keying: Keying::Discard,
    }
}

/// Builds the settings of the first segmentation.
pub fn first_pass_config(params: &ColorImageConverterParams, area: usize, key: Rgba) -> (cfg:
    EngineConfig)
    ensures
        cfg == first_pass(
            is_cutout(params.hierarchical@),
            params.filter_speckle,
            params.color_precision,
            params.layer_difference,
            area,
            key,
        ),
{
    EngineConfig {
        diagonal: params.layer_difference == 0,
        hierarchical: HIERARCHICAL_MAX,
        batch_size: BATCH_SIZE,
        good_min_area: params.filter_speckle,
        good_max_area: area,
        is_same_color_a: params.color_precision,
        is_same_color_b: 1,
        deepen_diff: params.layer_difference,
        hollow_neighbours: 1,
        key_color: key,
        keying: if wants_cutout(params) {
            Keying::Keep
        } else {
            Keying::Discard
        },
    }
}

/// Builds the settings of the second segmentation.
pub fn second_pass_config(area: usize) -> (cfg: EngineConfig)
    ensures
        cfg == second_pass(area),
{
    EngineConfig {
        diagonal: false,
        hierarchical: RECLUSTER_DEPTH,
        batch_size: BATCH_SIZE,
        good_min_area: 0,
        good_max_area: area,
        is_same_color_a: 0,
        is_same_color_b: 1,
        deepen_diff: 0,
        hollow_neighbours: 0,
        key_color: Rgba::transparent_black(),
        keying: Keying::Discard,
    }
}

/// Whether the settings ask for the second segmentation.
pub fn wants_cutout(params: &ColorImageConverterParams) -> (r: bool)
    ensures
        r == is_cutout(params.hierarchical@),
{
    let cutout: String = "cutout".to_owned();
    params.hierarchical == cutout
}

/// Whether the engine would cluster any pixel of the image.
pub fn any_live_pixel(img: &PixelBuffer, key: Rgba, keying: Keying) -> (r: bool)
    requires
        img.wf(),
    ensures
        r == has_live_pixel(img.pixels@, key, keying),
{
    let n: usize = img.pixels.len() / 4;
    let skip: bool = keying == Keying::Discard && key != Rgba::transparent_black();
    let mut i: usize = 0;
    while i < n
        invariant
            i <= n,
            n == img.pixels@.len() / 4,
            img.pixels@.len() <= usize::MAX,
            skip == (keying == Keying::Discard && key != no_key()),
            forall|j: int| 0 <= j < i ==> discarded(#[trigger] pixel_of(img.pixels@, j), key, keying),
        decreases n - i,
    {
        let k: usize = 4 * i;
        let p = Rgba {
            r: img.pixels[k],
            g: img.pixels[k + 1],
            b: img.pixels[k + 2],
            a: img.pixels[k + 3],
        };
        if !(skip && p == key) {
            assert(!discarded(pixel_of(img.pixels@, i as int), key, keying));
            return true;
        }
        i += 1;
    }
    false
}

/// Whether the colour engine takes the image under the settings: it has at
/// most `MAX_COLOR_AREA` pixels, its sides fit 32 bits, and the colour
/// precision is a shift of 0 to 7 bits.
pub open spec fn convertible(img: PixelBuffer, color_precision: i32) -> bool {
    &&& img.wf()
    &&& img.width * img.height <= MAX_COLOR_AREA
    &&& img.width <= u32::MAX
    &&& img.height <= u32::MAX
    &&& 0 <= color_precision < 8
}

/// Tests whether the colour engine takes the image under the settings.
pub fn can_convert(img: &PixelBuffer, params: &ColorImageConverterParams) -> (r: bool)
    requires
        img.wf(),
    ensures
        r == convertible(*img, params.color_precision),
{
    img.pixels.len() / 4 <= MAX_COLOR_AREA && img.width <= 0xffff_ffff && img.height
        <= 0xffff_ffff && 0 <= params.color_precision && params.color_precision < 8
}

/// Keys the image where it asks for it and builds the settings of the first
/// segmentation for it: what the engine is started on.
pub fn prepare(params: &ColorImageConverterParams, image: &mut PixelBuffer) -> (cfg: EngineConfig)
    requires
        old(image).wf(),
    ensures
        final(image).wf(),
        final(image).width == old(image).width,
        final(image).height == old(image).height,
        final(image).pixels@ == key_outcome(old(image)@).1,
        all_candidates_used(old(image).pixels@) ==> cfg.key_color == no_key()
            && final(image).pixels@ == old(image).pixels@,
        cfg == first_pass(
            is_cutout(params.hierarchical@),
            params.filter_speckle,
            params.color_precision,
            params.layer_difference,
            (old(image).pixels@.len() / 4) as usize,
            key_outcome(old(image)@).0,
        ),
{
    let key = key_transparent(image);
    let area: usize = image.pixels.len() / 4;
    first_pass_config(params, area, key)
}

/// The stage of a conversion, with what the stage works on.
pub enum Stage {
    New,
    Clustering(IncrementalBuilder),
    Reclustering(IncrementalBuilder),
    Vectorize(visioncortex::color_clusters::Clusters),
}

/// The stage of a conversion, by name.
#[derive(Clone, Copy, Debug, PartialEq, Eq, Structural)]
pub enum Phase {
    New,
    Clustering,
    Reclustering,
    Vectorize,
}

/// The phase after a tick in `phase`. `finished` is what the engine said
/// when it was ticked; it plays no part once the clusters are emitted.
pub open spec fn phase_after(phase: Phase, finished: bool, cutout: bool) -> Phase {
    match phase {
        Phase::New => Phase::New,
        Phase::Clustering => if !finished {
            Phase::Clustering
        } else if cutout {
            Phase::Reclustering
        } else {
            Phase::Vectorize
        },
        Phase::Reclustering => if finished {
            Phase::Vectorize
        } else {
            Phase::Reclustering
        },
        Phase::Vectorize => Phase::Vectorize,
    }
}

/// The phase that follows on one tick, given what the engine said.
pub fn next_phase(phase: Phase, finished: bool, cutout: bool) -> (next: Phase)
    ensures
        next == phase_after(phase, finished, cutout),
{
    match phase {
        Phase::New => Phase::New,
        Phase::Clustering => if !finished {
            Phase::Clustering
        } else if cutout {
            Phase::Reclustering
        } else {
            Phase::Vectorize
        },
        Phase::Reclustering => if finished {
            Phase::Vectorize
        } else {
            Phase::Reclustering
        },
        Phase::Vectorize => Phase::Vectorize,
    }
}

/// Completion in percent. The first segmentation fills the lower half with
/// half of the engine's own figure, the second one stands at 50, and the
/// clusters fill the upper half; without clusters there is nothing left to
/// do.
pub open spec fn color_progress(phase: Phase, engine: int, cursor: int, n: int) -> int {
    match phase {
        Phase::New => 0,
        Phase::Clustering => engine / 2,
        Phase::Reclustering => 50,
        Phase::Vectorize => if n == 0 {
            100
        } else {
            50 + 50 * cursor / n
        },
    }
}

/// The entry that output cluster `i` gives.
pub open spec fn color_entry(colors: Seq<(u8, u8, u8, u8)>, precision: u32, i: int) -> PathEntry {
    PathEntry {
        cluster: i as usize,
        color: Rgba { r: colors[i].0, g: colors[i].1, b: colors[i].2, a: colors[i].3 },
        precision,
    }
}

/// The entries of the first `k` output clusters, in the order of emission.
pub open spec fn color_emitted(colors: Seq<(u8, u8, u8, u8)>, precision: u32, k: int) -> Seq<
    PathEntry,
>
    decreases k,
{
    if k <= 0 {
        Seq::empty()
    } else {
        color_emitted(colors, precision, k - 1).push(color_entry(colors, precision, k - 1))
    }
}

/// A raster image on its way to a multi-colour document.
pub struct ColorImageConverter {
    stage: Stage,
    counter: usize,
    params: ColorImageConverterParams,
    document: Document,
    /// The highest figure that the first segmentation has reported, at most 100.
    clustered: u32,
    /// Whether the engine at work has a pixel to cluster, so that it can be
    /// asked for its figure.
    measurable: bool,
    /// The document as `init` last found it.
    base: Ghost<Seq<PathEntry>>,
}

/// Whether an engine can be handed on to the second segmentation.
pub open spec fn engine_fits(b: IncrementalBuilder) -> bool {
    &&& engine_open(b)
    &&& engine_image(b).1 * engine_image(b).2 <= MAX_COLOR_AREA
    &&& engine_image(b).1 <= u32::MAX
    &&& engine_image(b).2 <= u32::MAX
}

/// An engine figure cut off at 100.
pub open spec fn capped(p: int) -> int {
    if p > 100 {
        100
    } else {
        p
    }
}

/// The figure of the first segmentation once engine `b` was asked: the
/// highest so far, where the engine has a pixel to cluster and so can be
/// asked at all.
pub open spec fn figure_after(before: int, b: IncrementalBuilder) -> int {
    if engine_feeds(b) && capped(engine_figure(b) as int) > before {
        capped(engine_figure(b) as int)
    } else {
        before
    }
}

impl ColorImageConverter {
    /// The stage by name.
    pub closed spec fn phase(&self) -> Phase {
        match self.stage {
            Stage::New => Phase::New,
            Stage::Clustering(_) => Phase::Clustering,
            Stage::Reclustering(_) => Phase::Reclustering,
            Stage::Vectorize(_) => Phase::Vectorize,
        }
    }

    /// The engine at work, during a segmentation.
    pub closed spec fn engine(&self) -> Option<IncrementalBuilder> {
        match self.stage {
            Stage::Clustering(b) => Some(b),
            Stage::Reclustering(b) => Some(b),
            _ => None,
        }
    }

    /// Whether the engine at work had no work left. It is the engine that
    /// decides this; a converter that runs no engine has none to ask.
    pub closed spec fn engine_was_done(&self) -> bool {
        match self.stage {
            Stage::Clustering(b) => engine_done(b),
            Stage::Reclustering(b) => engine_done(b),
            _ => false,
        }
    }

    /// What the engine at work has to give when it is done: the colours of
    /// its output clusters, and the bytes of their flattened image.
    pub closed spec fn engine_gives(&self) -> (Seq<(u8, u8, u8, u8)>, Seq<u8>) {
        match self.stage {
            Stage::Clustering(b) => engine_yield(b),
            Stage::Reclustering(b) => engine_yield(b),
            _ => (Seq::empty(), Seq::empty()),
        }
    }

    /// The colours of the output clusters; none before the last stage.
    pub closed spec fn colors(&self) -> Seq<(u8, u8, u8, u8)> {
        match self.stage {
            Stage::Vectorize(c) => output_colors(c),
            _ => Seq::empty(),
        }
    }

    /// How many clusters were emitted.
    pub closed spec fn cursor(&self) -> int {
        self.counter as int
    }

    /// The settings.
    pub closed spec fn params(&self) -> ColorImageConverterParams {
        self.params
    }

    /// The document so far.
    pub closed spec fn document(&self) -> Seq<PathEntry> {
        self.document@
    }

    /// The document as the last `init` found it; empty before any `init`.
    pub closed spec fn base(&self) -> Seq<PathEntry> {
        self.base@
    }

    /// The highest figure, from 0 to 100, that the first segmentation reported.
    pub closed spec fn clustered(&self) -> int {
        self.clustered as int
    }

    /// Completion in percent, as `progress` returns it.
    pub open spec fn spec_progress(&self) -> int {
        color_progress(self.phase(), self.clustered(), self.cursor(), self.colors().len() as int)
    }

    /// At every moment the document is its emissions since the last `init`
    /// read backwards, in front of what it held then: one entry for each
    /// output cluster before the cursor, the latest first. Before the last
    /// stage there are no output clusters, so the cursor is 0 and the
    /// document is what it was at `init`. An engine is at work during the two
    /// segmentations and at no other time.
    pub proof fn lemma_document(&self)
        requires
            self.wf(),
        ensures
            0 <= self.cursor() <= self.colors().len(),
            0 <= self.clustered() <= 100,
            self.document() == document_of(
                color_emitted(self.colors(), self.params().path_precision, self.cursor()),
            ) + self.base(),
            self.phase() != Phase::Vectorize ==> self.colors() == Seq::<(u8, u8, u8, u8)>::empty()
                && self.cursor() == 0 && self.document() == self.base(),
            self.engine().is_some() == (self.phase() == Phase::Clustering || self.phase()
                == Phase::Reclustering),
            self.phase() == Phase::New ==> self.spec_progress() == 0,
    {
        assert(document_of(
            color_emitted(self.colors(), self.params().path_precision, 0),
        ) + self.base() =~= self.base());
    }

    /// Whether nothing is left to do.
    pub open spec fn finished(&self) -> bool {
        self.phase() == Phase::Vectorize && self.cursor() == self.colors().len()
    }

    /// The cursor is within the output clusters and moves only in the last
    /// stage; the document holds what the clusters before the cursor gave; an
    /// engine at work has not given its result yet.
    pub closed spec fn wf(&self) -> bool {
        &&& self.clustered <= 100
        &&& 0 <= self.counter <= self.colors().len()
        &&& self.document@ == document_of(
            color_emitted(self.colors(), self.params.path_precision, self.counter as int),
        ) + self.base@
        &&& match self.stage {
            Stage::New => true,
            Stage::Clustering(b) => engine_fits(b) && self.measurable == engine_feeds(b),
            Stage::Reclustering(b) => engine_open(b),
            Stage::Vectorize(_) => true,
        }
    }

    /// A converter that has no image yet.
    pub fn new(params: ColorImageConverterParams) -> (c: ColorImageConverter)
        ensures
            c.wf(),
            c.params() == params,
            c.phase() == Phase::New,
            c.cursor() == 0,
            c.document() == Seq::<PathEntry>::empty(),
            c.base() == Seq::<PathEntry>::empty(),
            c.spec_progress() == 0,
    {
        ColorImageConverter {
            stage: Stage::New,
            counter: 0,
            params,
            document: Document::new(),
            clustered: 0,
            measurable: false,
            base: Ghost(Seq::empty()),
        }
    }

    /// A converter for an image given as row-major RGBA bytes, keyed and with
    /// its first segmentation started.
    pub fn from_bytes(
        image_data: &[u8],
        width: usize,
        height: usize,
        params: ColorImageConverterParams,
    ) -> (c: ColorImageConverter)
        requires
            image_data@.len() == width * height * 4,
            width * height <= MAX_COLOR_AREA,
            width <= u32::MAX,
            height <= u32::MAX,
            0 <= params.color_precision < 8,
        ensures
            c.wf(),
            c.params() == params,
            c.phase() == Phase::Clustering,
            c.cursor() == 0,
            c.document() == Seq::<PathEntry>::empty(),
            c.base() == Seq::<PathEntry>::empty(),
            0 <= c.spec_progress() <= 50,
            c.engine() matches Some(b) && engine_image(b) == (
                key_outcome(
                    (Raster { pixels: image_data@, width: width as nat, height: height as nat }),
                ).1,
                width as nat,
                height as nat,
            ) && engine_config(b) == first_pass(
                is_cutout(params.hierarchical@),
                params.filter_speckle,
                params.color_precision,
                params.layer_difference,
                (image_data@.len() / 4) as usize,
                key_outcome(
                    (Raster { pixels: image_data@, width: width as nat, height: height as nat }),
                ).0,
            ) && c.clustered() == figure_after(0, b),
    {
        let mut c = ColorImageConverter::new(params);
        c.init(PixelBuffer::copy_of(image_data, width, height));
        c
    }

    /// Keys the image where it asks for it, and starts the first
    /// segmentation on it. The document stays as it is: what is emitted from
    /// here on goes in front of it.
    pub fn init(&mut self, image: PixelBuffer)
        requires
            convertible(image, old(self).params().color_precision),
        ensures
            final(self).wf(),
            final(self).params() == old(self).params(),
            final(self).phase() == Phase::Clustering,
            final(self).cursor() == 0,
            final(self).document() == old(self).document(),
            final(self).base() == old(self).document(),
            0 <= final(self).spec_progress() <= 50,
            final(self).engine() matches Some(b) && engine_image(b) == (
                key_outcome(image@).1,
                image.width as nat,
                image.height as nat,
            ) && engine_config(b) == first_pass(
                is_cutout(old(self).params().hierarchical@),
                old(self).params().filter_speckle,
                old(self).params().color_precision,
                old(self).params().layer_difference,
                (image.pixels@.len() / 4) as usize,
                key_outcome(image@).0,
            ) && final(self).clustered() == figure_after(0, b),
    {
        let mut image = image;
        let cfg = prepare(&self.params, &mut image);
        let measurable = any_live_pixel(&image, cfg.key_color, cfg.keying);
        let builder = start_engine(&cfg, image);
        let mut clustered: u32 = 0;
        if measurable {
            clustered = percent(engine_progress(&builder));
        }
        self.stage = Stage::Clustering(builder);
        self.counter = 0;
        self.base = Ghost(self.document@);
        self.clustered = clustered;
        self.measurable = measurable;
        proof {
            assert(self.document@ =~= document_of(
                color_emitted(self.colors(), self.params.path_precision, 0),
            ) + self.base@);
        }
    }

    /// One unit of work, never more. During a segmentation the engine does
    /// one batch, and the stage changes only when the engine says that it
    /// has finished: after the first segmentation to the second one if the
    /// settings say `"cutout"`, else to the clusters; after the second one to
    /// the clusters. The result is then `false`. Among the clusters, one
    /// cluster is entered in front of the document while any is left, with
    /// the result `false`; after the last one nothing changes any more and
    /// the result is `true`. A converter without an image must not be ticked.
    pub fn tick(&mut self) -> (done: bool)
        requires
            old(self).wf(),
            old(self).phase() != Phase::New,
        ensures
            final(self).wf(),
            final(self).params() == old(self).params(),
            final(self).base() == old(self).base(),
            old(self).cursor() <= final(self).cursor() <= final(self).colors().len(),
            final(self).phase() == phase_after(
                old(self).phase(),
                old(self).engine_was_done(),
                is_cutout(old(self).params().hierarchical@),
            ),
            final(self).spec_progress() >= old(self).spec_progress(),
            final(self).clustered() >= old(self).clustered(),
            final(self).phase() == old(self).phase() ==> match (old(self).engine(), final(self).engine()) {
                (Some(before), Some(after)) => engine_image(after) == engine_image(before)
                    && engine_config(after) == engine_config(before) && (old(self).phase()
                    == Phase::Clustering ==> final(self).clustered() == figure_after(
                    old(self).clustered(),
                    after,
                )),
                (None, None) => true,
                _ => false,
            },
            final(self).phase() == Phase::Reclustering && old(self).phase() == Phase::Clustering
                ==> match (old(self).engine(), final(self).engine()) {
                (Some(before), Some(after)) => engine_image(after) == (
                    old(self).engine_gives().1,
                    engine_image(before).1,
                    engine_image(before).2,
                ) && engine_config(after) == second_pass(
                    (engine_image(before).1 * engine_image(before).2) as usize,
                ),
                _ => false,
            },
            final(self).phase() == Phase::Vectorize && old(self).phase() != Phase::Vectorize
                ==> final(self).colors() == old(self).engine_gives().0,
            old(self).phase() != Phase::Vectorize ==> !done && old(self).cursor() == 0
                && final(self).cursor() == 0 && final(self).document() == old(self).document(),
            old(self).phase() == Phase::Vectorize ==> final(self).colors() == old(self).colors()
                && (final(self).cursor(), done) == crate::binary::cursor_step(
                old(self).cursor(),
                old(self).colors().len() as int,
            ),
            done ==> final(self).document() == old(self).document() && final(self).spec_progress()
                == 100,
            old(self).phase() == Phase::Vectorize && !done ==> final(self).document() == seq![
                color_entry(
                    old(self).colors(),
                    old(self).params().path_precision,
                    old(self).cursor(),
                ),
            ] + old(self).document(),
    {
        let cutout = wants_cutout(&self.params);
        let mut stage = Stage::New;
        core::mem::swap(&mut self.stage, &mut stage);
        match stage {
            Stage::New => false,
            Stage::Clustering(builder) => {
                let mut builder = builder;
                let finished = engine_tick(&mut builder);
                if self.measurable {
                    let p = percent(engine_progress(&builder));
                    if p > self.clustered {
                        self.clustered = p;
                    }
                }
                if !finished {
                    self.stage = Stage::Clustering(builder);
                } else {
                    let result = engine_result(builder);
                    if cutout {
                        let image = flatten(&result);
                        let area: usize = image.pixels.len() / 4;
                        let cfg = second_pass_config(area);
                        self.stage = Stage::Reclustering(start_engine(&cfg, image));
                    } else {
                        proof {
                            lemma_color_progress(0, 0, output_colors(result).len() as int);
                        }
                        self.stage = Stage::Vectorize(result);
                    }
                }
                false
            },
            Stage::Reclustering(builder) => {
                let mut builder = builder;
                let finished = engine_tick(&mut builder);
                if finished {
                    let result = engine_result(builder);
                    proof {
                        lemma_color_progress(0, 0, output_colors(result).len() as int);
                    }
                    self.stage = Stage::Vectorize(result);
                } else {
                    self.stage = Stage::Reclustering(builder);
                }
                false
            },
            Stage::Vectorize(clusters) => {
                let n = output_len(&clusters);
                proof {
                    lemma_color_progress(self.counter as int, self.counter as int, n as int);
                }
                if self.counter < n {
                    let entry = PathEntry {
                        cluster: self.counter,
                        color: output_color(&clusters, self.counter),
                        precision: self.params.path_precision,
                    };
                    proof {
                        let emitted = color_emitted(
                            output_colors(clusters),
                            self.params.path_precision,
                            self.counter as int,
                        );
                        lemma_prepend_is_emit(emitted, entry);
                        assert(seq![entry] + (document_of(emitted) + self.base@) =~= (seq![entry]
                            + document_of(emitted)) + self.base@);
                        lemma_color_progress(self.counter as int, self.counter + 1, n as int);
                    }
                    self.document.prepend(entry);
                    self.counter += 1;
                    self.stage = Stage::Vectorize(clusters);
                    false
                } else {
                    self.stage = Stage::Vectorize(clusters);
                    true
                }
            },
        }
    }

    /// Completion in percent.
    pub fn progress(&self) -> (p: i32)
        requires
            self.wf(),
        ensures
            p == self.spec_progress(),
            0 <= p <= 100,
            self.finished() ==> p == 100,
    {
        match &self.stage {
            Stage::New => 0,
            Stage::Clustering(_) => (self.clustered / 2) as i32,
            Stage::Reclustering(_) => 50,
            Stage::Vectorize(clusters) => {
                let n = output_len(clusters);
                proof {
                    lemma_color_progress(self.counter as int, self.counter as int, n as int);
                }
                if n == 0 {
                    100
                } else {
                    let c: u128 = 50 * (self.counter as u128);
                    (50 + c / (n as u128)) as i32
                }
            },
        }
    }

    /// The finished segmentation, once the clusters are being emitted: the
    /// entries of the document name its output clusters by position.
    pub fn clusters(&self) -> (c: Option<&visioncortex::color_clusters::Clusters>)
        ensures
            c.is_some() == (self.phase() == Phase::Vectorize),
            c matches Some(k) ==> output_colors(*k) == self.colors(),
    {
        match &self.stage {
            Stage::Vectorize(clusters) => Some(clusters),
            _ => None,
        }
    }

    /// The stage by name.
    pub fn current_phase(&self) -> (p: Phase)
        ensures
            p == self.phase(),
    {
        match &self.stage {
            Stage::New => Phase::New,
            Stage::Clustering(_) => Phase::Clustering,
            Stage::Reclustering(_) => Phase::Reclustering,
            Stage::Vectorize(_) => Phase::Vectorize,
        }
    }

    /// The document so far, first entry first.
    pub fn entries(&self) -> (v: Vec<PathEntry>)
        ensures
            v@ == self.document(),
    {
        self.document.to_vec()
    }
}

/// An engine figure cut off at 100.
pub fn percent(p: u32) -> (r: u32)
    ensures
        r == (if p > 100 {
            100
        } else {
            p as int
        }),
{
    if p > 100 {
        100
    } else {
        p
    }
}

/// In the last stage progress never falls as the cursor moves on, stays
/// within 50 to 100, and is 100 when the cursor has reached the end.
pub proof fn lemma_color_progress(c1: int, c2: int, n: int)
    requires
        0 <= c1 <= c2 <= n,
    ensures
        50 <= color_progress(Phase::Vectorize, 0, c1, n) <= color_progress(
            Phase::Vectorize,
            0,
            c2,
            n,
        ) <= 100,
        color_progress(Phase::Vectorize, 0, n, n) == 100,
{
    if n > 0 {
        assert(50 * c1 / n <= 50 * c2 / n) by (nonlinear_arith)
            requires
                0 <= c1 <= c2,
                n > 0,
        ;
        assert(50 * c2 / n <= 50 * n / n) by (nonlinear_arith)
            requires
                0 <= c2 <= n,
                n > 0,
        ;
        assert(50 * n / n == 50) by (nonlinear_arith)
            requires
                n > 0,
        ;
        assert(0 <= 50 * c1 / n) by (nonlinear_arith)
            requires
                0 <= c1,
                n > 0,
        ;
    }
}

/// With `"cutout"` a conversion passes through the stages in the order
/// clustering, reclustering, vectorize: the first segmentation is never
/// followed by the clusters at once, and no tick leads back. With any other
/// setting no tick leads to reclustering from anywhere else.
pub proof fn lemma_stage_order(phase: Phase, finished: bool, cutout: bool)
    ensures
        phase_rank(phase) <= phase_rank(phase_after(phase, finished, cutout)) <= phase_rank(phase)
            + (if cutout {
            1int
        } else {
            2int
        }),
        cutout && phase == Phase::Clustering ==> phase_after(phase, finished, cutout)
            != Phase::Vectorize,
        !cutout && phase != Phase::Reclustering ==> phase_after(phase, finished, cutout)
            != Phase::Reclustering,
        phase_after(phase, finished, cutout) != phase ==> finished,
{
}

/// The place of a phase in the order of a conversion.
pub open spec fn phase_rank(phase: Phase) -> int {
    match phase {
        Phase::New => 0,
        Phase::Clustering => 1,
        Phase::Reclustering => 2,
        Phase::Vectorize => 3,
    }
}

} // verus!
