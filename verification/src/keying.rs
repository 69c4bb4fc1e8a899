//! Transparency keying: the segmentation engine knows no alpha channel, so
//! fully transparent pixels are replaced by one colour that the image does
//! not otherwise use.

use vstd::prelude::*;

verus! {

/// A colour with four 8-bit channels.
#[derive(Clone, Copy, Debug, PartialEq, Eq, Structural)]
pub struct Rgba {
    pub r: u8,
    pub g: u8,
    pub b: u8,
    pub a: u8,
}

impl Rgba {
    /// An opaque colour.
    pub fn new(r: u8, g: u8, b: u8) -> (c: Rgba)
        ensures
            c == (Rgba { r, g, b, a: 255 }),
    {
        Rgba { r, g, b, a: 255 }
    }

    /// Fully transparent black, the colour that stands for "no key".
    pub fn transparent_black() -> (c: Rgba)
        ensures
            c == no_key(),
    {
        Rgba { r: 0, g: 0, b: 0, a: 0 }
    }

    /// Whether two colours agree on red, green and blue.
    pub open spec fn same_rgb(self, other: Rgba) -> bool {
        self.r == other.r && self.g == other.g && self.b == other.b
    }
}

/// Fully transparent black.
pub open spec fn no_key() -> Rgba {
    Rgba { r: 0, g: 0, b: 0, a: 0 }
}

/// The pixel that starts at byte `4 * i` of a row-major RGBA byte sequence.
pub open spec fn pixel_of(bytes: Seq<u8>, i: int) -> Rgba {
    Rgba { r: bytes[4 * i], g: bytes[4 * i + 1], b: bytes[4 * i + 2], a: bytes[4 * i + 3] }
}

/// One channel of a colour, by its offset inside a pixel.
pub open spec fn channel(c: Rgba, k: int) -> u8 {
    if k == 0 {
        c.r
    } else if k == 1 {
        c.g
    } else if k == 2 {
        c.b
    } else {
        c.a
    }
}

/// The bytes of an image after every pixel with alpha 0 was overwritten by
/// `key`, all four channels.
pub open spec fn keyed(bytes: Seq<u8>, key: Rgba) -> Seq<u8> {
    Seq::new(
        bytes.len(),
        |j: int|
            if bytes[(j / 4) * 4 + 3] == 0 {
                channel(key, j % 4)
            } else {
                bytes[j]
            },
    )
}

/// What an image is: its bytes, row by row and four to a pixel, and its size.
pub struct Raster {
    pub pixels: Seq<u8>,
    pub width: nat,
    pub height: nat,
}

impl Raster {
    /// The pixel in column `x` of row `y`.
    pub open spec fn pixel(self, x: int, y: int) -> Rgba {
        pixel_of(self.pixels, y * self.width + x)
    }
}

/// A row-major RGBA image.
#[derive(Debug)]
pub struct PixelBuffer {
    pub width: usize,
    pub height: usize,
    pub pixels: Vec<u8>,
}

impl View for PixelBuffer {
    type V = Raster;

    open spec fn view(&self) -> Raster {
        Raster { pixels: self.pixels@, width: self.width as nat, height: self.height as nat }
    }
}

impl PixelBuffer {
    /// The buffer holds exactly four bytes for each pixel.
    pub open spec fn wf(&self) -> bool {
        self.pixels@.len() == self.width * self.height * 4
    }

    /// The pixel in column `x` of row `y`.
    pub open spec fn pixel(&self, x: int, y: int) -> Rgba {
        self@.pixel(x, y)
    }

    /// Takes a copy of `bytes` as an image of the given size; `None` when the
    /// length is not four bytes per pixel.
    pub fn from_bytes(bytes: &[u8], width: usize, height: usize) -> (r: Option<PixelBuffer>)
        ensures
            r.is_some() <==> bytes@.len() == width * height * 4,
            r matches Some(img) ==> img.wf() && img.width == width && img.height == height
                && img.pixels@ == bytes@,
    {
        let given: usize = bytes.len();
        let area = match width.checked_mul(height) {
            Some(a) => a,
            None => {
                proof {
                    lemma_len_bounds_area(given as int, width as int, height as int);
                }
                return None;
            },
        };
        let len = match area.checked_mul(4) {
            Some(l) => l,
            None => { return None; },
        };
        if given != len {
            return None;
        }
        let pixels = slice_to_vec(bytes);
        Some(PixelBuffer { width, height, pixels })
    }

    /// Takes a copy of `bytes`, which hold four bytes for each pixel, as an
    /// image of the given size.
    pub fn copy_of(bytes: &[u8], width: usize, height: usize) -> (img: PixelBuffer)
        requires
            bytes@.len() == width * height * 4,
        ensures
            img.wf(),
            img.width == width,
            img.height == height,
            img.pixels@ == bytes@,
    {
        PixelBuffer { width, height, pixels: slice_to_vec(bytes) }
    }

    /// Reads the pixel in column `x` of row `y`.
    pub fn get_pixel(&self, x: usize, y: usize) -> (c: Rgba)
        requires
            self.wf(),
            x < self.width,
            y < self.height,
        ensures
            c == self.pixel(x as int, y as int),
    {
        proof {
            lemma_index_in_area(x as int, y as int, self.width as int, self.height as int);
        }
        let len: usize = self.pixels.len();
        assert((y * self.width + x) * 4 + 3 < len);
        let i: usize = (y * self.width + x) * 4;
        Rgba {
            r: self.pixels[i],
            g: self.pixels[i + 1],
            b: self.pixels[i + 2],
            a: self.pixels[i + 3],
        }
    }
}

/// A length that fits the machine bounds the area it was made of.
proof fn lemma_len_bounds_area(len: int, width: int, height: int)
    requires
        0 <= width,
        0 <= height,
        len <= usize::MAX,
        width * height > usize::MAX,
    ensures
        len != width * height * 4,
{
}

/// A position inside the image is a row-major index below the area.
proof fn lemma_index_in_area(x: int, y: int, width: int, height: int)
    requires
        0 <= x < width,
        0 <= y < height,
    ensures
        0 <= y * width + x < width * height,
        0 <= y * width,
        (y * width + x) * 4 + 3 < width * height * 4,
{
    assert(y * width + x < width * height) by (nonlinear_arith)
        requires
            0 <= x < width,
            0 <= y < height,
    ;
    assert(0 <= y * width) by (nonlinear_arith)
        requires
            0 <= width,
            0 <= y,
    ;
}

fn slice_to_vec(bytes: &[u8]) -> (v: Vec<u8>)
    ensures
        v@ == bytes@,
{
    let mut v: Vec<u8> = Vec::with_capacity(bytes.len());
    let mut i: usize = 0;
    while i < bytes.len()
        invariant
            i <= bytes@.len(),
            v@ == bytes@.subrange(0, i as int),
        decreases bytes@.len() - i,
    {
        v.push(bytes[i]);
        i += 1;
    }
    proof {
        assert(bytes@.subrange(0, bytes@.len() as int) =~= bytes@);
    }
    v
}

/// Whether some pixel of the image has the red, green and blue of `color`.
pub open spec fn color_used(bytes: Seq<u8>, color: Rgba) -> bool {
    exists|i: int| 0 <= i && 4 * i + 3 < bytes.len() && (#[trigger] pixel_of(bytes, i)).same_rgb(color)
}

/// Scans the whole image for `color`, alpha ignored.
pub fn color_exists(img: &PixelBuffer, color: Rgba) -> (found: bool)
    requires
        img.wf(),
    ensures
        found == color_used(img.pixels@, color),
{
    let n: usize = img.pixels.len() / 4;
    let mut i: usize = 0;
    while i < n
        invariant
            i <= n,
            n == img.pixels@.len() / 4,
            img.pixels@.len() <= usize::MAX,
            forall|j: int| 0 <= j < i ==> !(#[trigger] pixel_of(img.pixels@, j)).same_rgb(color),
        decreases n - i,
    {
        let k: usize = 4 * i;
        if img.pixels[k] == color.r && img.pixels[k + 1] == color.g && img.pixels[k + 2] == color.b {
            assert(pixel_of(img.pixels@, i as int).same_rgb(color));
            return true;
        }
        i += 1;
    }
    false
}

/// The colours that may serve as key, in the order in which they are tried.
pub open spec fn candidates() -> Seq<Rgba> {
    seq![
        Rgba { r: 255, g: 0, b: 0, a: 255 },
        Rgba { r: 0, g: 255, b: 0, a: 255 },
        Rgba { r: 0, g: 0, b: 255, a: 255 },
        Rgba { r: 255, g: 255, b: 0, a: 255 },
        Rgba { r: 0, g: 255, b: 255, a: 255 },
        Rgba { r: 255, g: 0, b: 255, a: 255 },
        Rgba { r: 128, g: 128, b: 128, a: 255 },
    ]
}

/// `k` is the position of the first candidate that the image does not use.
pub open spec fn first_unused(bytes: Seq<u8>, k: int) -> bool {
    &&& 0 <= k < candidates().len()
    &&& !color_used(bytes, candidates()[k])
    &&& forall|j: int| 0 <= j < k ==> color_used(bytes, #[trigger] candidates()[j])
}

/// Every candidate occurs in the image.
pub open spec fn all_candidates_used(bytes: Seq<u8>) -> bool {
    forall|j: int| 0 <= j < candidates().len() ==> color_used(bytes, #[trigger] candidates()[j])
}

fn candidate_list() -> (v: Vec<Rgba>)
    ensures
        v@ == candidates(),
{
    let mut v: Vec<Rgba> = Vec::new();
    v.push(Rgba::new(255, 0, 0));
    v.push(Rgba::new(0, 255, 0));
    v.push(Rgba::new(0, 0, 255));
    v.push(Rgba::new(255, 255, 0));
    v.push(Rgba::new(0, 255, 255));
    v.push(Rgba::new(255, 0, 255));
    v.push(Rgba::new(128, 128, 128));
    proof {
        assert(v@ =~= candidates());
    }
    v
}

/// The message of a search that found every candidate in use.
pub open spec fn no_unused_color() -> Seq<char> {
    "unable to find unused color in image to use as key"@
}

/// The first candidate that occurs nowhere in the image; an error when all
/// seven occur.
pub fn find_unused_color(img: &PixelBuffer) -> (r: Result<Rgba, String>)
    requires
        img.wf(),
    ensures
        match r {
            Ok(c) => exists|k: int| first_unused(img.pixels@, k) && c == candidates()[k],
            Err(e) => all_candidates_used(img.pixels@) && e@ == no_unused_color(),
        },
{
    let list = candidate_list();
    let mut k: usize = 0;
    while k < list.len()
        invariant
            k <= list@.len(),
            list@ == candidates(),
            img.wf(),
            forall|j: int| 0 <= j < k ==> color_used(img.pixels@, #[trigger] candidates()[j]),
        decreases list@.len() - k,
    {
        let c = list[k];
        if !color_exists(img, c) {
            assert(first_unused(img.pixels@, k as int));
            return Ok(c);
        }
        k += 1;
    }
    Err("unable to find unused color in image to use as key".to_owned())
}

/// Transparent pixels among the first `n` of row `y`.
pub open spec fn transparent_in_row(img: Raster, y: int, n: int) -> nat
    decreases n,
{
    if n <= 0 {
        0
    } else {
        transparent_in_row(img, y, n - 1) + if img.pixel(n - 1, y).a == 0 {
            1nat
        } else {
            0nat
        }
    }
}

/// The five rows that are sampled; for a low image some coincide.
pub open spec fn sample_rows(height: int) -> Seq<int> {
    seq![0, height / 4, height / 2, 3 * height / 4, height - 1]
}

/// Transparent pixels over the first `k` sampled rows, a row counted as
/// often as it is sampled.
pub open spec fn transparent_sampled(img: Raster, k: int) -> nat
    decreases k,
{
    if k <= 0 {
        0
    } else {
        transparent_sampled(img, k - 1) + transparent_in_row(
            img,
            sample_rows(img.height as int)[k - 1],
            img.width as int,
        )
    }
}

/// Two fifths of the width, rounded down.
pub open spec fn key_threshold(width: int) -> int {
    (width * 2) / 5
}

/// Whether an image is to be keyed: it has pixels, and the sampled rows hold
/// at least one transparent pixel and at least `key_threshold` of them.
pub open spec fn wants_key(img: Raster) -> bool {
    &&& img.width > 0
    &&& img.height > 0
    &&& transparent_sampled(img, 5) >= 1
    &&& transparent_sampled(img, 5) >= key_threshold(img.width as int)
}

/// Counts on through row `y` from `count`, and stops at the first
/// transparent pixel that brings the count up to `threshold`.
fn scan_row(img: &PixelBuffer, y: usize, count: usize, threshold: usize) -> (r: (usize, bool))
    requires
        img.wf(),
        y < img.height,
        count == 0 || count < threshold,
    ensures
        r.1 ==> r.0 >= 1 && r.0 >= threshold && r.0 <= count + transparent_in_row(
            img@,
            y as int,
            img.width as int,
        ),
        !r.1 ==> r.0 == count + transparent_in_row(img@, y as int, img.width as int) && (r.0 == 0
            || r.0 < threshold),
{
    let mut c: usize = count;
    let mut x: usize = 0;
    while x < img.width
        invariant
            img.wf(),
            y < img.height,
            x <= img.width,
            c == count + transparent_in_row(img@, y as int, x as int),
            c == 0 || c < threshold,
        decreases img.width - x,
    {
        let p = img.get_pixel(x, y);
        if p.a == 0 {
            c += 1;
            if c >= threshold {
                proof {
                    lemma_row_count_grows(img@, y as int, x as int + 1, img.width as int);
                }
                return (c, true);
            }
        }
        x += 1;
    }
    (c, false)
}

/// A longer stretch of a row holds no fewer transparent pixels.
proof fn lemma_row_count_grows(img: Raster, y: int, m: int, n: int)
    requires
        m <= n,
    ensures
        transparent_in_row(img, y, m) <= transparent_in_row(img, y, n),
    decreases n - m,
{
    if m < n {
        lemma_row_count_grows(img, y, m, n - 1);
    }
}

/// Samples five rows and says whether the image is to be keyed. An image
/// without pixels never is.
pub fn should_key(img: &PixelBuffer) -> (r: bool)
    requires
        img.wf(),
    ensures
        r == wants_key(img@),
        (img.width == 0 || img.height == 0) ==> !r,
{
    if img.width == 0 || img.height == 0 {
        return false;
    }
    let len: usize = img.pixels.len();
    proof {
        lemma_index_in_area(0, 0, img.height as int, img.width as int);
        lemma_index_in_area(0, 0, img.width as int, img.height as int);
        assert(img.width * 4 <= img.width * img.height * 4) by (nonlinear_arith)
            requires
                img.height >= 1,
                img.width >= 1,
        ;
        assert(img.height * 4 <= img.width * img.height * 4) by (nonlinear_arith)
            requires
                img.height >= 1,
                img.width >= 1,
        ;
    }
    let h: usize = img.height;
    let threshold: usize = (img.width * 2) / 5;
    let mut rows: Vec<usize> = Vec::new();
    rows.push(0);
    rows.push(h / 4);
    rows.push(h / 2);
    rows.push(3 * h / 4);
    rows.push(h - 1);
    let mut count: usize = 0;
    let mut k: usize = 0;
    while k < 5
        invariant
            img.wf(),
            k <= 5,
            h == img.height,
            h > 0,
            rows@.len() == 5,
            forall|j: int| 0 <= j < 5 ==> rows@[j] as int == #[trigger] sample_rows(h as int)[j],
            forall|j: int| 0 <= j < 5 ==> (#[trigger] rows@[j]) < h,
            threshold == key_threshold(img.width as int),
            count == transparent_sampled(img@, k as int),
            count == 0 || count < threshold,
        decreases 5 - k,
    {
        let y: usize = rows[k];
        let (c, reached) = scan_row(img, y, count, threshold);
        if reached {
            proof {
                lemma_sampled_grows(img@, k as int + 1, 5);
            }
            return true;
        }
        count = c;
        k += 1;
    }
    false
}

/// More sampled rows hold no fewer transparent pixels.
proof fn lemma_sampled_grows(img: Raster, m: int, n: int)
    requires
        m <= n,
    ensures
        transparent_sampled(img, m) <= transparent_sampled(img, n),
    decreases n - m,
{
    if m < n {
        lemma_sampled_grows(img, m, n - 1);
    }
}

/// Overwrites every pixel whose alpha is 0 by `key`, all four channels.
pub fn apply(img: &mut PixelBuffer, key: Rgba)
    requires
        old(img).wf(),
    ensures
        final(img).wf(),
        final(img).width == old(img).width,
        final(img).height == old(img).height,
        final(img).pixels@ == keyed(old(img).pixels@, key),
{
    let n: usize = img.pixels.len() / 4;
    let ghost before = img.pixels@;
    let mut i: usize = 0;
    while i < n
        invariant
            i <= n,
            n == before.len() / 4,
            before.len() == n * 4,
            before.len() <= usize::MAX,
            img.pixels@.len() == before.len(),
            img.width == old(img).width,
            img.height == old(img).height,
            forall|j: int| 0 <= j < 4 * i ==> img.pixels@[j] == #[trigger] keyed(before, key)[j],
            forall|j: int| 4 * i <= j < before.len() ==> img.pixels@[j] == #[trigger] before[j],
        decreases n - i,
    {
        let k: usize = 4 * i;
        if img.pixels[k + 3] == 0 {
            img.pixels.set(k, key.r);
            img.pixels.set(k + 1, key.g);
            img.pixels.set(k + 2, key.b);
            img.pixels.set(k + 3, key.a);
        }
        i += 1;
    }
    proof {
        assert(img.pixels@ =~= keyed(before, key));
    }
}

/// What keying makes of an image: the key colour that the engine is told,
/// and the bytes it is given.
pub open spec fn key_outcome(img: Raster) -> (Rgba, Seq<u8>) {
    if wants_key(img) && !all_candidates_used(img.pixels) {
        let k = choose|k: int| first_unused(img.pixels, k);
        (candidates()[k], keyed(img.pixels, candidates()[k]))
    } else {
        (no_key(), img.pixels)
    }
}

/// Prepares an image for segmentation. Where sampling asks for a key and a
/// candidate is free, transparent pixels take that colour, which is
/// returned. Otherwise the image is left as it is and the result is
/// transparent black: with every candidate in use, keying is given up
/// without an error.
pub fn key_transparent(img: &mut PixelBuffer) -> (key: Rgba)
    requires
        old(img).wf(),
    ensures
        final(img).wf(),
        final(img).width == old(img).width,
        final(img).height == old(img).height,
        (key, final(img).pixels@) == key_outcome(old(img)@),
        all_candidates_used(old(img).pixels@) ==> key == no_key() && final(img).pixels@ == old(
            img,
        ).pixels@,
{
    if should_key(img) {
        match find_unused_color(img) {
            Ok(key) => {
                proof {
                    lemma_first_unused_unique(img.pixels@);
                }
                apply(img, key);
                key
            },
            Err(_) => Rgba::transparent_black(),
        }
    } else {
        Rgba::transparent_black()
    }
}

/// At most one position is that of the first unused candidate.
proof fn lemma_first_unused_unique(bytes: Seq<u8>)
    ensures
        forall|j: int, k: int| first_unused(bytes, j) && first_unused(bytes, k) ==> j == k,
{
}

/// Where every candidate occurs in the image, keying is given up: the
/// image stays as it is, byte for byte, and the engine is told no key.
pub proof fn lemma_soft_degradation(img: Raster)
    requires
        all_candidates_used(img.pixels),
    ensures
        key_outcome(img) == (no_key(), img.pixels),
{
}

/// Where an image is keyed, the key is a candidate that it does not use,
/// and is opaque.
pub proof fn lemma_key_is_unused(img: Raster)
    requires
        key_outcome(img).0 != no_key(),
    ensures
        !color_used(img.pixels, key_outcome(img).0),
        key_outcome(img).0.a == 255,
        key_outcome(img).1 == keyed(img.pixels, key_outcome(img).0),
{
    lemma_first_unused_exists(img.pixels);
}

/// Unless every candidate is in use, one of them is the first that is not.
proof fn lemma_first_unused_exists(bytes: Seq<u8>)
    requires
        !all_candidates_used(bytes),
    ensures
        exists|k: int| first_unused(bytes, k),
{
    let c = candidates();
    if !color_used(bytes, c[0]) {
        assert(first_unused(bytes, 0));
    } else if !color_used(bytes, c[1]) {
        assert(first_unused(bytes, 1));
    } else if !color_used(bytes, c[2]) {
        assert(first_unused(bytes, 2));
    } else if !color_used(bytes, c[3]) {
        assert(first_unused(bytes, 3));
    } else if !color_used(bytes, c[4]) {
        assert(first_unused(bytes, 4));
    } else if !color_used(bytes, c[5]) {
        assert(first_unused(bytes, 5));
    } else {
        assert(first_unused(bytes, 6));
    }
}

/// After keying with a key that is not transparent no pixel is transparent,
/// so that keying once more, with whatever key, writes nothing.
pub proof fn lemma_keyed_is_opaque(bytes: Seq<u8>, key: Rgba, other: Rgba)
    requires
        bytes.len() % 4 == 0,
        key.a != 0,
    ensures
        forall|i: int|
            0 <= i && 4 * i + 3 < bytes.len() ==> (#[trigger] pixel_of(keyed(bytes, key), i)).a
                != 0,
        keyed(keyed(bytes, key), other) == keyed(bytes, key),
{
    assert(keyed(keyed(bytes, key), other) =~= keyed(bytes, key));
}

/// Keying twice with one key is keying once: on an image of whole pixels the
/// second application changes nothing, whatever the key.
pub proof fn lemma_apply_idempotent(bytes: Seq<u8>, key: Rgba)
    requires
        bytes.len() % 4 == 0,
    ensures
        keyed(keyed(bytes, key), key) == keyed(bytes, key),
{
    assert(keyed(keyed(bytes, key), key) =~= keyed(bytes, key));
}

} // verus!
