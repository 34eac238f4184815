use vstd::prelude::*;
use crate::color::Color32;

verus! {

/// Identifies one logical texture; stable across frames until freed.
#[derive(Clone, Copy, Debug, PartialEq, Eq, Structural, Hash)]
pub enum TextureHandle {
    Managed(u64),
    User(u64),
}

/// How a texture is sampled when magnified or minified.
#[derive(Clone, Copy, Debug, PartialEq, Eq, Structural)]
pub enum TextureFilter {
    Nearest,
    Linear,
}

#[derive(Clone, Copy, Debug, PartialEq, Eq, Structural)]
pub struct TextureOptions {
    pub magnification: TextureFilter,
    pub minification: TextureFilter,
}

/// Filtering between texels, chosen by the magnification filter.
#[derive(Clone, Copy, Debug, PartialEq, Eq, Structural)]
pub enum FilterMode {
    Nearest,
    Linear,
}

/// Filtering between mipmap levels, chosen by the minification filter.
#[derive(Clone, Copy, Debug, PartialEq, Eq, Structural)]
pub enum MipmapMode {
    Nearest,
    Linear,
}

/// The sampling options of a texture's shader (tiling is always clamp).
#[derive(Clone, Copy, Debug, PartialEq, Eq, Structural)]
pub struct Sampling {
    pub filter: FilterMode,
    pub mipmap: MipmapMode,
}

pub open spec fn sampling_spec(o: TextureOptions) -> Sampling {
    Sampling {
        filter: match o.magnification {
            TextureFilter::Nearest => FilterMode::Nearest,
            TextureFilter::Linear => FilterMode::Linear,
        },
        mipmap: match o.minification {
            TextureFilter::Nearest => MipmapMode::Nearest,
            TextureFilter::Linear => MipmapMode::Linear,
        },
    }
}

impl TextureOptions {
    pub fn sampling(&self) -> (r: Sampling)
        ensures
            r == sampling_spec(*self),
    {
        let filter = match self.magnification {
            TextureFilter::Nearest => FilterMode::Nearest,
            TextureFilter::Linear => FilterMode::Linear,
        };
        let mipmap = match self.minification {
            TextureFilter::Nearest => MipmapMode::Nearest,
            TextureFilter::Linear => MipmapMode::Linear,
        };
        Sampling { filter, mipmap }
    }
}

/// A row-major image of premultiplied pixels.
#[derive(Clone, Debug)]
pub struct ColorImage {
    pub width: usize,
    pub height: usize,
    pub pixels: Vec<Color32>,
}

pub struct ImageView {
    pub width: nat,
    pub height: nat,
    pub pixels: Seq<Color32>,
}

impl View for ColorImage {
    type V = ImageView;

    open spec fn view(&self) -> ImageView {
        ImageView { width: self.width as nat, height: self.height as nat, pixels: self.pixels@ }
    }
}

/// Largest width or height the graphics backend accepts.
pub const MAX_SIDE: usize = 0x7fff_ffff;

impl ImageView {
    /// The pixel buffer holds exactly width times height pixels.
    pub open spec fn wf(self) -> bool {
        self.pixels.len() == self.width * self.height
    }

    /// The backend can build an image from this buffer.
    pub open spec fn creatable(self) -> bool {
        &&& self.wf()
        &&& 0 < self.width <= MAX_SIDE
        &&& 0 < self.height <= MAX_SIDE
    }

    /// The pixel at column `x`, row `y`.
    pub open spec fn pixel(self, x: int, y: int) -> Color32 {
        self.pixels[y * self.width + x]
    }
}

/// Whether the pixel at index `i` of `old` lies inside a patch of the given size placed at (x, y).
pub open spec fn in_patch(old: ImageView, pw: nat, ph: nat, x: nat, y: nat, i: int) -> bool {
    let px = i % (old.width as int);
    let py = i / (old.width as int);
    x <= px < x + pw && y <= py < y + ph
}

/// The pixel at index `i` after `patch` replaces the region of `old` it covers at (x, y).
pub open spec fn patched_pixel(old: ImageView, patch: ImageView, x: nat, y: nat, i: int) -> Color32 {
    if in_patch(old, patch.width, patch.height, x, y, i) {
        let px = i % (old.width as int);
        let py = i / (old.width as int);
        patch.pixel(px - x, py - y)
    } else {
        old.pixels[i]
    }
}

/// `old` with the region at (x, y) cleared and replaced by `patch`, clipped to `old`'s bounds.
pub open spec fn patched_spec(old: ImageView, patch: ImageView, x: nat, y: nat) -> ImageView {
    ImageView {
        width: old.width,
        height: old.height,
        pixels: Seq::new(old.pixels.len(), |i: int| patched_pixel(old, patch, x, y, i)),
    }
}

/// A patch keeps the image's size, and every pixel outside the patch's region
/// is the same as before.
pub proof fn lemma_patch_keeps_outside(old: ImageView, patch: ImageView, x: nat, y: nat, i: int)
    requires
        0 <= i < old.pixels.len(),
        !in_patch(old, patch.width, patch.height, x, y, i),
    ensures
        patched_spec(old, patch, x, y).width == old.width,
        patched_spec(old, patch, x, y).height == old.height,
        patched_spec(old, patch, x, y).pixels.len() == old.pixels.len(),
        patched_spec(old, patch, x, y).pixels[i] == old.pixels[i],
{
}

/// Replaces the region of `old` at (x, y) with `patch`; pixels of `patch` outside `old` are dropped.
pub fn composite(old: &ColorImage, patch: &ColorImage, x: usize, y: usize) -> (r: ColorImage)
    requires
        old@.creatable(),
        patch@.wf(),
    ensures
        r@ == patched_spec(old@, patch@, x as nat, y as nat),
{
    let total = old.pixels.len();
    let w = old.width;
    let mut pixels: Vec<Color32> = Vec::with_capacity(total);
    let mut i: usize = 0;
    while i < total
        invariant
            i <= total,
            total == old.pixels@.len(),
            w == old.width,
            w > 0,
            patch@.wf(),
            pixels@.len() == i,
            forall|k: int| 0 <= k < i ==> pixels@[k] == patched_pixel(old@, patch@, x as nat, y as nat, k),
        decreases total - i,
    {
        let px = i % w;
        let py = i / w;
        let c = if px >= x && px - x < patch.width && py >= y && py - y < patch.height {
            let dx = px - x;
            let dy = py - y;
            let pw = patch.width;
            let ph = patch.height;
            let plen = patch.pixels.len();
            proof {
                assert(dy * pw + dx < ph * pw) by (nonlinear_arith)
                    requires
                        dy < ph,
                        dx < pw,
                ;
                assert(ph * pw == pw * ph) by (nonlinear_arith);
                assert(plen == pw * ph);
                assert(dy * pw + dx < plen);
            }
            patch.pixels[dy * pw + dx]
        } else {
            old.pixels[i]
        };
        pixels.push(c);
        i = i + 1;
    }
    let r = ColorImage { width: old.width, height: old.height, pixels };
    assert(r@.pixels =~= patched_spec(old@, patch@, x as nat, y as nat).pixels);
    r
}

} // verus!
