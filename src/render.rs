//! Render passes: escape counts coloured into an owned image, which is cleared
//! first only when it holds an earlier pass.
use vstd::prelude::*;

use crate::color::{hsl_to_rgb, hue_colour};
use crate::image::{blank, opaque, Image, ImageModel, Pixel};

verus! {

/// The colour of a sample that escaped after `count` iterations.
pub open spec fn escape_colour(count: u16) -> Pixel {
    let c = hue_colour(count, true);
    opaque(c.0, c.1, c.2)
}

/// `px` with each pixel whose sample escaped coloured by its count; the others
/// are left as they were.
pub open spec fn painted(px: Seq<Pixel>, counts: Seq<Option<u16>>) -> Seq<Pixel> {
    Seq::new(
        px.len(),
        |i: int|
            match counts[i] {
                Some(n) => escape_colour(n),
                None => px[i],
            },
    )
}

/// Colours each pixel of `image` whose sample escaped, by its escape count;
/// `counts` holds one entry per pixel, row by row.
pub fn paint_escapes(image: &mut Image, counts: &[Option<u16>])
    requires
        counts@.len() == old(image).pixels().len(),
    ensures
        final(image)@.width == old(image)@.width,
        final(image)@.height == old(image)@.height,
        final(image).pixels() == painted(old(image).pixels(), counts@),
{
    let mut i: usize = 0;
    while i < counts.len()
        invariant
            i <= counts@.len(),
            counts@.len() == old(image).pixels().len(),
            image.pixels().len() == old(image).pixels().len(),
            image@.width == old(image)@.width,
            image@.height == old(image)@.height,
            forall|k: int|
                0 <= k < i ==> #[trigger] image.pixels()[k] == painted(
                    old(image).pixels(),
                    counts@,
                )[k],
            forall|k: int| i <= k < counts@.len() ==> #[trigger] image.pixels()[k] == old(
                image,
            ).pixels()[k],
        decreases counts@.len() - i,
    {
        if let Some(n) = counts[i] {
            image.set_pixel(i, Pixel::from_rgb_tuple(hsl_to_rgb(n)));
        }
        i = i + 1;
    }
    assert(image.pixels() =~= painted(old(image).pixels(), counts@));
}

/// An image that render passes are drawn into, and whether it holds one.
pub struct RenderTarget {
    image: Image,
    dirty: bool,
}

impl RenderTarget {
    /// The image as it stands.
    pub closed spec fn image_model(&self) -> ImageModel {
        self.image@
    }

    /// Whether the image holds an earlier pass.
    pub closed spec fn is_dirty(&self) -> bool {
        self.dirty
    }

    /// The image is well formed, and blank until a pass has been drawn.
    pub open spec fn wf(&self) -> bool {
        &&& self.image_model().wf()
        &&& !self.is_dirty() ==> self.image_model().pixels == blank(
            self.image_model().pixels.len(),
        )
    }

    /// The pixels that the next pass draws over: a blank image, cleared for
    /// the pass when it holds an earlier one.
    pub open spec fn pass_start(&self) -> Seq<Pixel> {
        if self.is_dirty() {
            blank(self.image_model().pixels.len())
        } else {
            self.image_model().pixels
        }
    }

    /// A target of `width` by `height` blank pixels that holds no pass.
    pub fn new(width: usize, height: usize) -> (r: Self)
        requires
            width * height <= usize::MAX,
        ensures
            r.wf(),
            !r.is_dirty(),
            r.image_model().width == width,
            r.image_model().height == height,
            r.image_model().pixels == blank((width * height) as nat),
    {
        Self { image: Image::new(width, height), dirty: false }
    }

    /// Draws a pass: clears the image if it holds an earlier pass, then
    /// colours the pixels whose samples escaped. `counts` holds one entry per
    /// pixel, row by row.
    pub fn render(&mut self, counts: &[Option<u16>])
        requires
            old(self).wf(),
            counts@.len() == old(self).image_model().pixels.len(),
        ensures
            final(self).wf(),
            final(self).is_dirty(),
            final(self).image_model().width == old(self).image_model().width,
            final(self).image_model().height == old(self).image_model().height,
            final(self).image_model().pixels == painted(old(self).pass_start(), counts@),
    {
        if self.dirty {
            self.image.clear_buffer();
        }
        self.dirty = true;
        paint_escapes(&mut self.image, counts);
    }

    /// The image, for reading only.
    pub fn image(&self) -> (r: &Image)
        ensures
            r@ == self.image_model(),
    {
        &self.image
    }

    /// The pixels, row by row, for reading only.
    pub fn raw_pixels(&self) -> (r: &[Pixel])
        ensures
            r@ == self.image_model().pixels,
    {
        self.image.raw_pixels()
    }
}

/// A pass draws the same pixels whether or not the target held an earlier
/// one: every well-formed target starts a pass from a blank image.
pub proof fn pass_is_repeatable(t: RenderTarget, counts: Seq<Option<u16>>)
    requires
        t.wf(),
    ensures
        painted(t.pass_start(), counts) == painted(blank(t.image_model().pixels.len()), counts),
{
}

/// Drawing the same escape counts again, after a pass drew them, gives the
/// same pixels: the clear that a repeated pass makes first changes nothing.
pub proof fn second_pass_is_identical(t: RenderTarget, counts: Seq<Option<u16>>)
    requires
        t.wf(),
        t.is_dirty(),
        counts.len() == t.image_model().pixels.len(),
        t.image_model().pixels == painted(blank(counts.len()), counts),
    ensures
        painted(t.pass_start(), counts) == t.image_model().pixels,
{
}

} // verus!
