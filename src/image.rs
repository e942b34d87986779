use vstd::prelude::*;

use vstd::arithmetic::div_mod::lemma_fundamental_div_mod_converse;

verus! {

/// One output pixel: three channels, each in 0..=255.
#[derive(Clone, Copy, PartialEq, Eq, Structural, Debug)]
pub struct Rgb8 {
    pub r: u8,
    pub g: u8,
    pub b: u8,
}

impl Rgb8 {
    pub fn new(r: u8, g: u8, b: u8) -> (p: Rgb8)
        ensures
            p == (Rgb8 { r, g, b }),
    {
        Rgb8 { r, g, b }
    }
}

/// Position in the stored (emission) order of pixel `(x, y)`, where `y` is the
/// image-space row counted from the bottom: rows are stored from the top down,
/// each row from left to right.
pub open spec fn slot(width: nat, height: nat, x: nat, y: nat) -> nat {
    ((height - 1 - y) as nat) * width + x
}

proof fn lemma_slot_in_range(width: nat, height: nat, x: nat, y: nat)
    requires
        x < width,
        y < height,
    ensures
        ((height - 1 - y) as nat) * width <= width * height,
        slot(width, height, x, y) < width * height,
{
    let row = (height - 1 - y) as nat;
    assert(row + 1 <= height);
    assert(row * width + width <= height * width) by (nonlinear_arith)
        requires
            row + 1 <= height,
    ;
    assert(height * width == width * height) by (nonlinear_arith);
}

/// Distinct pixels of a grid have distinct slots.
pub proof fn lemma_slot_injective(width: nat, height: nat, x1: nat, y1: nat, x2: nat, y2: nat)
    requires
        x1 < width,
        y1 < height,
        x2 < width,
        y2 < height,
        slot(width, height, x1, y1) == slot(width, height, x2, y2),
    ensures
        x1 == x2,
        y1 == y2,
{
    let k = slot(width, height, x1, y1) as int;
    lemma_fundamental_div_mod_converse(k, width as int, (height - 1 - y1) as int, x1 as int);
    lemma_fundamental_div_mod_converse(k, width as int, (height - 1 - y2) as int, x2 as int);
}

/// Every slot of a `width` by `height` grid belongs to a pixel: the `k`-th
/// pixel written out is column `k % width` of the image-space row
/// `height - 1 - k / width`, so the rows come from the top down and each row
/// from left to right.
pub proof fn lemma_slot_onto(width: nat, height: nat, k: nat)
    requires
        k < width * height,
    ensures
        width > 0,
        k / width < height,
        slot(width, height, k % width, (height - 1 - k / width) as nat) == k,
{
    if width == 0 {
        assert(width * height == 0);
    }
    vstd::arithmetic::div_mod::lemma_fundamental_div_mod(k as int, width as int);
    vstd::arithmetic::div_mod::lemma_mod_bound(k as int, width as int);
    vstd::arithmetic::div_mod::lemma_div_pos_is_pos(k as int, width as int);
    if k / width >= height {
        assert(width * (k / width) >= width * height) by (nonlinear_arith)
            requires
                k / width >= height,
        ;
    }
    assert(width * (k / width) == (k / width) * width) by (nonlinear_arith);
}

/// A grid of pixels held in the order in which they are written out.
pub struct Image {
    width: usize,
    height: usize,
    pixels: Vec<Rgb8>,
}

impl Image {
    pub closed spec fn spec_width(&self) -> nat {
        self.width as nat
    }

    pub closed spec fn spec_height(&self) -> nat {
        self.height as nat
    }

    /// The pixels in emission order: top row first, each row left to right.
    pub closed spec fn view(&self) -> Seq<Rgb8> {
        self.pixels@
    }

    pub closed spec fn well_formed(&self) -> bool {
        &&& self.width * self.height <= usize::MAX
        &&& self.pixels@.len() == self.width * self.height
    }

    /// The pixel at column `x` and image-space row `y` (0 is the bottom row).
    pub open spec fn spec_pixel(&self, x: nat, y: nat) -> Rgb8 {
        self@[slot(self.spec_width(), self.spec_height(), x, y) as int]
    }

    /// An image of `width` by `height` pixels, all of them `fill`.
    pub fn new(width: usize, height: usize, fill: Rgb8) -> (img: Image)
        requires
            width * height <= usize::MAX,
        ensures
            img.well_formed(),
            img.spec_width() == width,
            img.spec_height() == height,
            img@ == Seq::new((width * height) as nat, |k: int| fill),
    {
        let n: usize = width * height;
        let mut pixels: Vec<Rgb8> = Vec::new();
        let mut k: usize = 0;
        while k < n
            invariant
                k <= n,
                pixels@ == Seq::new(k as nat, |i: int| fill),
            decreases n - k,
        {
            pixels.push(fill);
            k = k + 1;
        }
        Image { width, height, pixels }
    }

    pub fn width(&self) -> (w: usize)
        ensures
            w == self.spec_width(),
    {
        self.width
    }

    pub fn height(&self) -> (h: usize)
        ensures
            h == self.spec_height(),
    {
        self.height
    }

    pub fn pixels(&self) -> (p: &Vec<Rgb8>)
        ensures
            p@ == self@,
    {
        &self.pixels
    }

    /// The pixel at column `x` and image-space row `y` (0 is the bottom row).
    pub fn pixel(&self, x: usize, y: usize) -> (p: Rgb8)
        requires
            self.well_formed(),
            x < self.spec_width(),
            y < self.spec_height(),
        ensures
            p == self.spec_pixel(x as nat, y as nat),
    {
        proof {
            lemma_slot_in_range(self.width as nat, self.height as nat, x as nat, y as nat);
        }
        self.pixels[(self.height - 1 - y) * self.width + x]
    }

    /// Sets the pixel at column `x` and image-space row `y` (0 is the bottom row).
    pub fn set_pixel(&mut self, x: usize, y: usize, p: Rgb8)
        requires
            old(self).well_formed(),
            x < old(self).spec_width(),
            y < old(self).spec_height(),
        ensures
            final(self).well_formed(),
            final(self).spec_width() == old(self).spec_width(),
            final(self).spec_height() == old(self).spec_height(),
            final(self)@ == old(self)@.update(
                slot(old(self).spec_width(), old(self).spec_height(), x as nat, y as nat) as int,
                p,
            ),
            final(self).spec_pixel(x as nat, y as nat) == p,
            forall|x2: nat, y2: nat|
                x2 < old(self).spec_width() && y2 < old(self).spec_height() && !(x2 == x && y2
                    == y) ==> #[trigger] final(self).spec_pixel(x2, y2) == old(self).spec_pixel(
                    x2,
                    y2,
                ),
    {
        proof {
            lemma_slot_in_range(self.width as nat, self.height as nat, x as nat, y as nat);
        }
        let k: usize = (self.height - 1 - y) * self.width + x;
        self.pixels.set(k, p);
        proof {
            assert forall|x2: nat, y2: nat|
                x2 < old(self).spec_width() && y2 < old(self).spec_height() && !(x2 == x && y2
                    == y) implies #[trigger] self.spec_pixel(x2, y2) == old(self).spec_pixel(
                x2,
                y2,
            ) by {
                lemma_slot_in_range(self.width as nat, self.height as nat, x2, y2);
                if slot(self.width as nat, self.height as nat, x2, y2) == k {
                    lemma_slot_injective(
                        self.width as nat,
                        self.height as nat,
                        x2,
                        y2,
                        x as nat,
                        y as nat,
                    );
                }
            }
        }
    }
}

} // verus!
