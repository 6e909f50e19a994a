use vstd::prelude::*;

verus! {

/// One rendered page: its size in pixels and its RGB8 samples, row-major,
/// three bytes per pixel, with no row padding.
#[derive(Clone, Debug)]
pub struct PageData {
    pub width: u16,
    pub height: u16,
    pub pixels: Vec<u8>,
}

/// The number of sample bytes that a page of the given size holds.
pub open spec fn pixel_bytes(width: u16, height: u16) -> nat {
    (width as nat) * (height as nat) * 3
}

/// A page as a mathematical value.
pub struct PageModel {
    pub width: u16,
    pub height: u16,
    pub pixels: Seq<u8>,
}

impl PageModel {
    /// The sample buffer holds exactly one RGB triplet per pixel.
    pub open spec fn wf(self) -> bool {
        self.pixels.len() == pixel_bytes(self.width, self.height)
    }
}

impl View for PageData {
    type V = PageModel;

    open spec fn view(&self) -> PageModel {
        PageModel { width: self.width, height: self.height, pixels: self.pixels@ }
    }
}

impl PageData {
    pub open spec fn wf(&self) -> bool {
        self@.wf()
    }

    pub fn new(width: u16, height: u16, pixels: Vec<u8>) -> (r: PageData)
        requires
            pixels@.len() == pixel_bytes(width, height),
        ensures
            r@ == (PageModel { width, height, pixels: pixels@ }),
            r.wf(),
    {
        PageData { width, height, pixels }
    }
}

} // verus!
