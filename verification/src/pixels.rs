//! Decoded images: three bytes per pixel, row after row.

use vstd::prelude::*;

verus! {

/// What a decoded image is: its size and its bytes.
pub struct PixelGrid {
    pub width: nat,
    pub height: nat,
    pub data: Seq<u8>,
}

impl PixelGrid {
    /// A grid has at least one pixel and exactly three bytes for each.
    pub open spec fn well_formed(self) -> bool {
        &&& self.width > 0
        &&& self.height > 0
        &&& self.data.len() == 3 * self.width * self.height
    }
}

/// Why a buffer was not accepted as an image.
#[derive(Debug, Clone, Copy, PartialEq, Eq, Structural)]
pub enum PixelError {
    /// The width or the height is zero.
    Empty,
    /// The buffer does not hold three bytes for each pixel.
    SizeMismatch,
}

/// A decoded image in RGB, eight bits per channel.
#[derive(Debug)]
pub struct Pixels {
    width: u32,
    height: u32,
    data: Vec<u8>,
}

impl View for Pixels {
    type V = PixelGrid;

    closed spec fn view(&self) -> PixelGrid {
        PixelGrid { width: self.width as nat, height: self.height as nat, data: self.data@ }
    }
}

impl Pixels {
    #[verifier::type_invariant]
    spec fn inv(self) -> bool {
        self@.well_formed()
    }

    /// Accepts a buffer as an image of the given size, if it is one.
    pub fn new(width: u32, height: u32, data: Vec<u8>) -> (made: Result<Pixels, PixelError>)
        ensures
            match made {
                Ok(pixels) => {
                    &&& pixels@ == (PixelGrid { width: width as nat, height: height as nat, data: data@ })
                    &&& pixels@.well_formed()
                },
                Err(PixelError::Empty) => width == 0 || height == 0,
                Err(PixelError::SizeMismatch) => {
                    &&& width > 0
                    &&& height > 0
                    &&& data@.len() != 3 * width * height
                },
            },
    {
        if width == 0 || height == 0 {
            return Err(PixelError::Empty);
        }
        assert(width * height <= 0xffff_ffff * 0xffff_ffff) by (nonlinear_arith)
            requires
                width <= 0xffff_ffff,
                height <= 0xffff_ffff,
        ;
        let area: u128 = (width as u128) * (height as u128);
        let needed: u128 = 3 * area;
        assert(needed == 3 * width * height) by (nonlinear_arith)
            requires
                needed == 3 * area,
                area == width * height,
        ;
        if data.len() as u128 != needed {
            return Err(PixelError::SizeMismatch);
        }
        Ok(Pixels { width, height, data })
    }

    /// The number of pixels in a row.
    pub fn width(&self) -> (width: u32)
        ensures
            width == self@.width,
            self@.well_formed(),
    {
        proof {
            use_type_invariant(self);
        }
        self.width
    }

    /// The number of rows.
    pub fn height(&self) -> (height: u32)
        ensures
            height == self@.height,
            self@.well_formed(),
    {
        proof {
            use_type_invariant(self);
        }
        self.height
    }

    /// The bytes of the image: red, green and blue of each pixel, row by row.
    pub fn as_raw(&self) -> (data: &Vec<u8>)
        ensures
            data@ == self@.data,
            self@.well_formed(),
    {
        proof {
            use_type_invariant(self);
        }
        &self.data
    }
}

impl Clone for Pixels {
    fn clone(&self) -> (copy: Pixels)
        ensures
            copy@ == self@,
    {
        proof {
            use_type_invariant(self);
        }
        Pixels { width: self.width, height: self.height, data: self.data.clone() }
    }
}

} // verus!
