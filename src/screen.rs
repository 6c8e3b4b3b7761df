use crate::error::Chip8Error;
use vstd::prelude::*;

verus! {

pub const SCREEN_WIDTH: usize = 64;

pub const SCREEN_HEIGHT: usize = 32;

/// Number of pixels, `SCREEN_WIDTH * SCREEN_HEIGHT`.
pub const SCREEN_SIZE: usize = 2048;

/// A 64 by 32 monochrome framebuffer, stored row-major: pixel `(x, y)` is at `x + y * 64`.
pub struct Screen {
    pixels: [bool; SCREEN_SIZE],
}

impl View for Screen {
    type V = Seq<bool>;

    closed spec fn view(&self) -> Seq<bool> {
        self.pixels@
    }
}

/// A framebuffer with every pixel off.
pub open spec fn dark_pixels() -> Seq<bool> {
    Seq::new(SCREEN_SIZE as nat, |i: int| false)
}

/// The framebuffer always holds exactly `SCREEN_SIZE` pixels.
pub broadcast proof fn lemma_screen_len(s: &Screen)
    ensures
        #[trigger] s@.len() == SCREEN_SIZE,
{
}

impl Screen {
    pub fn new() -> (r: Screen)
        ensures
            r@ == dark_pixels(),
    {
        let r = Screen { pixels: [false; SCREEN_SIZE] };
        assert(r@ =~= dark_pixels());
        r
    }

    /// Turns every pixel off.
    pub fn clear_screen(&mut self)
        ensures
            final(self)@ == dark_pixels(),
    {
        self.pixels = [false; SCREEN_SIZE];
        assert(self@ =~= dark_pixels());
    }

    /// The pixel at a row-major index.
    pub fn get_pixel(&self, index: usize) -> (r: Result<bool, Chip8Error>)
        ensures
            index < SCREEN_SIZE ==> r == Ok::<bool, Chip8Error>(self@[index as int]),
            index >= SCREEN_SIZE ==> r == Err::<bool, Chip8Error>(Chip8Error::AddressOutOfRange),
    {
        if index < SCREEN_SIZE {
            Ok(self.pixels[index])
        } else {
            Err(Chip8Error::AddressOutOfRange)
        }
    }

    /// Flips the pixel at a row-major index and returns the value it had before.
    pub fn xor_pixel(&mut self, index: usize) -> (r: Result<bool, Chip8Error>)
        ensures
            index < SCREEN_SIZE ==> {
                &&& r == Ok::<bool, Chip8Error>(old(self)@[index as int])
                &&& final(self)@ == old(self)@.update(index as int, !old(self)@[index as int])
            },
            index >= SCREEN_SIZE ==> {
                &&& r == Err::<bool, Chip8Error>(Chip8Error::AddressOutOfRange)
                &&& final(self)@ == old(self)@
            },
    {
        if index < SCREEN_SIZE {
            let before = self.pixels[index];
            self.pixels[index] = !before;
            Ok(before)
        } else {
            Err(Chip8Error::AddressOutOfRange)
        }
    }

    /// All pixels, row-major, for rendering.
    pub fn get_pixels(&self) -> (r: &[bool])
        ensures
            r@ == self@,
    {
        self.pixels.as_slice()
    }
}

} // verus!
