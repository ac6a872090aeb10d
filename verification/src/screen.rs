//! In-memory screen state: the 64x32 pixel buffer and the 16-key keypad.
//! A presentation front-end renders the buffer and feeds the keypad; the
//! interpreter reads and writes it through the verified methods here.
use vstd::prelude::*;

use crate::model::ScreenV;
use crate::model::N_KEYS;
use crate::model::N_PIXELS;
use crate::model::SCREEN_W;
use crate::model::blank_screen;
use crate::model::first_key;
use crate::model::key_down;
use crate::model::screen_wf;
use crate::model::xor_bit;

verus! {

pub struct Screen {
    pixels: Vec<u8>,
    keypad: Vec<bool>,
}

impl View for Screen {
    type V = ScreenV;

    closed spec fn view(&self) -> ScreenV {
        ScreenV { pixels: self.pixels@, keypad: self.keypad@ }
    }
}

impl Screen {
    pub open spec fn wf(&self) -> bool {
        screen_wf(self@)
    }

    /// A screen with every pixel off and every key up.
    pub fn new() -> (s: Screen)
        ensures
            s.wf(),
            s@ == blank_screen(),
    {
        let mut pixels: Vec<u8> = Vec::new();
        let mut i: usize = 0;
        while i < N_PIXELS
            invariant
                i <= 2048,
                pixels@ == Seq::new(i as nat, |k: int| 0u8),
            decreases 2048 - i,
        {
            pixels.push(0);
            proof {
                assert(pixels@ =~= Seq::new((i + 1) as nat, |k: int| 0u8));
            }
            i = i + 1;
        }
        let mut keypad: Vec<bool> = Vec::new();
        let mut j: usize = 0;
        while j < N_KEYS
            invariant
                j <= 16,
                keypad@ == Seq::new(j as nat, |k: int| false),
            decreases 16 - j,
        {
            keypad.push(false);
            proof {
                assert(keypad@ =~= Seq::new((j + 1) as nat, |k: int| false));
            }
            j = j + 1;
        }
        let s = Screen { pixels, keypad };
        proof {
            assert(s@ =~= blank_screen());
        }
        s
    }

    /// Turn every pixel off; the keypad is untouched.
    pub fn clear(&mut self)
        requires
            old(self).wf(),
        ensures
            final(self).wf(),
            final(self)@ == (ScreenV { pixels: blank_screen().pixels, ..old(self)@ }),
    {
        let mut i: usize = 0;
        while i < N_PIXELS
            invariant
                i <= 2048,
                self.pixels@.len() == 2048,
                self.keypad@ == old(self)@.keypad,
                self.keypad@.len() == 16,
                forall|k: int| 0 <= k < i ==> self.pixels@[k] == 0,
                forall|k: int| 0 <= k < 2048 ==> self.pixels@[k] <= 1,
            decreases 2048 - i,
        {
            self.pixels.set(i, 0);
            i = i + 1;
        }
        proof {
            assert(self@.pixels =~= blank_screen().pixels);
            assert(self@ =~= (ScreenV { pixels: blank_screen().pixels, ..old(self)@ }));
        }
    }

    /// Xor one bit into the pixel at (x, y) and report the bit that was there.
    pub fn draw_pixel(&mut self, x: u8, y: u8, bit: u8) -> (prev: u8)
        requires
            old(self).wf(),
            x < 64,
            y < 32,
            bit <= 1,
        ensures
            final(self).wf(),
            prev == old(self)@.pixels[y as int * 64 + x as int],
            final(self)@.pixels == old(self)@.pixels.update(
                y as int * 64 + x as int,
                xor_bit(prev, bit),
            ),
            final(self)@.keypad == old(self)@.keypad,
    {
        let i: usize = (y as usize) * SCREEN_W + (x as usize);
        let prev: u8 = self.pixels[i];
        let next: u8 = if bit == 1 {
            if prev == 1 {
                0
            } else {
                1
            }
        } else {
            prev
        };
        self.pixels.set(i, next);
        prev
    }

    /// The pixel at (x, y).
    pub fn pixel_at(&self, x: u8, y: u8) -> (p: u8)
        requires
            self.wf(),
            x < 64,
            y < 32,
        ensures
            p == self@.pixels[y as int * 64 + x as int],
    {
        self.pixels[(y as usize) * SCREEN_W + (x as usize)]
    }

    /// Whether key `key` is held; keys outside the keypad are never held.
    pub fn is_key_pressed(&self, key: u8) -> (r: bool)
        requires
            self.wf(),
        ensures
            r == key_down(self@, key),
    {
        key < 16 && self.keypad[key as usize]
    }

    /// The lowest-numbered held key, if any key is held.
    pub fn get_key_pressed(&self) -> (r: Option<u8>)
        requires
            self.wf(),
        ensures
            r == first_key(self@.keypad, 0),
    {
        let mut i: usize = 0;
        while i < 16
            invariant
                i <= 16,
                self.wf(),
                first_key(self@.keypad, 0) == first_key(self@.keypad, i as int),
            decreases 16 - i,
        {
            if self.keypad[i] {
                return Some(i as u8);
            }
            i = i + 1;
        }
        None
    }

    /// Press or release one key.
    pub fn set_key(&mut self, key: u8, down: bool)
        requires
            old(self).wf(),
            key < 16,
        ensures
            final(self).wf(),
            final(self)@ == (ScreenV {
                keypad: old(self)@.keypad.update(key as int, down),
                ..old(self)@
            }),
    {
        self.keypad.set(key as usize, down);
        proof {
            assert(self@ =~= (ScreenV {
                keypad: old(self)@.keypad.update(key as int, down),
                ..old(self)@
            }));
        }
    }
}

} // verus!
