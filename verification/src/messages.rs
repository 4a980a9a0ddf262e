//! Window messages and the parts of their parameters.
use vstd::prelude::*;

verus! {

pub const WM_DESTROY: u32 = 0x0002;

pub const WM_ACTIVATE: u32 = 0x0006;

pub const WM_CLOSE: u32 = 0x0010;

pub const WM_COMMAND: u32 = 0x0111;

pub const WM_TIMER: u32 = 0x0113;

pub const WM_HSCROLL: u32 = 0x0114;

pub const WM_LBUTTONUP: u32 = 0x0202;

pub const WM_HOTKEY: u32 = 0x0312;

/// The hot key that opens the panel: Ctrl+Shift+T.
pub const HOTKEY_ID: i32 = 1;

/// The virtual key code of the letter T.
pub const HOTKEY_KEY: u32 = 0x54;

pub const ANIM_TIMER_ID: usize = 1;

pub const BUBBLE_TIMER_ID: usize = 2;

/// The low word of a message parameter.
pub fn low_word(wparam: usize) -> (word: usize)
    ensures
        word == wparam % 0x10000,
{
    proof {
        assert(wparam & 0xffff == wparam % 0x10000) by (bit_vector);
    }
    wparam & 0xffff
}

/// Whether the low 32 bits of a message parameter name the hot key.
pub fn is_hotkey(wparam: usize) -> (b: bool)
    ensures
        b == (wparam as int % 0x1_0000_0000 == HOTKEY_ID),
{
    let low: u32 = (wparam as u64 & 0xffff_ffff) as u32;
    proof {
        let w: u64 = wparam as u64;
        assert(w & 0xffff_ffff == w % 0x1_0000_0000) by (bit_vector);
    }
    low == 1
}

/// The key of the hot key is that of the letter T: the key code of a letter is the code of
/// its capital.
pub proof fn lemma_hot_key_is_a_letter()
    ensures
        HOTKEY_KEY == 'T' as u32,
{
}

} // verus!
