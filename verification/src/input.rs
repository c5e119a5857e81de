//! The key strokes that type the squad-creation command into the game's
//! console.
use vstd::prelude::*;
use crate::text::chars_of;

verus! {

/// The console command that creates a squad.
pub const SQUAD_COMMAND: &'static str = "CreateSquad 12 0";

/// One key press: a Windows virtual-key code, with or without Shift.
#[derive(Clone, Copy, Debug, PartialEq, Eq, Structural)]
pub struct KeyStroke {
    pub vk: u16,
    pub shift: bool,
}

/// The stroke that types `c`: capitals with Shift, small letters by the key
/// of their capital, digits and space by their own codes; nothing for other
/// characters.
pub open spec fn stroke_of(c: char) -> Option<KeyStroke> {
    let u = c as u32;
    if 65 <= u <= 90 {
        Some(KeyStroke { vk: u as u16, shift: true })
    } else if 97 <= u <= 122 {
        Some(KeyStroke { vk: (u - 32) as u16, shift: false })
    } else if 48 <= u <= 57 {
        Some(KeyStroke { vk: u as u16, shift: false })
    } else if u == 32 {
        Some(KeyStroke { vk: 0x20, shift: false })
    } else {
        None
    }
}

/// The strokes for `text`, characters without a stroke skipped.
pub open spec fn strokes_of(text: Seq<char>) -> Seq<KeyStroke>
    decreases text.len(),
{
    if text.len() == 0 {
        Seq::empty()
    } else {
        let rest = strokes_of(text.drop_last());
        match stroke_of(text.last()) {
            Some(k) => rest.push(k),
            None => rest,
        }
    }
}

fn stroke_for(c: char) -> (r: Option<KeyStroke>)
    ensures
        r == stroke_of(c),
{
    let u = c as u32;
    if 65 <= u && u <= 90 {
        Some(KeyStroke { vk: u as u16, shift: true })
    } else if 97 <= u && u <= 122 {
        Some(KeyStroke { vk: (u - 32) as u16, shift: false })
    } else if 48 <= u && u <= 57 {
        Some(KeyStroke { vk: u as u16, shift: false })
    } else if u == 32 {
        Some(KeyStroke { vk: 0x20, shift: false })
    } else {
        None
    }
}

/// The key strokes that type `text` into the game's console.
pub fn console_strokes(text: &str) -> (r: Vec<KeyStroke>)
    ensures
        r@ == strokes_of(text@),
{
    let cs = chars_of(text);
    let mut r: Vec<KeyStroke> = Vec::new();
    let mut k: usize = 0;
    while k < cs.len()
        invariant
            0 <= k <= cs@.len(),
            cs@ == text@,
            r@ == strokes_of(cs@.take(k as int)),
        decreases cs@.len() - k,
    {
        proof {
            assert(cs@.take(k + 1).drop_last() == cs@.take(k as int));
            assert(cs@.take(k + 1).last() == cs@[k as int]);
        }
        match stroke_for(cs[k]) {
            Some(s) => r.push(s),
            None => {},
        }
        k = k + 1;
    }
    assert(cs@.take(cs@.len() as int) == cs@);
    r
}

} // verus!
