//! The colour palette: 1024 packed 32-bit ARGB colours forming a cyclic
//! gradient (dark red, orange, white, cyan, blue, near-black and back to
//! dark red), built once by linear interpolation between sixteen anchor
//! colours, 64 entries per segment.  Every entry is fully opaque and none
//! equals the sentinel colour that marks points inside the set.

use vstd::prelude::*;

verus! {

use vstd::arithmetic::div_mod::{
    lemma_div_is_ordered, lemma_div_multiples_vanish, lemma_div_pos_is_pos,
    lemma_multiply_divide_lt,
};
use vstd::arithmetic::mul::{lemma_mul_is_commutative, lemma_mul_inequality, lemma_mul_nonnegative};
use crate::evaluate::EscapeValue;

/// Number of palette entries.
pub const PALETTE_SIZE: usize = 1024;

/// The sentinel colour for points taken to be inside the set: opaque
/// black.
pub const SET_COLOR: u32 = 0xFF00_0000;

/// The anchor colours as (red, green, blue) channels.  The green channel
/// is at least 2 everywhere, which keeps every interpolated entry distinct
/// from the sentinel.
pub open spec fn anchor_s(k: int) -> (int, int, int) {
    if k == 0 {
        (0x64, 0x07, 0x00)
    } else if k == 1 {
        (0x94, 0x2e, 0x06)
    } else if k == 2 {
        (0xb3, 0x4c, 0x11)
    } else if k == 3 {
        (0xc6, 0x64, 0x1c)
    } else if k == 4 {
        (0xd6, 0x83, 0x33)
    } else if k == 5 {
        (0xe1, 0xa0, 0x53)
    } else if k == 6 {
        (0xf1, 0xce, 0x95)
    } else if k == 7 {
        (0xf9, 0xe9, 0xc1)
    } else if k == 8 {
        (0xfe, 0xfe, 0xee)
    } else if k == 9 {
        (0xe4, 0xf9, 0xf3)
    } else if k == 10 {
        (0x8e, 0xe6, 0xf9)
    } else if k == 11 {
        (0x3a, 0xce, 0xfc)
    } else if k == 12 {
        (0x00, 0xa6, 0xfe)
    } else if k == 13 {
        (0x00, 0x83, 0xdc)
    } else if k == 14 {
        (0x00, 0x24, 0x44)
    } else {
        (0x00, 0x02, 0x00)
    }
}

/// Linear interpolation between two channel values, 64 steps per segment,
/// rounded toward the first value.
pub open spec fn lerp_s(a: int, b: int, j: int) -> int {
    if b >= a {
        a + (b - a) * j / 64
    } else {
        a - (a - b) * j / 64
    }
}

/// An interpolated channel stays within the channel range and never drops
/// below either endpoint's minimum.
pub proof fn lemma_lerp_bounds(a: int, b: int, j: int)
    requires
        0 <= a <= 255,
        0 <= b <= 255,
        0 <= j < 64,
    ensures
        0 <= lerp_s(a, b, j) <= 255,
        lerp_s(a, b, j) >= (if a <= b {
            a
        } else {
            b
        }),
{
    if b >= a {
        lemma_mul_nonnegative(b - a, j);
        lemma_div_pos_is_pos((b - a) * j, 64);
        lemma_mul_inequality(j, 64, b - a);
        lemma_mul_is_commutative(j, b - a);
        lemma_mul_is_commutative(64, b - a);
        lemma_div_is_ordered((b - a) * j, (b - a) * 64, 64);
        lemma_mul_is_commutative(b - a, 64);
        lemma_div_multiples_vanish(b - a, 64);
        assert((64 * (b - a)) / 64 == b - a);
    } else {
        lemma_mul_nonnegative(a - b, j);
        lemma_div_pos_is_pos((a - b) * j, 64);
        lemma_mul_inequality(j, 64, a - b);
        lemma_mul_is_commutative(j, a - b);
        lemma_mul_is_commutative(64, a - b);
        lemma_div_is_ordered((a - b) * j, (a - b) * 64, 64);
        lemma_mul_is_commutative(a - b, 64);
        lemma_div_multiples_vanish(a - b, 64);
        assert((64 * (a - b)) / 64 == a - b);
    }
}

/// The palette entry at index `i`: interpolation within the segment
/// `i / 64`, wrapping from the last anchor back to the first, packed as
/// opaque ARGB.
pub open spec fn palette_entry_s(i: int) -> int {
    let k = i / 64;
    let j = i % 64;
    let a1 = anchor_s(k);
    let a2 = anchor_s(if k == 15 {
        0int
    } else {
        k + 1
    });
    (SET_COLOR as int) + lerp_s(a1.0, a2.0, j) * 65536 + lerp_s(a1.1, a2.1, j) * 256 + lerp_s(
        a1.2,
        a2.2,
        j,
    )
}

/// Every anchor channel is a byte, and the green channel is at least 2.
pub proof fn lemma_anchor_bounds(k: int)
    ensures
        0 <= anchor_s(k).0 <= 255,
        2 <= anchor_s(k).1 <= 255,
        0 <= anchor_s(k).2 <= 255,
{
}

/// Every palette entry is fully opaque and differs from the sentinel.
pub proof fn lemma_palette_entry_bounds(i: int)
    requires
        0 <= i < PALETTE_SIZE,
    ensures
        (SET_COLOR as int) < palette_entry_s(i) <= 0xFFFF_FFFF,
{
    let k = i / 64;
    let j = i % 64;
    let kn = if k == 15 {
        0int
    } else {
        k + 1
    };
    lemma_anchor_bounds(k);
    lemma_anchor_bounds(kn);
    lemma_lerp_bounds(anchor_s(k).0, anchor_s(kn).0, j);
    lemma_lerp_bounds(anchor_s(k).1, anchor_s(kn).1, j);
    lemma_lerp_bounds(anchor_s(k).2, anchor_s(kn).2, j);
}

/// Executable anchor lookup; see `anchor_s`.
fn anchor(k: usize) -> (c: (u32, u32, u32))
    requires
        k < 16,
    ensures
        c.0 as int == anchor_s(k as int).0,
        c.1 as int == anchor_s(k as int).1,
        c.2 as int == anchor_s(k as int).2,
{
    if k == 0 {
        (0x64, 0x07, 0x00)
    } else if k == 1 {
        (0x94, 0x2e, 0x06)
    } else if k == 2 {
        (0xb3, 0x4c, 0x11)
    } else if k == 3 {
        (0xc6, 0x64, 0x1c)
    } else if k == 4 {
        (0xd6, 0x83, 0x33)
    } else if k == 5 {
        (0xe1, 0xa0, 0x53)
    } else if k == 6 {
        (0xf1, 0xce, 0x95)
    } else if k == 7 {
        (0xf9, 0xe9, 0xc1)
    } else if k == 8 {
        (0xfe, 0xfe, 0xee)
    } else if k == 9 {
        (0xe4, 0xf9, 0xf3)
    } else if k == 10 {
        (0x8e, 0xe6, 0xf9)
    } else if k == 11 {
        (0x3a, 0xce, 0xfc)
    } else if k == 12 {
        (0x00, 0xa6, 0xfe)
    } else if k == 13 {
        (0x00, 0x83, 0xdc)
    } else if k == 14 {
        (0x00, 0x24, 0x44)
    } else {
        (0x00, 0x02, 0x00)
    }
}

/// Executable channel interpolation; see `lerp_s`.
fn lerp(a: u32, b: u32, j: u32) -> (c: u32)
    requires
        a <= 255,
        b <= 255,
        j < 64,
    ensures
        c as int == lerp_s(a as int, b as int, j as int),
        c <= 255,
{
    proof {
        lemma_lerp_bounds(a as int, b as int, j as int);
        assert((b as int - a as int) * (j as int) <= 255 * 64 && (a as int - b as int) * (j as int)
            <= 255 * 64) by (nonlinear_arith)
            requires
                -255 <= (b as int) - (a as int) <= 255,
                0 <= (j as int) < 64,
        ;
    }
    if b >= a {
        a + (b - a) * j / 64
    } else {
        a - (a - b) * j / 64
    }
}

/// Executable palette entry; see `palette_entry_s`.
fn palette_color_at(i: usize) -> (c: u32)
    requires
        i < PALETTE_SIZE,
    ensures
        c as int == palette_entry_s(i as int),
        SET_COLOR < c,
{
    proof {
        lemma_palette_entry_bounds(i as int);
    }
    let k = i / 64;
    let j = (i % 64) as u32;
    let first = anchor(k);
    let kn: usize = if k == 15 {
        0
    } else {
        k + 1
    };
    let second = anchor(kn);
    let r = lerp(first.0, second.0, j);
    let g = lerp(first.1, second.1, j);
    let b = lerp(first.2, second.2, j);
    SET_COLOR + r * 65536 + g * 256 + b
}

/// The palette: an immutable table of `PALETTE_SIZE` packed colours, each
/// equal to `palette_entry_s` at its index.
pub struct Palette {
    colors: Vec<u32>,
}

impl View for Palette {
    type V = Seq<u32>;

    closed spec fn view(&self) -> Seq<u32> {
        self.colors@
    }
}

/// The colour of a pixel: opaque black where the evaluator saw no
/// escape, otherwise the palette entry at the integer part of the
/// smoothed count modulo the table length.  The shade is below one, so
/// that integer part is the step count itself.
pub open spec fn color_s(r: Option<EscapeValue>) -> int {
    match r {
        Option::None => SET_COLOR as int,
        Option::Some(e) => palette_entry_s((e.steps as int) % (PALETTE_SIZE as int)),
    }
}

impl Palette {
    /// The table is complete and correct at every index.
    pub open spec fn wf(self) -> bool {
        &&& self@.len() == PALETTE_SIZE
        &&& forall|i: int| 0 <= i < PALETTE_SIZE ==> self@[i] == palette_entry_s(i)
    }

    /// Build the palette table.
    pub fn new() -> (p: Palette)
        ensures
            p.wf(),
    {
        let mut colors: Vec<u32> = Vec::new();
        let mut i: usize = 0;
        while i < PALETTE_SIZE
            invariant
                i <= PALETTE_SIZE,
                colors@.len() == i,
                forall|t: int| 0 <= t < i ==> colors@[t] == palette_entry_s(t),
            decreases PALETTE_SIZE - i,
        {
            let c = palette_color_at(i);
            colors.push(c);
            i = i + 1;
        }
        Palette { colors }
    }

    /// The palette index consulted for an escaping point: always within
    /// the table, whatever the step count.
    pub fn index_for(&self, e: &EscapeValue) -> (i: usize)
        ensures
            i < PALETTE_SIZE,
            i as int == (e.steps as int) % (PALETTE_SIZE as int),
    {
        (e.steps % 1024) as usize
    }

    /// The colour for one evaluator verdict; see `color_s`.
    pub fn color_for(&self, r: &Option<EscapeValue>) -> (c: u32)
        requires
            self.wf(),
        ensures
            c as int == color_s(*r),
    {
        match r {
            Option::None => SET_COLOR,
            Option::Some(e) => {
                let i = self.index_for(e);
                self.colors[i]
            },
        }
    }
}

} // verus!
