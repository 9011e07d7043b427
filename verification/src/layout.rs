//! Column layout for the task table: per-column width trackers that only
//! ever grow, and the computation of the leftover width handed to the
//! free-form fields column.

use vstd::prelude::*;

verus! {

/// Tracks the character width of one table column: the maximum of the
/// header label's length and of every value ever rendered into the column.
/// The width never shrinks for the lifetime of the view, so a single short
/// value cannot make the table jitter.
pub struct Width {
    chars: u16,
}

/// The width a tracker holds after seeing `vals`, starting from `init`:
/// the running maximum of `init` and every value.
pub open spec fn tracked_width(init: u16, vals: Seq<u16>) -> u16
    decreases vals.len(),
{
    if vals.len() == 0 {
        init
    } else {
        let prev = tracked_width(init, vals.drop_last());
        if vals.last() > prev {
            vals.last()
        } else {
            prev
        }
    }
}

/// A width tracker never shrinks and never drops below its seed: after any
/// sequence of rendered values it is at least the seed (the header label's
/// length), at least every value seen, and extending the sequence can only
/// grow it.
pub proof fn lemma_tracked_width_monotone(init: u16, vals: Seq<u16>)
    ensures
        tracked_width(init, vals) >= init,
        forall|i: int| 0 <= i < vals.len() ==> tracked_width(init, vals) >= vals[i],
        vals.len() > 0 ==> tracked_width(init, vals) >= tracked_width(init, vals.drop_last()),
    decreases vals.len(),
{
    if vals.len() > 0 {
        lemma_tracked_width_monotone(init, vals.drop_last());
        assert forall|i: int| 0 <= i < vals.len() implies tracked_width(init, vals) >= vals[i] by {
            if i < vals.len() - 1 {
                assert(vals.drop_last()[i] == vals[i]);
            }
        }
    }
}

/// One more value moves the tracked width to the maximum of itself and
/// that value.
pub proof fn lemma_tracked_width_push(init: u16, vals: Seq<u16>, v: u16)
    ensures
        tracked_width(init, vals.push(v)) == if v > tracked_width(init, vals) {
            v
        } else {
            tracked_width(init, vals)
        },
{
    assert(vals.push(v).drop_last() =~= vals);
    assert(vals.push(v).last() == v);
}

impl Width {
    pub closed spec fn chars_spec(&self) -> u16 {
        self.chars
    }

    /// A new tracker, seeded with the column header's length.
    pub fn new(min: u16) -> (w: Width)
        ensures
            w.chars_spec() == min,
    {
        Width { chars: min }
    }

    /// Record one rendered value's length; the tracked width becomes the
    /// maximum of itself and the value and therefore never decreases.
    pub fn update_len(&mut self, len: u16)
        ensures
            final(self).chars_spec() == if len > old(self).chars_spec() {
                len
            } else {
                old(self).chars_spec()
            },
            final(self).chars_spec() >= old(self).chars_spec(),
            final(self).chars_spec() >= len,
    {
        if len > self.chars {
            self.chars = len;
        }
    }

    pub fn chars(&self) -> (c: u16)
        ensures
            c == self.chars_spec(),
    {
        self.chars
    }
}

/// The width left over for the free-form fields column once every fixed
/// column has been paid for: `frame_width - fixed_total`, clamped at zero
/// instead of underflowing when the frame is narrower than the fixed
/// columns. `fixed_total` is a `u32` so that summing several `u16` column
/// widths cannot overflow before the clamp is applied.
pub fn fields_width(frame_width: u16, fixed_total: u32) -> (w: u16)
    ensures
        fixed_total <= frame_width ==> w == frame_width - fixed_total,
        fixed_total > frame_width ==> w == 0,
{
    if fixed_total <= frame_width as u32 {
        frame_width - (fixed_total as u16)
    } else {
        0
    }
}

} // verus!
