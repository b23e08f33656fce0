use vstd::prelude::*;

verus! {

/// A decoded gag reference: a slot of a track's catalog, and whether the
/// organic variant is meant.
#[derive(Clone, Copy, Debug, PartialEq, Eq, Structural)]
pub struct GagRef {
    pub slot: u8,
    pub organic: bool,
}

/// The largest slot index of a track's catalog.
pub const MAX_SLOT: u8 = 7;

impl GagRef {
    /// A slot within the catalog; "pass" (slot 0) has no organic form.
    pub open spec fn wf(self) -> bool {
        self.slot <= MAX_SLOT && !(self.slot == 0 && self.organic)
    }

    /// The signed integer that stands for this reference in a document:
    /// the magnitude is the slot, a negative sign marks the organic variant.
    pub open spec fn spec_encode(self) -> int {
        if self.organic {
            -(self.slot as int)
        } else {
            self.slot as int
        }
    }

    pub fn encode(&self) -> (r: i64)
        ensures
            r == self.spec_encode(),
    {
        if self.organic {
            -(self.slot as i64)
        } else {
            self.slot as i64
        }
    }

    /// Decodes a signed reference: `None` when its magnitude lies outside
    /// the catalog.
    pub fn decode(v: i64) -> (r: Option<GagRef>)
        ensures
            r == spec_decode(v as int),
    {
        if v < -(MAX_SLOT as i64) || v > MAX_SLOT as i64 {
            None
        } else if v < 0 {
            Some(GagRef { slot: (-v) as u8, organic: true })
        } else {
            Some(GagRef { slot: v as u8, organic: false })
        }
    }
}

/// What a signed reference decodes to: organic when negative, the slot is
/// its magnitude, and nothing when the magnitude exceeds the catalog.
pub open spec fn spec_decode(v: int) -> Option<GagRef> {
    if v < -(MAX_SLOT as int) || v > MAX_SLOT as int {
        None
    } else if v < 0 {
        Some(GagRef { slot: (-v) as u8, organic: true })
    } else {
        Some(GagRef { slot: v as u8, organic: false })
    }
}

/// Decoding yields only well-formed references, and encoding gives back
/// the integer that was decoded.
pub proof fn lemma_decode_then_encode(v: int)
    ensures
        spec_decode(v) is Some <==> -(MAX_SLOT as int) <= v <= MAX_SLOT as int,
        spec_decode(v) is Some ==> spec_decode(v)->0.wf(),
        spec_decode(v) is Some ==> spec_decode(v)->0.spec_encode() == v,
{
}

/// Every well-formed reference survives encoding and decoding unchanged.
pub proof fn lemma_encode_then_decode(g: GagRef)
    requires
        g.wf(),
    ensures
        spec_decode(g.spec_encode()) == Some(g),
{
}

/// The reference 0 ("pass") is never organic, whatever track or cell it
/// stands in: it decodes to the plain pass slot, and no well-formed
/// reference to the pass slot is organic.
pub proof fn lemma_pass_is_never_organic(g: GagRef)
    requires
        g.wf(),
        g.slot == 0,
    ensures
        !g.organic,
        spec_decode(0) == Some(GagRef { slot: 0, organic: false }),
{
}

} // verus!
