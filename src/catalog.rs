use vstd::prelude::*;

verus! {

/// A gag track. Every table lists the tracks in the order sound, throw,
/// squirt, drop.
#[derive(Clone, Copy, Debug, PartialEq, Eq, Structural)]
pub enum Track {
    Sound,
    Throw,
    Squirt,
    Drop,
}

/// Number of gag tracks.
pub const TRACK_COUNT: usize = 4;

/// Number of slots on each track; slot 0 is "pass".
pub const SLOT_COUNT: usize = 8;

/// The track at position `i` of the fixed track order.
pub open spec fn track_at(i: int) -> Track {
    if i == 0 {
        Track::Sound
    } else if i == 1 {
        Track::Throw
    } else if i == 2 {
        Track::Squirt
    } else {
        Track::Drop
    }
}

impl Track {
    /// The track's internal key, used as a CSS class and as a document key.
    pub open spec fn spec_key(self) -> &'static str {
        match self {
            Track::Sound => "sound",
            Track::Throw => "throw",
            Track::Squirt => "squirt",
            Track::Drop => "drop",
        }
    }

    pub fn key(&self) -> (r: &'static str)
        ensures
            r == self.spec_key(),
    {
        match self {
            Track::Sound => "sound",
            Track::Throw => "throw",
            Track::Squirt => "squirt",
            Track::Drop => "drop",
        }
    }

    /// The track at position `i` of the fixed order.
    pub fn from_index(i: usize) -> (r: Track)
        requires
            i < TRACK_COUNT,
        ensures
            r == track_at(i as int),
    {
        if i == 0 {
            Track::Sound
        } else if i == 1 {
            Track::Throw
        } else if i == 2 {
            Track::Squirt
        } else {
            Track::Drop
        }
    }
}

/// The internal key of slot `slot` on track `t` (the image file's stem).
pub open spec fn slot_key(t: Track, slot: int) -> &'static str {
    if slot == 0 {
        "pass"
    } else {
        match t {
            Track::Sound => if slot == 1 { "bikehorn" } else if slot == 2 { "whistle" }
                else if slot == 3 { "bugle" } else if slot == 4 { "aoogah" }
                else if slot == 5 { "elephant_trunk" } else if slot == 6 { "foghorn" }
                else { "opera_singer" },
            Track::Throw => if slot == 1 { "cupcake" } else if slot == 2 { "fruit_pie_slice" }
                else if slot == 3 { "cream_pie_slice" } else if slot == 4 { "fruit_pie" }
                else if slot == 5 { "cream_pie" } else if slot == 6 { "cake" }
                else { "wedding_cake" },
            Track::Squirt => if slot == 1 { "squirting_flower" } else if slot == 2 { "glass_of_water" }
                else if slot == 3 { "squirtgun" } else if slot == 4 { "seltzer_bottle" }
                else if slot == 5 { "fire_hose" } else if slot == 6 { "storm_cloud" }
                else { "geyser" },
            Track::Drop => if slot == 1 { "flowerpot" } else if slot == 2 { "sandbag" }
                else if slot == 3 { "anvil" } else if slot == 4 { "big_weight" }
                else if slot == 5 { "safe" } else if slot == 6 { "grand_piano" }
                else { "toontanic" },
        }
    }
}

/// The display label of slot `slot` on track `t`.
pub open spec fn slot_label(t: Track, slot: int) -> &'static str {
    if slot == 0 {
        "Pass"
    } else {
        match t {
            Track::Sound => if slot == 1 { "Bikehorn" } else if slot == 2 { "Whistle" }
                else if slot == 3 { "Bugle" } else if slot == 4 { "Aoogah" }
                else if slot == 5 { "Elephant Trunk" } else if slot == 6 { "Foghorn" }
                else { "Opera Singer" },
            Track::Throw => if slot == 1 { "Cupcake" } else if slot == 2 { "Fruit Pie Slice" }
                else if slot == 3 { "Cream Pie Slice" } else if slot == 4 { "Fruit Pie" }
                else if slot == 5 { "Cream Pie" } else if slot == 6 { "Cake" }
                else { "Wedding Cake" },
            Track::Squirt => if slot == 1 { "Squirting Flower" } else if slot == 2 { "Glass of Water" }
                else if slot == 3 { "Squirtgun" } else if slot == 4 { "Seltzer Bottle" }
                else if slot == 5 { "Fire Hose" } else if slot == 6 { "Storm Cloud" }
                else { "Geyser" },
            Track::Drop => if slot == 1 { "Flowerpot" } else if slot == 2 { "Sandbag" }
                else if slot == 3 { "Anvil" } else if slot == 4 { "Big Weight" }
                else if slot == 5 { "Safe" } else if slot == 6 { "Grand Piano" }
                else { "Toontanic" },
        }
    }
}

/// Looks up the internal key of a slot; the slot index is bounded by the
/// catalog's size.
pub fn slot_key_of(t: Track, slot: u8) -> (r: &'static str)
    requires
        (slot as usize) < SLOT_COUNT,
    ensures
        r == slot_key(t, slot as int),
{
    if slot == 0 {
        "pass"
    } else {
        match t {
            Track::Sound => if slot == 1 { "bikehorn" } else if slot == 2 { "whistle" }
                else if slot == 3 { "bugle" } else if slot == 4 { "aoogah" }
                else if slot == 5 { "elephant_trunk" } else if slot == 6 { "foghorn" }
                else { "opera_singer" },
            Track::Throw => if slot == 1 { "cupcake" } else if slot == 2 { "fruit_pie_slice" }
                else if slot == 3 { "cream_pie_slice" } else if slot == 4 { "fruit_pie" }
                else if slot == 5 { "cream_pie" } else if slot == 6 { "cake" }
                else { "wedding_cake" },
            Track::Squirt => if slot == 1 { "squirting_flower" } else if slot == 2 { "glass_of_water" }
                else if slot == 3 { "squirtgun" } else if slot == 4 { "seltzer_bottle" }
                else if slot == 5 { "fire_hose" } else if slot == 6 { "storm_cloud" }
                else { "geyser" },
            Track::Drop => if slot == 1 { "flowerpot" } else if slot == 2 { "sandbag" }
                else if slot == 3 { "anvil" } else if slot == 4 { "big_weight" }
                else if slot == 5 { "safe" } else if slot == 6 { "grand_piano" }
                else { "toontanic" },
        }
    }
}

/// Looks up the display label of a slot.
pub fn slot_label_of(t: Track, slot: u8) -> (r: &'static str)
    requires
        (slot as usize) < SLOT_COUNT,
    ensures
        r == slot_label(t, slot as int),
{
    if slot == 0 {
        "Pass"
    } else {
        match t {
            Track::Sound => if slot == 1 { "Bikehorn" } else if slot == 2 { "Whistle" }
                else if slot == 3 { "Bugle" } else if slot == 4 { "Aoogah" }
                else if slot == 5 { "Elephant Trunk" } else if slot == 6 { "Foghorn" }
                else { "Opera Singer" },
            Track::Throw => if slot == 1 { "Cupcake" } else if slot == 2 { "Fruit Pie Slice" }
                else if slot == 3 { "Cream Pie Slice" } else if slot == 4 { "Fruit Pie" }
                else if slot == 5 { "Cream Pie" } else if slot == 6 { "Cake" }
                else { "Wedding Cake" },
            Track::Squirt => if slot == 1 { "Squirting Flower" } else if slot == 2 { "Glass of Water" }
                else if slot == 3 { "Squirtgun" } else if slot == 4 { "Seltzer Bottle" }
                else if slot == 5 { "Fire Hose" } else if slot == 6 { "Storm Cloud" }
                else { "Geyser" },
            Track::Drop => if slot == 1 { "Flowerpot" } else if slot == 2 { "Sandbag" }
                else if slot == 3 { "Anvil" } else if slot == 4 { "Big Weight" }
                else if slot == 5 { "Safe" } else if slot == 6 { "Grand Piano" }
                else { "Toontanic" },
        }
    }
}

} // verus!
