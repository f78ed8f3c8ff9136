//! The substance catalog: the closed set of substances and their attributes.
use vstd::prelude::*;

verus! {

/// The substance held by one cell. `Fire` carries its intensity, from 0 to 2.
#[derive(Clone, Copy, Debug, PartialEq, Eq, Hash, Structural)]
pub enum CellStates {
    Air,
    Sand,
    Border,
    Water,
    Plague,
    Wall,
    Barrier,
    Fire(u8),
    Gunpowder,
    Spark,
    Vapor,
}

/// The named penetrability tiers, from the most resistant to the least.
#[derive(Clone, Copy, Debug, PartialEq, Eq, Hash, Structural)]
pub enum Hardness {
    Unbreakable,
    Solid,
    Slime,
    Liquid,
    Gas,
    Plasma,
    Nothing,
}

/// A display color, one byte per channel.
#[derive(Clone, Copy, Debug, PartialEq, Eq, Hash, Structural)]
pub struct Rgba {
    pub r: u8,
    pub g: u8,
    pub b: u8,
    pub a: u8,
}

/// The hottest fire intensity; a spark's trail is made of it.
pub const FIRE_MAX: u8 = 2;

/// The numeric value of each tier.
pub open spec fn tier_value(h: Hardness) -> int {
    match h {
        Hardness::Unbreakable => 0,
        Hardness::Solid => 1,
        Hardness::Slime => 50,
        Hardness::Liquid => 100,
        Hardness::Gas => 200,
        Hardness::Plasma => 250,
        Hardness::Nothing => 300,
    }
}

/// The tier a substance belongs to.
pub open spec fn tier_of(s: CellStates) -> Hardness {
    match s {
        CellStates::Air => Hardness::Nothing,
        CellStates::Sand => Hardness::Solid,
        CellStates::Water => Hardness::Liquid,
        CellStates::Plague => Hardness::Solid,
        CellStates::Wall => Hardness::Solid,
        CellStates::Barrier => Hardness::Unbreakable,
        CellStates::Fire(_) => Hardness::Plasma,
        CellStates::Gunpowder => Hardness::Solid,
        CellStates::Spark => Hardness::Plasma,
        CellStates::Vapor => Hardness::Gas,
        CellStates::Border => Hardness::Unbreakable,
    }
}

/// Penetrability of a substance: a substance may move into a neighbor only
/// when the neighbor's penetrability is higher than its own.
pub open spec fn penetrability(s: CellStates) -> int {
    tier_value(tier_of(s))
}

/// A substance that may be stored in a live cell: never `Border`, and fire
/// no hotter than `FIRE_MAX`.
pub open spec fn storable(s: CellStates) -> bool {
    match s {
        CellStates::Border => false,
        CellStates::Fire(level) => level <= FIRE_MAX,
        _ => true,
    }
}

/// The reserved weight attribute; no rule reads it.
pub open spec fn weight_of(s: CellStates) -> int {
    match s {
        CellStates::Water => 5,
        _ => 1,
    }
}

/// The reserved baseline temperature; no rule reads it.
pub open spec fn temperature_of(s: CellStates) -> int {
    match s {
        CellStates::Fire(level) => if level == 0 {
            600
        } else if level == 1 {
            1000
        } else {
            1500
        },
        CellStates::Vapor => 100,
        CellStates::Spark => 1000,
        _ => 0,
    }
}

/// The color a substance is drawn with.
pub open spec fn color_of(s: CellStates) -> Rgba {
    match s {
        CellStates::Air => rgb(0, 0, 0),
        CellStates::Sand => rgb(255, 255, 51),
        CellStates::Water => rgb(0, 100, 230),
        CellStates::Plague => rgb(51, 200, 51),
        CellStates::Wall => rgb(204, 115, 100),
        CellStates::Barrier => rgb(230, 41, 55),
        CellStates::Vapor => rgb(179, 179, 230),
        CellStates::Fire(level) => if level == 0 {
            rgb(200, 255, 0)
        } else if level == 1 {
            rgb(200, 100, 0)
        } else {
            rgb(200, 0, 0)
        },
        CellStates::Gunpowder => rgb(51, 51, 51),
        CellStates::Spark => rgb(255, 255, 255),
        CellStates::Border => rgb(0, 0, 0),
    }
}

/// An opaque color.
pub open spec fn rgb(r: u8, g: u8, b: u8) -> Rgba {
    Rgba { r, g, b, a: 255 }
}

/// The substances offered as brushes, in the order they are shown.
pub open spec fn brush_choices() -> Seq<CellStates> {
    seq![
        CellStates::Wall,
        CellStates::Sand,
        CellStates::Water,
        CellStates::Plague,
        CellStates::Fire(FIRE_MAX),
        CellStates::Gunpowder,
        CellStates::Barrier,
    ]
}

/// The display name of a substance.
pub open spec fn name_of(s: CellStates) -> Seq<char> {
    match s {
        CellStates::Air => "Air"@,
        CellStates::Wall => "Wall"@,
        CellStates::Sand => "Sand"@,
        CellStates::Border => "Border"@,
        CellStates::Water => "Water"@,
        CellStates::Plague => "Plague"@,
        CellStates::Barrier => "Barrier"@,
        CellStates::Fire(_) => "Fire"@,
        CellStates::Gunpowder => "Gunpowder"@,
        CellStates::Spark => "Spark"@,
        CellStates::Vapor => "Vapor"@,
    }
}

impl Hardness {
    /// The numeric value of the tier.
    pub fn value(&self) -> (r: i32)
        ensures
            r == tier_value(*self),
    {
        match self {
            Hardness::Unbreakable => 0,
            Hardness::Solid => 1,
            Hardness::Slime => 50,
            Hardness::Liquid => 100,
            Hardness::Gas => 200,
            Hardness::Plasma => 250,
            Hardness::Nothing => 300,
        }
    }
}

impl CellStates {
    /// The tier this substance belongs to.
    pub fn tier(&self) -> (r: Hardness)
        ensures
            r == tier_of(*self),
    {
        match self {
            CellStates::Air => Hardness::Nothing,
            CellStates::Sand => Hardness::Solid,
            CellStates::Water => Hardness::Liquid,
            CellStates::Plague => Hardness::Solid,
            CellStates::Wall => Hardness::Solid,
            CellStates::Barrier => Hardness::Unbreakable,
            CellStates::Fire(_) => Hardness::Plasma,
            CellStates::Gunpowder => Hardness::Solid,
            CellStates::Spark => Hardness::Plasma,
            CellStates::Vapor => Hardness::Gas,
            CellStates::Border => Hardness::Unbreakable,
        }
    }

    /// The penetrability of this substance.
    pub fn hardness(&self) -> (r: i32)
        ensures
            r == penetrability(*self),
    {
        self.tier().value()
    }

    /// The reserved weight attribute.
    pub fn weight(&self) -> (r: i32)
        ensures
            r == weight_of(*self),
    {
        match self {
            CellStates::Water => 5,
            _ => 1,
        }
    }

    /// The reserved baseline temperature.
    pub fn temperature(&self) -> (r: i32)
        requires
            storable(*self) || *self == CellStates::Border,
        ensures
            r == temperature_of(*self),
    {
        match self {
            CellStates::Fire(level) => {
                if *level == 0 {
                    600
                } else if *level == 1 {
                    1000
                } else {
                    1500
                }
            },
            CellStates::Vapor => 100,
            CellStates::Spark => 1000,
            _ => 0,
        }
    }

    /// The color this substance is drawn with. `Border` is never drawn.
    pub fn color(&self) -> (r: Rgba)
        requires
            storable(*self),
        ensures
            r == color_of(*self),
    {
        match self {
            CellStates::Air => Rgba { r: 0, g: 0, b: 0, a: 255 },
            CellStates::Sand => Rgba { r: 255, g: 255, b: 51, a: 255 },
            CellStates::Water => Rgba { r: 0, g: 100, b: 230, a: 255 },
            CellStates::Plague => Rgba { r: 51, g: 200, b: 51, a: 255 },
            CellStates::Wall => Rgba { r: 204, g: 115, b: 100, a: 255 },
            CellStates::Barrier => Rgba { r: 230, g: 41, b: 55, a: 255 },
            CellStates::Vapor => Rgba { r: 179, g: 179, b: 230, a: 255 },
            CellStates::Fire(level) => {
                if *level == 0 {
                    Rgba { r: 200, g: 255, b: 0, a: 255 }
                } else if *level == 1 {
                    Rgba { r: 200, g: 100, b: 0, a: 255 }
                } else {
                    Rgba { r: 200, g: 0, b: 0, a: 255 }
                }
            },
            CellStates::Gunpowder => Rgba { r: 51, g: 51, b: 51, a: 255 },
            CellStates::Spark => Rgba { r: 255, g: 255, b: 255, a: 255 },
            CellStates::Border => Rgba { r: 0, g: 0, b: 0, a: 255 },
        }
    }

    /// The substances offered as brushes, in display order: every storable
    /// substance but `Air`, `Spark` and `Vapor`, with fire at its hottest.
    pub fn list() -> (r: Vec<CellStates>)
        ensures
            r@ == brush_choices(),
    {
        let r = vec![
            CellStates::Wall,
            CellStates::Sand,
            CellStates::Water,
            CellStates::Plague,
            CellStates::Fire(FIRE_MAX),
            CellStates::Gunpowder,
            CellStates::Barrier,
        ];
        assert(r@ =~= brush_choices());
        r
    }

    /// Whether this substance may be stored in a live cell.
    pub fn storable(&self) -> (r: bool)
        ensures
            r == storable(*self),
    {
        match self {
            CellStates::Border => false,
            CellStates::Fire(level) => *level <= FIRE_MAX,
            _ => true,
        }
    }

    /// The display name of this substance.
    pub fn name(&self) -> (r: &'static str)
        ensures
            r@ == name_of(*self),
    {
        proof {
            reveal_strlit("Air");
            reveal_strlit("Wall");
            reveal_strlit("Sand");
            reveal_strlit("Border");
            reveal_strlit("Water");
            reveal_strlit("Plague");
            reveal_strlit("Barrier");
            reveal_strlit("Fire");
            reveal_strlit("Gunpowder");
            reveal_strlit("Spark");
            reveal_strlit("Vapor");
        }
        match self {
            CellStates::Air => "Air",
            CellStates::Wall => "Wall",
            CellStates::Sand => "Sand",
            CellStates::Border => "Border",
            CellStates::Water => "Water",
            CellStates::Plague => "Plague",
            CellStates::Barrier => "Barrier",
            CellStates::Fire(_) => "Fire",
            CellStates::Gunpowder => "Gunpowder",
            CellStates::Spark => "Spark",
            CellStates::Vapor => "Vapor",
        }
    }
}

} // verus!
