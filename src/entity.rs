//! Kinds of entities and the size of each, in hundredths of a block.

use vstd::prelude::*;

verus! {

/// Every kind of entity.
#[derive(Clone, Copy, Debug, PartialEq, Eq, Structural)]
pub enum EntityKind {
    Item,
    Painting,
    Boat,
    Minecart,
    Fish,
    LightningBolt,
    FallingBlock,
    Tnt,
    Arrow,
    Egg,
    Fireball,
    Snowball,
    Human,
    Ghast,
    Slime,
    Pig,
    Chicken,
    Cow,
    Sheep,
    Squid,
    Wolf,
    Creeper,
    Giant,
    PigZombie,
    Skeleton,
    Spider,
    Zombie,
}

/// The size of an entity's bounding box in hundredths of a block. A centered box
/// extends half its height below the entity's position; another one starts at it.
#[derive(Clone, Copy, Debug, PartialEq, Eq, Structural)]
pub struct Size {
    pub width: u32,
    pub height: u32,
    pub centered: bool,
}

/// A box that starts at the position.
pub open spec fn based(width: u32, height: u32) -> Size {
    Size { width, height, centered: false }
}

/// A box centered on the position.
pub open spec fn centered(width: u32, height: u32) -> Size {
    Size { width, height, centered: true }
}

/// The size of an entity of the given kind; a sleeping player and a slime of a given
/// size differ from the others of their kind.
pub open spec fn size_of(kind: EntityKind, sleeping: bool, slime_size: u8) -> Size {
    match kind {
        EntityKind::Item => centered(25, 25),
        EntityKind::Painting => based(50, 50),
        EntityKind::Boat => centered(150, 60),
        EntityKind::Minecart => centered(98, 70),
        EntityKind::Fish => based(25, 25),
        EntityKind::LightningBolt => based(0, 0),
        EntityKind::FallingBlock => centered(98, 98),
        EntityKind::Tnt => centered(98, 98),
        EntityKind::Arrow => based(50, 50),
        EntityKind::Egg => based(50, 50),
        EntityKind::Fireball => based(100, 100),
        EntityKind::Snowball => based(50, 50),
        EntityKind::Human => if sleeping { based(20, 20) } else { based(60, 180) },
        EntityKind::Ghast => based(400, 400),
        EntityKind::Slime => based((60 * slime_size) as u32, (60 * slime_size) as u32),
        EntityKind::Pig => based(90, 90),
        EntityKind::Chicken => based(30, 40),
        EntityKind::Cow => based(90, 130),
        EntityKind::Sheep => based(90, 130),
        EntityKind::Squid => based(95, 95),
        EntityKind::Wolf => based(80, 80),
        EntityKind::Creeper => based(60, 180),
        EntityKind::Giant => based(360, 1080),
        EntityKind::PigZombie => based(60, 180),
        EntityKind::Skeleton => based(60, 180),
        EntityKind::Spider => based(140, 90),
        EntityKind::Zombie => based(60, 180),
    }
}

fn new_based(width: u32, height: u32) -> (r: Size)
    ensures
        r == based(width, height),
{
    Size { width, height, centered: false }
}

fn new_centered(width: u32, height: u32) -> (r: Size)
    ensures
        r == centered(width, height),
{
    Size { width, height, centered: true }
}

/// The size of an entity of the given kind, computed when its size is not coherent.
pub fn calc_size(kind: EntityKind, sleeping: bool, slime_size: u8) -> (r: Size)
    ensures
        r == size_of(kind, sleeping, slime_size),
{
    match kind {
        EntityKind::Item => new_centered(25, 25),
        EntityKind::Painting => new_based(50, 50),
        EntityKind::Boat => new_centered(150, 60),
        EntityKind::Minecart => new_centered(98, 70),
        EntityKind::Fish => new_based(25, 25),
        EntityKind::LightningBolt => new_based(0, 0),
        EntityKind::FallingBlock => new_centered(98, 98),
        EntityKind::Tnt => new_centered(98, 98),
        EntityKind::Arrow => new_based(50, 50),
        EntityKind::Egg => new_based(50, 50),
        EntityKind::Fireball => new_based(100, 100),
        EntityKind::Snowball => new_based(50, 50),
        EntityKind::Human => if sleeping { new_based(20, 20) } else { new_based(60, 180) },
        EntityKind::Ghast => new_based(400, 400),
        EntityKind::Slime => new_based(60 * slime_size as u32, 60 * slime_size as u32),
        EntityKind::Pig => new_based(90, 90),
        EntityKind::Chicken => new_based(30, 40),
        EntityKind::Cow => new_based(90, 130),
        EntityKind::Sheep => new_based(90, 130),
        EntityKind::Squid => new_based(95, 95),
        EntityKind::Wolf => new_based(80, 80),
        EntityKind::Creeper => new_based(60, 180),
        EntityKind::Giant => new_based(360, 1080),
        EntityKind::PigZombie => new_based(60, 180),
        EntityKind::Skeleton => new_based(60, 180),
        EntityKind::Spider => new_based(140, 90),
        EntityKind::Zombie => new_based(60, 180),
    }
}

} // verus!
