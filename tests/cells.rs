use automatomas::cells::CellStates;
use automatomas::cells::Hardness;
use automatomas::cells::Rgba;

#[test]
fn hardness_tiers() {
    assert_eq!(CellStates::Air.hardness(), 300);
    assert_eq!(CellStates::Sand.hardness(), 1);
    assert_eq!(CellStates::Water.hardness(), 100);
    assert_eq!(CellStates::Plague.hardness(), 1);
    assert_eq!(CellStates::Wall.hardness(), 1);
    assert_eq!(CellStates::Barrier.hardness(), 0);
    assert_eq!(CellStates::Border.hardness(), 0);
    assert_eq!(CellStates::Fire(0).hardness(), 250);
    assert_eq!(CellStates::Fire(2).hardness(), 250);
    assert_eq!(CellStates::Gunpowder.hardness(), 1);
    assert_eq!(CellStates::Spark.hardness(), 250);
    assert_eq!(CellStates::Vapor.hardness(), 200);
}

#[test]
fn tier_values() {
    assert_eq!(Hardness::Unbreakable.value(), 0);
    assert_eq!(Hardness::Solid.value(), 1);
    assert_eq!(Hardness::Slime.value(), 50);
    assert_eq!(Hardness::Liquid.value(), 100);
    assert_eq!(Hardness::Gas.value(), 200);
    assert_eq!(Hardness::Plasma.value(), 250);
    assert_eq!(Hardness::Nothing.value(), 300);
    assert_eq!(CellStates::Vapor.tier(), Hardness::Gas);
    assert_eq!(CellStates::Spark.tier(), Hardness::Plasma);
}

#[test]
fn weights_and_temperatures() {
    assert_eq!(CellStates::Water.weight(), 5);
    assert_eq!(CellStates::Sand.weight(), 1);
    assert_eq!(CellStates::Fire(0).temperature(), 600);
    assert_eq!(CellStates::Fire(1).temperature(), 1000);
    assert_eq!(CellStates::Fire(2).temperature(), 1500);
    assert_eq!(CellStates::Vapor.temperature(), 100);
    assert_eq!(CellStates::Spark.temperature(), 1000);
    assert_eq!(CellStates::Air.temperature(), 0);
    assert_eq!(CellStates::Wall.temperature(), 0);
}

#[test]
fn colors() {
    assert_eq!(CellStates::Air.color(), Rgba { r: 0, g: 0, b: 0, a: 255 });
    assert_eq!(CellStates::Sand.color(), Rgba { r: 255, g: 255, b: 51, a: 255 });
    assert_eq!(CellStates::Barrier.color(), Rgba { r: 230, g: 41, b: 55, a: 255 });
    assert_eq!(CellStates::Fire(0).color(), Rgba { r: 200, g: 255, b: 0, a: 255 });
    assert_eq!(CellStates::Fire(1).color(), Rgba { r: 200, g: 100, b: 0, a: 255 });
    assert_eq!(CellStates::Fire(2).color(), Rgba { r: 200, g: 0, b: 0, a: 255 });
    assert_eq!(CellStates::Spark.color(), Rgba { r: 255, g: 255, b: 255, a: 255 });
    assert_eq!(CellStates::Vapor.color(), Rgba { r: 179, g: 179, b: 230, a: 255 });
}

#[test]
fn brush_list_order() {
    assert_eq!(
        CellStates::list(),
        vec![
            CellStates::Wall,
            CellStates::Sand,
            CellStates::Water,
            CellStates::Plague,
            CellStates::Fire(2),
            CellStates::Gunpowder,
            CellStates::Barrier,
        ]
    );
}

#[test]
fn names() {
    assert_eq!(CellStates::Gunpowder.name(), "Gunpowder");
    assert_eq!(CellStates::Fire(1).name(), "Fire");
    assert_eq!(CellStates::Border.name(), "Border");
    assert_eq!(CellStates::Air.name(), "Air");
}

#[test]
fn storable_substances() {
    assert!(CellStates::Sand.storable());
    assert!(CellStates::Fire(2).storable());
    assert!(!CellStates::Fire(3).storable());
    assert!(!CellStates::Border.storable());
}
