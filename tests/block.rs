use tova_engine::block::Block;

#[test]
fn from_u8_maps_known_values() {
    assert_eq!(Block::from_u8(0), Block::Air);
    assert_eq!(Block::from_u8(1), Block::Grass);
    assert_eq!(Block::from_u8(2), Block::Dirt);
    assert_eq!(Block::from_u8(3), Block::Stone);
    assert_eq!(Block::from_u8(4), Block::Sand);
    assert_eq!(Block::from_u8(5), Block::Water);
    assert_eq!(Block::from_u8(6), Block::Cobble);
}

#[test]
fn from_u8_defaults_unknown_to_air() {
    assert_eq!(Block::from_u8(7), Block::Air);
    assert_eq!(Block::from_u8(42), Block::Air);
    assert_eq!(Block::from_u8(255), Block::Air);
}

#[test]
fn to_u8_round_trips() {
    for v in 0u8..7 {
        assert_eq!(Block::from_u8(v).to_u8(), v);
    }
}

#[test]
fn solidity_and_transparency() {
    let all = [
        Block::Air,
        Block::Grass,
        Block::Dirt,
        Block::Stone,
        Block::Sand,
        Block::Water,
        Block::Cobble,
    ];
    for b in all {
        let solid = !(b == Block::Air || b == Block::Water);
        assert_eq!(b.is_solid(), solid);
        assert_eq!(b.is_transparent(), b == Block::Air);
    }
    assert!(!Block::Water.is_solid());
    assert!(!Block::Water.is_transparent());
    assert!(Block::Stone.is_solid());
}
