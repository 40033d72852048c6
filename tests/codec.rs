use goofgenie::codec::{
    area_to_u8, beams_to_u16, bosses_to_u8, items_to_u16, to_area_bosses, u16_to_beams,
    u16_to_items, u8_to_area, u8_to_bosses, Area, AreaBosses, Beam, Beams, Boss, Bosses, Item,
    Items, BEAMS_MASK, ITEMS_MASK,
};

fn all_items() -> Vec<Item> {
    vec![
        Item::Varia,
        Item::SpringBall,
        Item::MorphBall,
        Item::ScrewAttack,
        Item::Gravity,
        Item::HiJumpBoots,
        Item::SpaceJump,
        Item::Bombs,
        Item::SpeedBooster,
        Item::Grapple,
        Item::XRay,
    ]
}

#[test]
fn item_bits_match_the_stored_layout() {
    let expected: [u16; 11] = [
        0x0001, 0x0002, 0x0004, 0x0008, 0x0020, 0x0100, 0x0200, 0x1000, 0x2000, 0x4000, 0x8000,
    ];
    for (item, bit) in all_items().iter().zip(expected.iter()) {
        assert_eq!(item.bit(), *bit);
        assert_eq!(items_to_u16(&[*item]), *bit);
    }
    assert_eq!(ITEMS_MASK, 0xF32F);
}

#[test]
fn encode_items_ors_bits() {
    assert_eq!(items_to_u16(&[]), 0);
    assert_eq!(items_to_u16(&[Item::MorphBall, Item::Bombs]), 0x1004);
    assert_eq!(items_to_u16(&[Item::Bombs, Item::MorphBall, Item::Bombs]), 0x1004);
    assert_eq!(items_to_u16(&all_items()), 0xF32F);
}

#[test]
fn decode_items_drops_unknown_bits() {
    let d = u16_to_items(0xFFFF);
    assert_eq!(d.to_bits(), 0xF32F);
    for item in all_items() {
        assert!(d.contains(item));
    }
    let none = u16_to_items(0x0CD0);
    assert_eq!(none.to_bits(), 0);
    for item in all_items() {
        assert!(!none.contains(item));
    }
}

#[test]
fn items_round_trip_on_defined_members() {
    let chosen = [Item::Varia, Item::Gravity, Item::SpaceJump, Item::XRay];
    let decoded = u16_to_items(items_to_u16(&chosen));
    for item in all_items() {
        assert_eq!(decoded.contains(item), chosen.contains(&item));
    }
}

#[test]
fn items_lossy_round_trip_keeps_recognized_bits() {
    for b in [0x0000u16, 0x0010, 0x1234, 0xABCD, 0xFFFF, 0x0CD0] {
        let decoded = u16_to_items(b);
        let members: Vec<Item> = all_items().into_iter().filter(|i| decoded.contains(*i)).collect();
        assert_eq!(items_to_u16(&members) & ITEMS_MASK, b & ITEMS_MASK);
        assert_eq!(decoded.encode(), b & ITEMS_MASK);
    }
}

#[test]
fn items_set_adds_member_and_keeps_raw_bits() {
    let mut items = Items::from_bits(0x0C00);
    assert!(!items.contains(Item::MorphBall));
    items.set(Item::MorphBall);
    items.set(Item::Bombs);
    assert!(items.contains(Item::MorphBall));
    assert!(items.contains(Item::Bombs));
    assert_eq!(items.to_bits(), 0x1C04);
    assert_eq!(items.encode(), 0x1004);
    let empty = Items::new();
    assert_eq!(empty.to_bits(), 0);
}

#[test]
fn beams_codec() {
    assert_eq!(Beam::Wave.bit(), 0x0001);
    assert_eq!(Beam::Charge.bit(), 0x1000);
    assert_eq!(beams_to_u16(&[Beam::Wave, Beam::Ice, Beam::Spazer, Beam::Plasma, Beam::Charge]), 0x100F);
    assert_eq!(BEAMS_MASK, 0x100F);
    let d = u16_to_beams(0xFFFF);
    assert_eq!(d.to_bits(), 0x100F);
    assert!(d.contains(Beam::Charge));
    let decoded = u16_to_beams(beams_to_u16(&[Beam::Ice, Beam::Plasma]));
    assert!(decoded.contains(Beam::Ice));
    assert!(decoded.contains(Beam::Plasma));
    assert!(!decoded.contains(Beam::Wave));
    assert!(!decoded.contains(Beam::Spazer));
    assert!(!decoded.contains(Beam::Charge));
    let mut beams = Beams::new();
    beams.set(Beam::Charge);
    assert_eq!(beams.encode(), 0x1000);
    assert_eq!(u16_to_beams(0x2FF0).encode(), 0x0000);
}

#[test]
fn bosses_codec() {
    assert_eq!(bosses_to_u8(&[Boss::MainBoss, Boss::MiniBoss, Boss::Torizo]), 0x07);
    assert_eq!(bosses_to_u8(&[Boss::Torizo]), 0x04);
    let d = u8_to_bosses(0xFA);
    assert_eq!(d.to_bits(), 0x02);
    assert!(d.contains(Boss::MiniBoss));
    assert!(!d.contains(Boss::MainBoss));
    let mut b = Bosses::new();
    b.set(Boss::MainBoss);
    assert_eq!(b.encode(), 0x01);
    assert_eq!(Bosses::from_bits(0x81).encode(), 0x01);
}

#[test]
fn area_codes() {
    let areas = [
        Area::Crateria,
        Area::Brinstar,
        Area::Norfair,
        Area::WreckedShip,
        Area::Maridia,
        Area::Tourian,
        Area::Ceres,
        Area::Debug,
    ];
    for (code, area) in areas.iter().enumerate() {
        assert_eq!(area_to_u8(area), code as u8);
        assert_eq!(u8_to_area(code as u8), *area);
    }
}

#[test]
fn area_bosses_from_pairs_later_wins() {
    let map = to_area_bosses(&[(2, 0x07), (4, 0x01), (2, 0x02)]);
    assert_eq!(map.get(Area::Norfair).map(|b| b.to_bits()), Some(0x02));
    assert_eq!(map.get(Area::Maridia).map(|b| b.to_bits()), Some(0x01));
    assert!(map.get(Area::Crateria).is_none());
    let mut m = AreaBosses::new();
    assert!(m.get(Area::Debug).is_none());
    m.insert(Area::Debug, Bosses::from_bits(0x04));
    assert_eq!(m.get(Area::Debug).map(|b| b.to_bits()), Some(0x04));
}
