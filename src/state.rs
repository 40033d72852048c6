//! A snapshot of the game state: one value per field.
use vstd::prelude::*;
use crate::codec::{
    area_code, decode_beams, decode_bosses, decode_items, encode_beams, encode_items,
    lemma_area_code_bijective, u16_to_beams, u16_to_items, u8_to_area, u8_to_bosses, AreaBosses,
    Beams, Items, Area, AREA_COUNT, BEAMS_MASK, ITEMS_MASK,
};
use crate::registry::SamusField;

verus! {

/// Number of fields that hold one word: every field but `Bosses`.
pub const WORD_FIELD_COUNT: usize = 18;

/// The game state as read from, or to be written to, the console.
#[derive(Debug, Clone, Copy)]
pub struct Samus {
    pub hp: u16,
    pub max_hp: u16,
    pub missiles: u16,
    pub max_missiles: u16,
    pub supers: u16,
    pub max_supers: u16,
    pub pbs: u16,
    pub max_pbs: u16,
    pub equipped_items: Items,
    pub collected_items: Items,
    pub equipped_beams: Beams,
    pub collected_beams: Beams,
    pub reserve_hp: u16,
    pub max_reserve_hp: u16,
    pub x_position: u16,
    pub x_subposition: u16,
    pub y_position: u16,
    pub y_subposition: u16,
    pub bosses: AreaBosses,
}

/// The word that stores field `f` of `s`; set-valued fields give their
/// recognized bits.
pub open spec fn field_value(s: Samus, f: SamusField) -> u16
    recommends
        f != SamusField::Bosses,
{
    match f {
        SamusField::HP => s.hp,
        SamusField::MaxHP => s.max_hp,
        SamusField::Missiles => s.missiles,
        SamusField::MaxMissiles => s.max_missiles,
        SamusField::Supers => s.supers,
        SamusField::MaxSupers => s.max_supers,
        SamusField::PBs => s.pbs,
        SamusField::MaxPBs => s.max_pbs,
        SamusField::EquippedItems => encode_items(s.equipped_items@),
        SamusField::CollectedItems => encode_items(s.collected_items@),
        SamusField::EquippedBeams => encode_beams(s.equipped_beams@),
        SamusField::CollectedBeams => encode_beams(s.collected_beams@),
        SamusField::ReserveHP => s.reserve_hp,
        SamusField::MaxReserveHP => s.max_reserve_hp,
        SamusField::XPosition => s.x_position,
        SamusField::XSubPosition => s.x_subposition,
        SamusField::YPosition => s.y_position,
        SamusField::YSubPosition => s.y_subposition,
        SamusField::Bosses => 0,
    }
}

impl Samus {
    /// The word that stores `field`.
    pub fn value_of(&self, field: SamusField) -> (r: u16)
        requires
            field != SamusField::Bosses,
        ensures
            r == field_value(*self, field),
    {
        match field {
            SamusField::HP => self.hp,
            SamusField::MaxHP => self.max_hp,
            SamusField::Missiles => self.missiles,
            SamusField::MaxMissiles => self.max_missiles,
            SamusField::Supers => self.supers,
            SamusField::MaxSupers => self.max_supers,
            SamusField::PBs => self.pbs,
            SamusField::MaxPBs => self.max_pbs,
            SamusField::EquippedItems => self.equipped_items.encode(),
            SamusField::CollectedItems => self.collected_items.encode(),
            SamusField::EquippedBeams => self.equipped_beams.encode(),
            SamusField::CollectedBeams => self.collected_beams.encode(),
            SamusField::ReserveHP => self.reserve_hp,
            SamusField::MaxReserveHP => self.max_reserve_hp,
            SamusField::XPosition => self.x_position,
            SamusField::XSubPosition => self.x_subposition,
            SamusField::YPosition => self.y_position,
            SamusField::YSubPosition => self.y_subposition,
            SamusField::Bosses => 0,
        }
    }
}

/// A little-endian word from the first two bytes of a device response.
pub fn get_u16(response: &[u8]) -> (r: u16)
    requires
        response@.len() >= 2,
    ensures
        r == response@[0] + 256 * response@[1],
{
    let h: u8 = response[1];
    let l: u8 = response[0];
    let r: u16 = ((h as u16) << 8) | l as u16;
    assert(r == l + 256 * h) by (bit_vector)
        requires r == ((h as u16) << 8) | l as u16;
    r
}

/// The state made of the words of every field but `Bosses`, in the order of
/// `SamusField`, and of the boss byte of every area, by area code.
pub fn get_samus(words: &[u16], boss_bytes: &[u8]) -> (r: Samus)
    requires
        words@.len() == WORD_FIELD_COUNT,
        boss_bytes@.len() == AREA_COUNT,
    ensures
        r.hp == words@[0],
        r.max_hp == words@[1],
        r.missiles == words@[2],
        r.max_missiles == words@[3],
        r.supers == words@[4],
        r.max_supers == words@[5],
        r.pbs == words@[6],
        r.max_pbs == words@[7],
        r.equipped_items@ == decode_items(words@[8]),
        r.equipped_items.bits == words@[8] & ITEMS_MASK,
        r.collected_items@ == decode_items(words@[9]),
        r.collected_items.bits == words@[9] & ITEMS_MASK,
        r.equipped_beams@ == decode_beams(words@[10]),
        r.equipped_beams.bits == words@[10] & BEAMS_MASK,
        r.collected_beams@ == decode_beams(words@[11]),
        r.collected_beams.bits == words@[11] & BEAMS_MASK,
        r.reserve_hp == words@[12],
        r.max_reserve_hp == words@[13],
        r.x_position == words@[14],
        r.x_subposition == words@[15],
        r.y_position == words@[16],
        r.y_subposition == words@[17],
        forall|a: Area| #[trigger] r.bosses@.contains_key(a),
        forall|a: Area| #[trigger] r.bosses@[a] == decode_bosses(boss_bytes@[area_code(a) as int]),
{
    let mut bosses = AreaBosses::new();
    let mut c: u8 = 0;
    while c < AREA_COUNT
        invariant
            c <= AREA_COUNT,
            boss_bytes@.len() == AREA_COUNT,
            forall|a: Area| #[trigger] bosses@.contains_key(a) <==> area_code(a) < c,
            forall|a: Area|
                area_code(a) < c ==> #[trigger] bosses@[a] == decode_bosses(
                    boss_bytes@[area_code(a) as int],
                ),
        decreases AREA_COUNT - c,
    {
        let area = u8_to_area(c);
        bosses.insert(area, u8_to_bosses(boss_bytes[c as usize]));
        proof {
            assert forall|a: Area| area_code(a) == c implies a == area by {
                lemma_area_code_bijective(a, 0);
                lemma_area_code_bijective(area, 0);
            }
        }
        c = c + 1;
    }
    Samus {
        hp: words[0],
        max_hp: words[1],
        missiles: words[2],
        max_missiles: words[3],
        supers: words[4],
        max_supers: words[5],
        pbs: words[6],
        max_pbs: words[7],
        equipped_items: u16_to_items(words[8]),
        collected_items: u16_to_items(words[9]),
        equipped_beams: u16_to_beams(words[10]),
        collected_beams: u16_to_beams(words[11]),
        reserve_hp: words[12],
        max_reserve_hp: words[13],
        x_position: words[14],
        x_subposition: words[15],
        y_position: words[16],
        y_subposition: words[17],
        bosses,
    }
}

} // verus!
