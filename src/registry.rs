//! Where each field of the game state lives in the console's work RAM.
use vstd::prelude::*;

verus! {

/// Base of the console's work RAM in the device's flat address space.
pub const WRAM: u32 = 0xF5_0000;

/// Number of named fields.
pub const FIELD_COUNT: usize = 19;

/// The named fields of the game state. All but `Bosses` are one 16-bit word;
/// `Bosses` is the start of a table of one byte per area.
#[derive(Debug, Clone, Copy, PartialEq, Eq, Structural, PartialOrd, Ord, Hash)]
pub enum SamusField {
    HP,
    MaxHP,
    Missiles,
    MaxMissiles,
    Supers,
    MaxSupers,
    PBs,
    MaxPBs,
    EquippedItems,
    CollectedItems,
    EquippedBeams,
    CollectedBeams,
    ReserveHP,
    MaxReserveHP,
    XPosition,
    XSubPosition,
    YPosition,
    YSubPosition,
    Bosses,
}

/// The offset of a field within work RAM.
pub open spec fn field_offset(f: SamusField) -> u16 {
    match f {
        SamusField::HP => 0x09C2,
        SamusField::MaxHP => 0x09C4,
        SamusField::Missiles => 0x09C6,
        SamusField::MaxMissiles => 0x09C8,
        SamusField::Supers => 0x09CA,
        SamusField::MaxSupers => 0x09CC,
        SamusField::PBs => 0x09CE,
        SamusField::MaxPBs => 0x09D0,
        SamusField::EquippedItems => 0x09A2,
        SamusField::CollectedItems => 0x09A4,
        SamusField::EquippedBeams => 0x09A6,
        SamusField::CollectedBeams => 0x09A8,
        SamusField::ReserveHP => 0x09D6,
        SamusField::MaxReserveHP => 0x09D4,
        SamusField::XPosition => 0x0AF6,
        SamusField::XSubPosition => 0x0AF8,
        SamusField::YPosition => 0x0AFA,
        SamusField::YSubPosition => 0x0AFC,
        SamusField::Bosses => 0xD828,
    }
}

/// The position of a field in the enumeration.
pub open spec fn field_index(f: SamusField) -> int {
    match f {
        SamusField::HP => 0,
        SamusField::MaxHP => 1,
        SamusField::Missiles => 2,
        SamusField::MaxMissiles => 3,
        SamusField::Supers => 4,
        SamusField::MaxSupers => 5,
        SamusField::PBs => 6,
        SamusField::MaxPBs => 7,
        SamusField::EquippedItems => 8,
        SamusField::CollectedItems => 9,
        SamusField::EquippedBeams => 10,
        SamusField::CollectedBeams => 11,
        SamusField::ReserveHP => 12,
        SamusField::MaxReserveHP => 13,
        SamusField::XPosition => 14,
        SamusField::XSubPosition => 15,
        SamusField::YPosition => 16,
        SamusField::YSubPosition => 17,
        SamusField::Bosses => 18,
    }
}

/// Offsets are distinct, and no word field lies inside the per-area table.
pub proof fn lemma_offsets_distinct(f: SamusField, g: SamusField)
    ensures
        f != g ==> field_offset(f) != field_offset(g),
        f != SamusField::Bosses ==> field_offset(f) + 2 <= field_offset(SamusField::Bosses),
{
}

/// The offset of a field within work RAM.
pub fn offset_of(field: SamusField) -> (r: u16)
    ensures
        r == field_offset(field),
{
    match field {
        SamusField::HP => 0x09C2,
        SamusField::MaxHP => 0x09C4,
        SamusField::Missiles => 0x09C6,
        SamusField::MaxMissiles => 0x09C8,
        SamusField::Supers => 0x09CA,
        SamusField::MaxSupers => 0x09CC,
        SamusField::PBs => 0x09CE,
        SamusField::MaxPBs => 0x09D0,
        SamusField::EquippedItems => 0x09A2,
        SamusField::CollectedItems => 0x09A4,
        SamusField::EquippedBeams => 0x09A6,
        SamusField::CollectedBeams => 0x09A8,
        SamusField::ReserveHP => 0x09D6,
        SamusField::MaxReserveHP => 0x09D4,
        SamusField::XPosition => 0x0AF6,
        SamusField::XSubPosition => 0x0AF8,
        SamusField::YPosition => 0x0AFA,
        SamusField::YSubPosition => 0x0AFC,
        SamusField::Bosses => 0xD828,
    }
}

/// The address of a field in the device's flat address space.
pub fn get_wram_addr(field: SamusField) -> (r: u32)
    ensures
        r == WRAM + field_offset(field),
{
    offset_of(field) as u32 + WRAM
}

/// The field table as an explicit value, built once and read thereafter.
pub struct SamusRamMap {
    offsets: [u16; FIELD_COUNT],
}

impl SamusRamMap {
    /// Holds exactly the offset of every field.
    pub closed spec fn wf(&self) -> bool {
        forall|f: SamusField| #[trigger] self.offsets@[field_index(f)] == field_offset(f)
    }

    /// The table of all fields.
    pub fn new() -> (r: SamusRamMap)
        ensures
            r.wf(),
    {
        let r = SamusRamMap {
            offsets: [
                0x09C2, 0x09C4, 0x09C6, 0x09C8, 0x09CA, 0x09CC, 0x09CE, 0x09D0, 0x09A2, 0x09A4,
                0x09A6, 0x09A8, 0x09D6, 0x09D4, 0x0AF6, 0x0AF8, 0x0AFA, 0x0AFC, 0xD828,
            ],
        };
        assert forall|f: SamusField| #[trigger] r.offsets@[field_index(f)] == field_offset(f) by {
            match f {
                SamusField::HP => { assert(r.offsets@[0] == 0x09C2); },
                SamusField::MaxHP => { assert(r.offsets@[1] == 0x09C4); },
                SamusField::Missiles => { assert(r.offsets@[2] == 0x09C6); },
                SamusField::MaxMissiles => { assert(r.offsets@[3] == 0x09C8); },
                SamusField::Supers => { assert(r.offsets@[4] == 0x09CA); },
                SamusField::MaxSupers => { assert(r.offsets@[5] == 0x09CC); },
                SamusField::PBs => { assert(r.offsets@[6] == 0x09CE); },
                SamusField::MaxPBs => { assert(r.offsets@[7] == 0x09D0); },
                SamusField::EquippedItems => { assert(r.offsets@[8] == 0x09A2); },
                SamusField::CollectedItems => { assert(r.offsets@[9] == 0x09A4); },
                SamusField::EquippedBeams => { assert(r.offsets@[10] == 0x09A6); },
                SamusField::CollectedBeams => { assert(r.offsets@[11] == 0x09A8); },
                SamusField::ReserveHP => { assert(r.offsets@[12] == 0x09D6); },
                SamusField::MaxReserveHP => { assert(r.offsets@[13] == 0x09D4); },
                SamusField::XPosition => { assert(r.offsets@[14] == 0x0AF6); },
                SamusField::XSubPosition => { assert(r.offsets@[15] == 0x0AF8); },
                SamusField::YPosition => { assert(r.offsets@[16] == 0x0AFA); },
                SamusField::YSubPosition => { assert(r.offsets@[17] == 0x0AFC); },
                SamusField::Bosses => { assert(r.offsets@[18] == 0xD828); },
            }
        }
        r
    }

    /// The offset of `field`.
    pub fn index(&self, field: SamusField) -> (r: u16)
        requires
            self.wf(),
        ensures
            r == field_offset(field),
    {
        let k: usize = match field {
            SamusField::HP => 0,
            SamusField::MaxHP => 1,
            SamusField::Missiles => 2,
            SamusField::MaxMissiles => 3,
            SamusField::Supers => 4,
            SamusField::MaxSupers => 5,
            SamusField::PBs => 6,
            SamusField::MaxPBs => 7,
            SamusField::EquippedItems => 8,
            SamusField::CollectedItems => 9,
            SamusField::EquippedBeams => 10,
            SamusField::CollectedBeams => 11,
            SamusField::ReserveHP => 12,
            SamusField::MaxReserveHP => 13,
            SamusField::XPosition => 14,
            SamusField::XSubPosition => 15,
            SamusField::YPosition => 16,
            SamusField::YSubPosition => 17,
            SamusField::Bosses => 18,
        };
        assert(k == field_index(field));
        self.offsets[k]
    }
}

} // verus!
