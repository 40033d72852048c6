//! Packed sets of abilities, beams and defeated bosses.
//!
//! Each member of a closed enumeration owns one fixed bit of the word the game
//! stores. Decoding keeps the recognized bits only; encoding ORs the members'
//! bits together.
use vstd::prelude::*;

verus! {

/// Flag value `v` when `b` holds, zero otherwise.
pub open spec fn flag16(b: bool, v: u16) -> u16 {
    if b { v } else { 0 }
}

/// Collectable abilities, each stored as one bit of a 16-bit word.
#[derive(Debug, Clone, Copy, PartialEq, Eq, Structural, PartialOrd, Ord, Hash)]
pub enum Item {
    Varia,
    SpringBall,
    MorphBall,
    ScrewAttack,
    Gravity,
    HiJumpBoots,
    SpaceJump,
    Bombs,
    SpeedBooster,
    Grapple,
    XRay,
}

/// Position of an item's bit in the packed word.
pub open spec fn item_index(i: Item) -> u16 {
    match i {
        Item::Varia => 0,
        Item::SpringBall => 1,
        Item::MorphBall => 2,
        Item::ScrewAttack => 3,
        Item::Gravity => 5,
        Item::HiJumpBoots => 8,
        Item::SpaceJump => 9,
        Item::Bombs => 12,
        Item::SpeedBooster => 13,
        Item::Grapple => 14,
        Item::XRay => 15,
    }
}

/// The bit an item occupies in the packed word.
pub open spec fn item_bit(i: Item) -> u16 {
    match i {
        Item::Varia => 0x0001,
        Item::SpringBall => 0x0002,
        Item::MorphBall => 0x0004,
        Item::ScrewAttack => 0x0008,
        Item::Gravity => 0x0020,
        Item::HiJumpBoots => 0x0100,
        Item::SpaceJump => 0x0200,
        Item::Bombs => 0x1000,
        Item::SpeedBooster => 0x2000,
        Item::Grapple => 0x4000,
        Item::XRay => 0x8000,
    }
}

/// Every bit that belongs to some item.
pub const ITEMS_MASK: u16 = 0xF32F;

/// The items whose bit is set in `bits`; other bits are dropped.
pub open spec fn decode_items(bits: u16) -> Set<Item> {
    Set::new(|i: Item| bits & item_bit(i) == item_bit(i))
}

/// The bitwise OR of the bits of the members of `s`.
pub open spec fn encode_items(s: Set<Item>) -> u16 {
    flag16(s.contains(Item::Varia), 0x0001) | flag16(s.contains(Item::SpringBall), 0x0002)
        | flag16(s.contains(Item::MorphBall), 0x0004)
        | flag16(s.contains(Item::ScrewAttack), 0x0008)
        | flag16(s.contains(Item::Gravity), 0x0020) | flag16(s.contains(Item::HiJumpBoots), 0x0100)
        | flag16(s.contains(Item::SpaceJump), 0x0200) | flag16(s.contains(Item::Bombs), 0x1000)
        | flag16(s.contains(Item::SpeedBooster), 0x2000) | flag16(s.contains(Item::Grapple), 0x4000)
        | flag16(s.contains(Item::XRay), 0x8000)
}

proof fn lemma_item_flags(
    b0: bool, b1: bool, b2: bool, b3: bool, b5: bool, b8: bool,
    b9: bool, b12: bool, b13: bool, b14: bool, b15: bool,
)
    by (bit_vector)
    ensures
        ({
            let e = flag16(b0, 0x0001) | flag16(b1, 0x0002) | flag16(b2, 0x0004)
                | flag16(b3, 0x0008)
                | flag16(b5, 0x0020) | flag16(b8, 0x0100) | flag16(b9, 0x0200) | flag16(b12, 0x1000)
                | flag16(b13, 0x2000) | flag16(b14, 0x4000) | flag16(b15, 0x8000);
            &&& (e & 0x0001 == 0x0001) == b0
            &&& (e & 0x0002 == 0x0002) == b1
            &&& (e & 0x0004 == 0x0004) == b2
            &&& (e & 0x0008 == 0x0008) == b3
            &&& (e & 0x0020 == 0x0020) == b5
            &&& (e & 0x0100 == 0x0100) == b8
            &&& (e & 0x0200 == 0x0200) == b9
            &&& (e & 0x1000 == 0x1000) == b12
            &&& (e & 0x2000 == 0x2000) == b13
            &&& (e & 0x4000 == 0x4000) == b14
            &&& (e & 0x8000 == 0x8000) == b15
        }),
{
}

proof fn lemma_item_word(b: u16)
    by (bit_vector)
    ensures
        flag16(b & 0x0001 == 0x0001, 0x0001) | flag16(b & 0x0002 == 0x0002, 0x0002)
            | flag16(b & 0x0004 == 0x0004, 0x0004) | flag16(b & 0x0008 == 0x0008, 0x0008)
            | flag16(b & 0x0020 == 0x0020, 0x0020) | flag16(b & 0x0100 == 0x0100, 0x0100)
            | flag16(b & 0x0200 == 0x0200, 0x0200) | flag16(b & 0x1000 == 0x1000, 0x1000)
            | flag16(b & 0x2000 == 0x2000, 0x2000) | flag16(b & 0x4000 == 0x4000, 0x4000)
            | flag16(b & 0x8000 == 0x8000, 0x8000) == b & 0xF32F,
{
}

/// Decoding what was encoded gives back the same set of items.
pub proof fn lemma_items_round_trip(s: Set<Item>)
    ensures
        decode_items(encode_items(s)) == s,
{
    lemma_item_flags(
        s.contains(Item::Varia), s.contains(Item::SpringBall), s.contains(Item::MorphBall),
        s.contains(Item::ScrewAttack), s.contains(Item::Gravity), s.contains(Item::HiJumpBoots),
        s.contains(Item::SpaceJump), s.contains(Item::Bombs), s.contains(Item::SpeedBooster),
        s.contains(Item::Grapple), s.contains(Item::XRay),
    );
    assert(decode_items(encode_items(s)) =~= s);
}

/// Distinct sets of items are encoded as distinct words.
pub proof fn lemma_items_encode_injective(s: Set<Item>, t: Set<Item>)
    ensures
        encode_items(s) == encode_items(t) ==> s == t,
{
    lemma_items_round_trip(s);
    lemma_items_round_trip(t);
}

/// Encoding a decoded word keeps exactly the recognized bits of the word.
pub proof fn lemma_items_recognized_bits(b: u16)
    ensures
        encode_items(decode_items(b)) == b & ITEMS_MASK,
        encode_items(decode_items(b)) & ITEMS_MASK == b & ITEMS_MASK,
{
    lemma_item_word(b);
    let e = b & 0xF32F;
    assert(e & 0xF32F == e) by (bit_vector)
        requires e == b & 0xF32F;
}

proof fn lemma_or_single_bit(r: u16, a: u16, c: u16)
    by (bit_vector)
    requires
        a < 16,
        c < 16,
    ensures
        ((r | (1u16 << c)) & (1u16 << a) == (1u16 << a)) == ((r & (1u16 << a) == (1u16 << a))
            || a == c),
{
}

proof fn lemma_item_bit_is_shift(i: Item)
    ensures
        item_index(i) < 16,
        item_bit(i) == 1u16 << item_index(i),
{
    assert(1u16 << 0u16 == 0x0001 && 1u16 << 1u16 == 0x0002 && 1u16 << 2u16 == 0x0004 && 1u16
        << 3u16 == 0x0008 && 1u16 << 5u16 == 0x0020 && 1u16 << 8u16 == 0x0100 && 1u16 << 9u16
        == 0x0200 && 1u16 << 12u16 == 0x1000 && 1u16 << 13u16 == 0x2000 && 1u16 << 14u16 == 0x4000
        && 1u16 << 15u16 == 0x8000) by (bit_vector);
}

/// Setting an item's bit adds exactly that item to the decoded set.
proof fn lemma_items_insert(r: u16, x: Item)
    ensures
        decode_items(r | item_bit(x)) == decode_items(r).insert(x),
{
    lemma_item_bit_is_shift(x);
    assert forall|i: Item| #[trigger] decode_items(r | item_bit(x)).contains(i) == decode_items(
        r,
    ).insert(x).contains(i) by {
        lemma_item_bit_is_shift(i);
        lemma_or_single_bit(r, item_index(i), item_index(x));
    }
    assert(decode_items(r | item_bit(x)) =~= decode_items(r).insert(x));
}

impl Item {
    /// The bit this item occupies in the packed word.
    pub fn bit(&self) -> (r: u16)
        ensures
            r == item_bit(*self),
    {
        match self {
            Item::Varia => 0x0001,
            Item::SpringBall => 0x0002,
            Item::MorphBall => 0x0004,
            Item::ScrewAttack => 0x0008,
            Item::Gravity => 0x0020,
            Item::HiJumpBoots => 0x0100,
            Item::SpaceJump => 0x0200,
            Item::Bombs => 0x1000,
            Item::SpeedBooster => 0x2000,
            Item::Grapple => 0x4000,
            Item::XRay => 0x8000,
        }
    }
}

/// A packed item word as the game stores it. Bits that name no item are kept
/// as read; the set it stands for is made of the recognized bits only.
#[derive(Debug, Clone, Copy)]
pub struct Items {
    pub bits: u16,
}

impl View for Items {
    type V = Set<Item>;

    open spec fn view(&self) -> Set<Item> {
        decode_items(self.bits)
    }
}

impl Items {
    /// The empty set.
    pub fn new() -> (r: Items)
        ensures
            r@ == Set::<Item>::empty(),
            r.bits == 0,
    {
        let r = Items { bits: 0 };
        assert(r@ =~= Set::<Item>::empty()) by {
            assert forall|i: Item| !(#[trigger] r@.contains(i)) by {
                lemma_item_bit_is_shift(i);
                let k = item_index(i);
                assert(0u16 & (1u16 << k) != (1u16 << k)) by (bit_vector)
                    requires k < 16;
            }
        }
        r
    }

    /// Wraps a word read from the console, every bit kept.
    pub fn from_bits(bits: u16) -> (r: Items)
        ensures
            r.bits == bits,
            r@ == decode_items(bits),
    {
        Items { bits }
    }

    /// The word as held, unrecognized bits included.
    pub fn to_bits(&self) -> (r: u16)
        ensures
            r == self.bits,
    {
        self.bits
    }

    /// Whether `item` is in the set.
    pub fn contains(&self, item: Item) -> (r: bool)
        ensures
            r == self@.contains(item),
    {
        let b = item.bit();
        self.bits & b == b
    }

    /// Adds `item` to the set.
    pub fn set(&mut self, item: Item)
        ensures
            final(self)@ == old(self)@.insert(item),
            final(self).bits == old(self).bits | item_bit(item),
    {
        proof {
            lemma_items_insert(self.bits, item);
        }
        self.bits = self.bits | item.bit();
    }

    /// The word that stores exactly this set: the recognized bits only.
    pub fn encode(&self) -> (r: u16)
        ensures
            r == encode_items(self@),
            r == self.bits & ITEMS_MASK,
    {
        proof {
            lemma_items_recognized_bits(self.bits);
        }
        self.bits & ITEMS_MASK
    }
}

/// Decodes a stored word into the set of items it names; unrecognized bits
/// are dropped.
pub fn u16_to_items(items: u16) -> (r: Items)
    ensures
        r@ == decode_items(items),
        r.bits == items & ITEMS_MASK,
{
    let bits = items & ITEMS_MASK;
    assert(decode_items(bits) =~= decode_items(items)) by {
        assert forall|i: Item| #[trigger] decode_items(bits).contains(i) == decode_items(
            items,
        ).contains(i) by {
            lemma_item_bit_is_shift(i);
            let k = item_index(i);
            let m = item_bit(i);
            assert(((items & 0xF32F) & m == m) == (items & m == m)) by (bit_vector)
                requires
                    m == 1u16 << k,
                    k == 0 || k == 1 || k == 2 || k == 3 || k == 5 || k == 8 || k == 9 || k == 12
                        || k == 13 || k == 14 || k == 15,
            ;
        }
    }
    Items { bits }
}

/// Encodes a list of items as the OR of their bits; repeats do not matter.
pub fn items_to_u16(items: &[Item]) -> (r: u16)
    ensures
        r == encode_items(items@.to_set()),
{
    let mut r: u16 = 0;
    let mut k: usize = 0;
    assert(decode_items(0) =~= items@.subrange(0, 0).to_set()) by {
        assert forall|i: Item| !(#[trigger] decode_items(0).contains(i)) by {
            lemma_item_bit_is_shift(i);
            let n = item_index(i);
            assert(0u16 & (1u16 << n) != (1u16 << n)) by (bit_vector)
                requires n < 16;
        }
    }
    assert(0u16 & 0xF32F == 0) by (bit_vector);
    while k < items.len()
        invariant
            k <= items@.len(),
            decode_items(r) == items@.subrange(0, k as int).to_set(),
            r & ITEMS_MASK == r,
        decreases items@.len() - k,
    {
        let item = items[k];
        proof {
            lemma_items_insert(r, item);
            assert(items@.subrange(0, k + 1) == items@.subrange(0, k as int).push(item));
            items@.subrange(0, k as int).lemma_push_to_set_commute(item);
            lemma_item_bit_is_shift(item);
            let b = item_bit(item);
            let n = item_index(item);
            assert((r | b) & 0xF32F == r | b) by (bit_vector)
                requires
                    r & 0xF32F == r,
                    b == 1u16 << n,
                    n == 0 || n == 1 || n == 2 || n == 3 || n == 5 || n == 8 || n == 9 || n == 12
                        || n == 13 || n == 14 || n == 15,
            ;
        }
        r = r | item.bit();
        k = k + 1;
    }
    proof {
        assert(items@.subrange(0, items@.len() as int) == items@);
        lemma_items_recognized_bits(r);
    }
    r
}

/// Beam upgrades, each stored as one bit of a 16-bit word.
#[derive(Debug, Clone, Copy, PartialEq, Eq, Structural, PartialOrd, Ord, Hash)]
pub enum Beam {
    Wave,
    Ice,
    Spazer,
    Plasma,
    Charge,
}

/// Position of a beam's bit in the packed value.
pub open spec fn beam_index(x: Beam) -> u16 {
    match x {
        Beam::Wave => 0,
        Beam::Ice => 1,
        Beam::Spazer => 2,
        Beam::Plasma => 3,
        Beam::Charge => 12,
    }
}

/// The bit a beam occupies in the packed value.
pub open spec fn beam_bit(x: Beam) -> u16 {
    match x {
        Beam::Wave => 0x0001,
        Beam::Ice => 0x0002,
        Beam::Spazer => 0x0004,
        Beam::Plasma => 0x0008,
        Beam::Charge => 0x1000,
    }
}

/// Every bit that belongs to some beam.
pub const BEAMS_MASK: u16 = 0x100F;

/// The beams whose bit is set in `bits`; other bits are dropped.
pub open spec fn decode_beams(bits: u16) -> Set<Beam> {
    Set::new(|x: Beam| bits & beam_bit(x) == beam_bit(x))
}

/// The bitwise OR of the bits of the members of `s`.
pub open spec fn encode_beams(s: Set<Beam>) -> u16 {
    flag16(s.contains(Beam::Wave), 0x0001)
        | flag16(s.contains(Beam::Ice), 0x0002)
        | flag16(s.contains(Beam::Spazer), 0x0004)
        | flag16(s.contains(Beam::Plasma), 0x0008)
        | flag16(s.contains(Beam::Charge), 0x1000)
}

proof fn lemma_beam_flags(b0: bool, b1: bool, b2: bool, b3: bool, b12: bool)
    by (bit_vector)
    ensures
        ({
            let e = flag16(b0, 0x0001)
                | flag16(b1, 0x0002)
                | flag16(b2, 0x0004)
                | flag16(b3, 0x0008)
                | flag16(b12, 0x1000);
            &&& (e & 0x0001 == 0x0001) == b0
            &&& (e & 0x0002 == 0x0002) == b1
            &&& (e & 0x0004 == 0x0004) == b2
            &&& (e & 0x0008 == 0x0008) == b3
            &&& (e & 0x1000 == 0x1000) == b12
        }),
{
}

proof fn lemma_beam_word(b: u16)
    by (bit_vector)
    ensures
        flag16(b & 0x0001 == 0x0001, 0x0001)
            | flag16(b & 0x0002 == 0x0002, 0x0002)
            | flag16(b & 0x0004 == 0x0004, 0x0004)
            | flag16(b & 0x0008 == 0x0008, 0x0008)
            | flag16(b & 0x1000 == 0x1000, 0x1000) == b & 0x100F,
{
}

/// Decoding what was encoded gives back the same set of beams.
pub proof fn lemma_beams_round_trip(s: Set<Beam>)
    ensures
        decode_beams(encode_beams(s)) == s,
{
    lemma_beam_flags(
        s.contains(Beam::Wave),
        s.contains(Beam::Ice),
        s.contains(Beam::Spazer),
        s.contains(Beam::Plasma),
        s.contains(Beam::Charge),
    );
    assert(decode_beams(encode_beams(s)) =~= s);
}

/// Distinct sets of beams are encoded as distinct words.
pub proof fn lemma_beams_encode_injective(s: Set<Beam>, t: Set<Beam>)
    ensures
        encode_beams(s) == encode_beams(t) ==> s == t,
{
    lemma_beams_round_trip(s);
    lemma_beams_round_trip(t);
}

/// Encoding a decoded word keeps exactly the recognized bits of the word.
pub proof fn lemma_beams_recognized_bits(b: u16)
    ensures
        encode_beams(decode_beams(b)) == b & BEAMS_MASK,
        encode_beams(decode_beams(b)) & BEAMS_MASK == b & BEAMS_MASK,
{
    lemma_beam_word(b);
    let e = b & 0x100F;
    assert(e & 0x100F == e) by (bit_vector)
        requires e == b & 0x100F;
}

proof fn lemma_beam_bit_is_shift(i: Beam)
    ensures
        beam_index(i) < 16,
        beam_bit(i) == 1u16 << beam_index(i),
{
    assert(
        1u16 << 0u16 == 0x0001
        && 1u16 << 1u16 == 0x0002
        && 1u16 << 2u16 == 0x0004
        && 1u16 << 3u16 == 0x0008
        && 1u16 << 12u16 == 0x1000
    ) by (bit_vector);
}

/// Setting an beam's bit adds exactly that beam to the decoded set.
proof fn lemma_beams_insert(r: u16, x: Beam)
    ensures
        decode_beams(r | beam_bit(x)) == decode_beams(r).insert(x),
{
    lemma_beam_bit_is_shift(x);
    assert forall|i: Beam| #[trigger] decode_beams(r | beam_bit(x)).contains(i) == decode_beams(
        r,
    ).insert(x).contains(i) by {
        lemma_beam_bit_is_shift(i);
        lemma_or_single_bit(r, beam_index(i), beam_index(x));
    }
    assert(decode_beams(r | beam_bit(x)) =~= decode_beams(r).insert(x));
}

impl Beam {
    /// The bit this beam occupies in the packed word.
    pub fn bit(&self) -> (r: u16)
        ensures
            r == beam_bit(*self),
    {
        match self {
            Beam::Wave => 0x0001,
            Beam::Ice => 0x0002,
            Beam::Spazer => 0x0004,
            Beam::Plasma => 0x0008,
            Beam::Charge => 0x1000,
        }
    }
}

/// A packed beam word as the game stores it. Bits that name no beam are kept
/// as read; the set it stands for is made of the recognized bits only.
#[derive(Debug, Clone, Copy)]
pub struct Beams {
    pub bits: u16,
}

impl View for Beams {
    type V = Set<Beam>;

    open spec fn view(&self) -> Set<Beam> {
        decode_beams(self.bits)
    }
}

impl Beams {
    /// The empty set.
    pub fn new() -> (r: Beams)
        ensures
            r@ == Set::<Beam>::empty(),
            r.bits == 0,
    {
        let r = Beams { bits: 0 };
        assert(r@ =~= Set::<Beam>::empty()) by {
            assert forall|i: Beam| !(#[trigger] r@.contains(i)) by {
                lemma_beam_bit_is_shift(i);
                let k = beam_index(i);
                assert(0u16 & (1u16 << k) != (1u16 << k)) by (bit_vector)
                    requires k < 16;
            }
        }
        r
    }

    /// Wraps a word read from the console, every bit kept.
    pub fn from_bits(bits: u16) -> (r: Beams)
        ensures
            r.bits == bits,
            r@ == decode_beams(bits),
    {
        Beams { bits }
    }

    /// The word as held, unrecognized bits included.
    pub fn to_bits(&self) -> (r: u16)
        ensures
            r == self.bits,
    {
        self.bits
    }

    /// Whether `beam` is in the set.
    pub fn contains(&self, beam: Beam) -> (r: bool)
        ensures
            r == self@.contains(beam),
    {
        let b = beam.bit();
        self.bits & b == b
    }

    /// Adds `beam` to the set.
    pub fn set(&mut self, beam: Beam)
        ensures
            final(self)@ == old(self)@.insert(beam),
            final(self).bits == old(self).bits | beam_bit(beam),
    {
        proof {
            lemma_beams_insert(self.bits, beam);
        }
        self.bits = self.bits | beam.bit();
    }

    /// The word that stores exactly this set: the recognized bits only.
    pub fn encode(&self) -> (r: u16)
        ensures
            r == encode_beams(self@),
            r == self.bits & BEAMS_MASK,
    {
        proof {
            lemma_beams_recognized_bits(self.bits);
        }
        self.bits & BEAMS_MASK
    }
}

/// Decodes a stored word into the set of beams it names; unrecognized bits
/// are dropped.
pub fn u16_to_beams(beams: u16) -> (r: Beams)
    ensures
        r@ == decode_beams(beams),
        r.bits == beams & BEAMS_MASK,
{
    let bits = beams & BEAMS_MASK;
    assert(decode_beams(bits) =~= decode_beams(beams)) by {
        assert forall|i: Beam| #[trigger] decode_beams(bits).contains(i) == decode_beams(
            beams,
        ).contains(i) by {
            lemma_beam_bit_is_shift(i);
            let k = beam_index(i);
            let m = beam_bit(i);
            assert(((beams & 0x100F) & m == m) == (beams & m == m)) by (bit_vector)
                requires
                    m == 1u16 << k,
                    k == 0 || k == 1 || k == 2 || k == 3 || k == 12,
            ;
        }
    }
    Beams { bits }
}

/// Encodes a list of beams as the OR of their bits; repeats do not matter.
pub fn beams_to_u16(beams: &[Beam]) -> (r: u16)
    ensures
        r == encode_beams(beams@.to_set()),
{
    let mut r: u16 = 0;
    let mut k: usize = 0;
    assert(decode_beams(0) =~= beams@.subrange(0, 0).to_set()) by {
        assert forall|i: Beam| !(#[trigger] decode_beams(0).contains(i)) by {
            lemma_beam_bit_is_shift(i);
            let n = beam_index(i);
            assert(0u16 & (1u16 << n) != (1u16 << n)) by (bit_vector)
                requires n < 16;
        }
    }
    assert(0u16 & 0x100F == 0) by (bit_vector);
    while k < beams.len()
        invariant
            k <= beams@.len(),
            decode_beams(r) == beams@.subrange(0, k as int).to_set(),
            r & BEAMS_MASK == r,
        decreases beams@.len() - k,
    {
        let beam = beams[k];
        proof {
            lemma_beams_insert(r, beam);
            assert(beams@.subrange(0, k + 1) == beams@.subrange(0, k as int).push(beam));
            beams@.subrange(0, k as int).lemma_push_to_set_commute(beam);
            lemma_beam_bit_is_shift(beam);
            let b = beam_bit(beam);
            let n = beam_index(beam);
            assert((r | b) & 0x100F == r | b) by (bit_vector)
                requires
                    r & 0x100F == r,
                    b == 1u16 << n,
                    n == 0 || n == 1 || n == 2 || n == 3 || n == 12,
            ;
        }
        r = r | beam.bit();
        k = k + 1;
    }
    proof {
        assert(beams@.subrange(0, beams@.len() as int) == beams@);
        lemma_beams_recognized_bits(r);
    }
    r
}

/// Flag value `v` when `b` holds, zero otherwise.
pub open spec fn flag8(b: bool, v: u8) -> u8 {
    if b { v } else { 0 }
}

/// Boss encounters of one area, each stored as one bit of a byte.
#[derive(Debug, Clone, Copy, PartialEq, Eq, Structural, PartialOrd, Ord, Hash)]
pub enum Boss {
    MainBoss,
    MiniBoss,
    Torizo,
}

/// Position of a boss's bit in the packed value.
pub open spec fn boss_index(x: Boss) -> u8 {
    match x {
        Boss::MainBoss => 0,
        Boss::MiniBoss => 1,
        Boss::Torizo => 2,
    }
}

/// The bit a boss occupies in the packed value.
pub open spec fn boss_bit(x: Boss) -> u8 {
    match x {
        Boss::MainBoss => 0x01,
        Boss::MiniBoss => 0x02,
        Boss::Torizo => 0x04,
    }
}

/// Every bit that belongs to some boss.
pub const BOSSES_MASK: u8 = 0x07;

/// The bosses whose bit is set in `bits`; other bits are dropped.
pub open spec fn decode_bosses(bits: u8) -> Set<Boss> {
    Set::new(|x: Boss| bits & boss_bit(x) == boss_bit(x))
}

/// The bitwise OR of the bits of the members of `s`.
pub open spec fn encode_bosses(s: Set<Boss>) -> u8 {
    flag8(s.contains(Boss::MainBoss), 0x01)
        | flag8(s.contains(Boss::MiniBoss), 0x02)
        | flag8(s.contains(Boss::Torizo), 0x04)
}

proof fn lemma_boss_flags(b0: bool, b1: bool, b2: bool)
    by (bit_vector)
    ensures
        ({
            let e = flag8(b0, 0x01)
                | flag8(b1, 0x02)
                | flag8(b2, 0x04);
            &&& (e & 0x01 == 0x01) == b0
            &&& (e & 0x02 == 0x02) == b1
            &&& (e & 0x04 == 0x04) == b2
        }),
{
}

proof fn lemma_boss_word(b: u8)
    by (bit_vector)
    ensures
        flag8(b & 0x01 == 0x01, 0x01)
            | flag8(b & 0x02 == 0x02, 0x02)
            | flag8(b & 0x04 == 0x04, 0x04) == b & 0x07,
{
}

/// Decoding what was encoded gives back the same set of bosses.
pub proof fn lemma_bosses_round_trip(s: Set<Boss>)
    ensures
        decode_bosses(encode_bosses(s)) == s,
{
    lemma_boss_flags(
        s.contains(Boss::MainBoss),
        s.contains(Boss::MiniBoss),
        s.contains(Boss::Torizo),
    );
    assert(decode_bosses(encode_bosses(s)) =~= s);
}

/// Encoding a decoded byte keeps exactly the recognized bits of the byte.
pub proof fn lemma_bosses_recognized_bits(b: u8)
    ensures
        encode_bosses(decode_bosses(b)) == b & BOSSES_MASK,
        encode_bosses(decode_bosses(b)) & BOSSES_MASK == b & BOSSES_MASK,
{
    lemma_boss_word(b);
    let e = b & 0x07;
    assert(e & 0x07 == e) by (bit_vector)
        requires e == b & 0x07;
}

proof fn lemma_or_single_bit8(r: u8, a: u8, c: u8)
    by (bit_vector)
    requires
        a < 8,
        c < 8,
    ensures
        ((r | (1u8 << c)) & (1u8 << a) == (1u8 << a)) == ((r & (1u8 << a) == (1u8 << a))
            || a == c),
{
}

proof fn lemma_boss_bit_is_shift(i: Boss)
    ensures
        boss_index(i) < 8,
        boss_bit(i) == 1u8 << boss_index(i),
{
    assert(1u8 << 0u8 == 0x01 && 1u8 << 1u8 == 0x02 && 1u8 << 2u8 == 0x04) by (bit_vector);
}

/// Setting an boss's bit adds exactly that boss to the decoded set.
proof fn lemma_bosses_insert(r: u8, x: Boss)
    ensures
        decode_bosses(r | boss_bit(x)) == decode_bosses(r).insert(x),
{
    lemma_boss_bit_is_shift(x);
    assert forall|i: Boss| #[trigger] decode_bosses(r | boss_bit(x)).contains(i) == decode_bosses(
        r,
    ).insert(x).contains(i) by {
        lemma_boss_bit_is_shift(i);
        lemma_or_single_bit8(r, boss_index(i), boss_index(x));
    }
    assert(decode_bosses(r | boss_bit(x)) =~= decode_bosses(r).insert(x));
}

impl Boss {
    /// The bit this boss occupies in the packed byte.
    pub fn bit(&self) -> (r: u8)
        ensures
            r == boss_bit(*self),
    {
        match self {
            Boss::MainBoss => 0x01,
            Boss::MiniBoss => 0x02,
            Boss::Torizo => 0x04,
        }
    }
}

/// A packed boss byte as the game stores it. Bits that name no boss are kept
/// as read; the set it stands for is made of the recognized bits only.
#[derive(Debug, Clone, Copy)]
pub struct Bosses {
    pub bits: u8,
}

impl View for Bosses {
    type V = Set<Boss>;

    open spec fn view(&self) -> Set<Boss> {
        decode_bosses(self.bits)
    }
}

impl Bosses {
    /// The empty set.
    pub fn new() -> (r: Bosses)
        ensures
            r@ == Set::<Boss>::empty(),
            r.bits == 0,
    {
        let r = Bosses { bits: 0 };
        assert(r@ =~= Set::<Boss>::empty()) by {
            assert forall|i: Boss| !(#[trigger] r@.contains(i)) by {
                lemma_boss_bit_is_shift(i);
                let k = boss_index(i);
                assert(0u8 & (1u8 << k) != (1u8 << k)) by (bit_vector)
                    requires k < 8;
            }
        }
        r
    }

    /// Wraps a byte read from the console, every bit kept.
    pub fn from_bits(bits: u8) -> (r: Bosses)
        ensures
            r.bits == bits,
            r@ == decode_bosses(bits),
    {
        Bosses { bits }
    }

    /// The byte as held, unrecognized bits included.
    pub fn to_bits(&self) -> (r: u8)
        ensures
            r == self.bits,
    {
        self.bits
    }

    /// Whether `boss` is in the set.
    pub fn contains(&self, boss: Boss) -> (r: bool)
        ensures
            r == self@.contains(boss),
    {
        let b = boss.bit();
        self.bits & b == b
    }

    /// Adds `boss` to the set.
    pub fn set(&mut self, boss: Boss)
        ensures
            final(self)@ == old(self)@.insert(boss),
            final(self).bits == old(self).bits | boss_bit(boss),
    {
        proof {
            lemma_bosses_insert(self.bits, boss);
        }
        self.bits = self.bits | boss.bit();
    }

    /// The byte that stores exactly this set: the recognized bits only.
    pub fn encode(&self) -> (r: u8)
        ensures
            r == encode_bosses(self@),
            r == self.bits & BOSSES_MASK,
    {
        proof {
            lemma_bosses_recognized_bits(self.bits);
        }
        self.bits & BOSSES_MASK
    }
}

/// Decodes a stored byte into the set of bosses it names; unrecognized bits
/// are dropped.
pub fn u8_to_bosses(bosses: u8) -> (r: Bosses)
    ensures
        r@ == decode_bosses(bosses),
        r.bits == bosses & BOSSES_MASK,
{
    let bits = bosses & BOSSES_MASK;
    assert(decode_bosses(bits) =~= decode_bosses(bosses)) by {
        assert forall|i: Boss| #[trigger] decode_bosses(bits).contains(i) == decode_bosses(
            bosses,
        ).contains(i) by {
            lemma_boss_bit_is_shift(i);
            let k = boss_index(i);
            let m = boss_bit(i);
            assert(((bosses & 0x07) & m == m) == (bosses & m == m)) by (bit_vector)
                requires
                    m == 1u8 << k,
                    k == 0 || k == 1 || k == 2,
            ;
        }
    }
    Bosses { bits }
}

/// Encodes a list of bosses as the OR of their bits; repeats do not matter.
pub fn bosses_to_u8(bosses: &[Boss]) -> (r: u8)
    ensures
        r == encode_bosses(bosses@.to_set()),
{
    let mut r: u8 = 0;
    let mut k: usize = 0;
    assert(decode_bosses(0) =~= bosses@.subrange(0, 0).to_set()) by {
        assert forall|i: Boss| !(#[trigger] decode_bosses(0).contains(i)) by {
            lemma_boss_bit_is_shift(i);
            let n = boss_index(i);
            assert(0u8 & (1u8 << n) != (1u8 << n)) by (bit_vector)
                requires n < 8;
        }
    }
    assert(0u8 & 0x07 == 0) by (bit_vector);
    while k < bosses.len()
        invariant
            k <= bosses@.len(),
            decode_bosses(r) == bosses@.subrange(0, k as int).to_set(),
            r & BOSSES_MASK == r,
        decreases bosses@.len() - k,
    {
        let boss = bosses[k];
        proof {
            lemma_bosses_insert(r, boss);
            assert(bosses@.subrange(0, k + 1) == bosses@.subrange(0, k as int).push(boss));
            bosses@.subrange(0, k as int).lemma_push_to_set_commute(boss);
            lemma_boss_bit_is_shift(boss);
            let b = boss_bit(boss);
            let n = boss_index(boss);
            assert((r | b) & 0x07 == r | b) by (bit_vector)
                requires
                    r & 0x07 == r,
                    b == 1u8 << n,
                    n == 0 || n == 1 || n == 2,
            ;
        }
        r = r | boss.bit();
        k = k + 1;
    }
    proof {
        assert(bosses@.subrange(0, bosses@.len() as int) == bosses@);
        lemma_bosses_recognized_bits(r);
    }
    r
}

/// Regions of the game world; each has a one-byte code.
#[derive(Debug, Clone, Copy, PartialEq, Eq, Structural, PartialOrd, Ord, Hash)]
pub enum Area {
    Crateria,
    Brinstar,
    Norfair,
    WreckedShip,
    Maridia,
    Tourian,
    Ceres,
    Debug,
}

/// Number of areas; codes run from zero up to one below it.
pub const AREA_COUNT: u8 = 8;

/// The one-byte code of an area.
pub open spec fn area_code(a: Area) -> u8 {
    match a {
        Area::Crateria => 0,
        Area::Brinstar => 1,
        Area::Norfair => 2,
        Area::WreckedShip => 3,
        Area::Maridia => 4,
        Area::Tourian => 5,
        Area::Ceres => 6,
        Area::Debug => 7,
    }
}

/// The area with code `c`, for a code below `AREA_COUNT`.
pub open spec fn area_of_code(c: int) -> Area
    recommends
        0 <= c < 8,
{
    if c == 0 {
        Area::Crateria
    } else if c == 1 {
        Area::Brinstar
    } else if c == 2 {
        Area::Norfair
    } else if c == 3 {
        Area::WreckedShip
    } else if c == 4 {
        Area::Maridia
    } else if c == 5 {
        Area::Tourian
    } else if c == 6 {
        Area::Ceres
    } else {
        Area::Debug
    }
}

/// Codes and areas are in one-to-one correspondence.
pub proof fn lemma_area_code_bijective(a: Area, c: int)
    ensures
        area_code(a) < AREA_COUNT,
        area_of_code(area_code(a) as int) == a,
        0 <= c < 8 ==> area_code(area_of_code(c)) == c,
{
}

/// The code of an area.
pub fn area_to_u8(area: &Area) -> (r: u8)
    ensures
        r == area_code(*area),
{
    match area {
        Area::Crateria => 0,
        Area::Brinstar => 1,
        Area::Norfair => 2,
        Area::WreckedShip => 3,
        Area::Maridia => 4,
        Area::Tourian => 5,
        Area::Ceres => 6,
        Area::Debug => 7,
    }
}

/// The area with a given code; only the eight defined codes are accepted.
pub fn u8_to_area(area: u8) -> (r: Area)
    requires
        area < AREA_COUNT,
    ensures
        area_code(r) == area,
        r == area_of_code(area as int),
{
    if area == 0 {
        Area::Crateria
    } else if area == 1 {
        Area::Brinstar
    } else if area == 2 {
        Area::Norfair
    } else if area == 3 {
        Area::WreckedShip
    } else if area == 4 {
        Area::Maridia
    } else if area == 5 {
        Area::Tourian
    } else if area == 6 {
        Area::Ceres
    } else {
        Area::Debug
    }
}

/// Defeated bosses per area: slot `c` holds the flags of the area with code
/// `c`, or nothing when that area has no entry. Walking the slots in order
/// walks the areas by code.
#[derive(Debug, Clone, Copy)]
pub struct AreaBosses {
    pub slots: [Option<Bosses>; 8],
}

impl View for AreaBosses {
    type V = Map<Area, Set<Boss>>;

    open spec fn view(&self) -> Map<Area, Set<Boss>> {
        Map::new(
            |a: Area| self.slots@[area_code(a) as int] is Some,
            |a: Area| self.slots@[area_code(a) as int]->Some_0@,
        )
    }
}

impl AreaBosses {
    /// No area has an entry.
    pub fn new() -> (r: AreaBosses)
        ensures
            r@ == Map::<Area, Set<Boss>>::empty(),
            forall|c: int| 0 <= c < 8 ==> r.slots@[c] is None,
    {
        let r = AreaBosses { slots: [None, None, None, None, None, None, None, None] };
        assert(r@ =~= Map::<Area, Set<Boss>>::empty());
        r
    }

    /// Sets the entry of `area`, replacing any earlier one.
    pub fn insert(&mut self, area: Area, bosses: Bosses)
        ensures
            final(self)@ == old(self)@.insert(area, bosses@),
            final(self).slots@ == old(self).slots@.update(area_code(area) as int, Some(bosses)),
    {
        let c = area_to_u8(&area) as usize;
        self.slots[c] = Some(bosses);
        assert forall|a: Area| #[trigger] area_code(a) == area_code(area) implies a == area by {
            lemma_area_code_bijective(a, 0);
            lemma_area_code_bijective(area, 0);
        }
        assert(self@ =~= old(self)@.insert(area, bosses@));
    }

    /// The entry of `area`, if it has one.
    pub fn get(&self, area: Area) -> (r: Option<Bosses>)
        ensures
            r == self.slots@[area_code(area) as int],
            r is Some <==> self@.contains_key(area),
            r is Some ==> r->Some_0@ == self@[area],
    {
        let c = area_to_u8(&area) as usize;
        self.slots[c]
    }
}

/// Builds the per-area flags from (area code, flag byte) pairs read from the
/// console; a later pair for the same area replaces an earlier one.
pub fn to_area_bosses(areas: &[(u8, u8)]) -> (r: AreaBosses)
    requires
        forall|k: int| 0 <= k < areas@.len() ==> (#[trigger] areas@[k]).0 < AREA_COUNT,
    ensures
        r@ == area_bosses_of(areas@),
{
    let mut map = AreaBosses::new();
    let mut k: usize = 0;
    while k < areas.len()
        invariant
            k <= areas@.len(),
            forall|j: int| 0 <= j < areas@.len() ==> (#[trigger] areas@[j]).0 < AREA_COUNT,
            map@ == area_bosses_of(areas@.subrange(0, k as int)),
        decreases areas@.len() - k,
    {
        let (area, bosses) = areas[k];
        map.insert(u8_to_area(area), u8_to_bosses(bosses));
        assert(areas@.subrange(0, k + 1).drop_last() == areas@.subrange(0, k as int));
        k = k + 1;
    }
    assert(areas@.subrange(0, areas@.len() as int) == areas@);
    map
}

/// The map that (area code, flag byte) pairs describe, later pairs winning.
pub open spec fn area_bosses_of(pairs: Seq<(u8, u8)>) -> Map<Area, Set<Boss>>
    decreases pairs.len(),
{
    if pairs.len() == 0 {
        Map::empty()
    } else {
        let last = pairs.last();
        area_bosses_of(pairs.drop_last()).insert(area_of_code(last.0 as int), decode_bosses(last.1))
    }
}

} // verus!
