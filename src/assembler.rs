//! Turns a desired game state, and a few fixed one-off patches, into the code
//! injected into the console.
use vstd::prelude::*;
use crate::codec::{
    area_code, area_of_code, encode_bosses, lemma_area_code_bijective, AreaBosses, Area,
};
use crate::emitter::{
    lda_immediate_u16, lda_immediate_u8, long_bytes, op_word, push_bytes, rep, sep, sta_absolute,
    sta_long,
    LDA_IMM, M_FLAG, REP, SEP, STA_ABS, STA_LONG,
};
use crate::registry::{field_offset, offset_of, SamusField};
use crate::state::{field_value, Samus};

verus! {

/// Bank of work RAM in the processor's own long addresses.
pub const WRAM_BANK: u32 = 0x7E_0000;

/// The order in which the word fields are stored: counters, then the
/// packed sets, then the position.
pub open spec fn store_order() -> Seq<SamusField> {
    seq![
        SamusField::HP,
        SamusField::MaxHP,
        SamusField::Missiles,
        SamusField::MaxMissiles,
        SamusField::Supers,
        SamusField::MaxSupers,
        SamusField::PBs,
        SamusField::MaxPBs,
        SamusField::ReserveHP,
        SamusField::MaxReserveHP,
        SamusField::CollectedItems,
        SamusField::EquippedItems,
        SamusField::CollectedBeams,
        SamusField::EquippedBeams,
        SamusField::XPosition,
        SamusField::YPosition,
        SamusField::XSubPosition,
        SamusField::YSubPosition,
    ]
}

/// LDA #value then STA address, with a 16-bit accumulator.
pub open spec fn store_word(value: u16, address: u16) -> Seq<u8> {
    op_word(LDA_IMM, value) + op_word(STA_ABS, address)
}

/// One load and store pair per field of `fields`, in that order.
pub open spec fn word_stores(s: Samus, fields: Seq<SamusField>) -> Seq<u8>
    decreases fields.len(),
{
    if fields.len() == 0 {
        Seq::empty()
    } else {
        word_stores(s, fields.drop_last()) + store_word(
            field_value(s, fields.last()),
            field_offset(fields.last()),
        )
    }
}

/// The (offset, flag byte) writes of the areas whose code is below `n` and
/// that have an entry, by area code.
pub open spec fn boss_writes(b: AreaBosses, n: int) -> Seq<(u16, u8)>
    decreases n,
{
    if n <= 0 {
        Seq::empty()
    } else {
        let slot = b.slots@[n - 1];
        let before = boss_writes(b, n - 1);
        if slot is Some {
            before.push(
                (
                    (field_offset(SamusField::Bosses) + n - 1) as u16,
                    encode_bosses(slot->Some_0@),
                ),
            )
        } else {
            before
        }
    }
}

/// LDA #byte then STA to the work RAM byte at `offset`, with an 8-bit
/// accumulator.
pub open spec fn store_byte_long(byte: u8, offset: u16) -> Seq<u8> {
    seq![LDA_IMM, byte, STA_LONG] + long_bytes((WRAM_BANK + offset) as u32)
}

/// One load and long store pair per write, in order.
pub open spec fn boss_stores(w: Seq<(u16, u8)>) -> Seq<u8>
    decreases w.len(),
{
    if w.len() == 0 {
        Seq::empty()
    } else {
        boss_stores(w.drop_last()) + store_byte_long(w.last().1, w.last().0)
    }
}

/// The code that writes every field of `s`: the word fields in
/// `store_order`, then the boss flags of each area by area code, bracketed
/// by one switch to an 8-bit accumulator and one switch back.
pub open spec fn overwrite_program(s: Samus) -> Seq<u8> {
    word_stores(s, store_order()) + seq![SEP, M_FLAG] + boss_stores(boss_writes(s.bosses, 8))
        + seq![REP, M_FLAG]
}

proof fn lemma_word_stores_layout(s: Samus, fields: Seq<SamusField>)
    ensures
        word_stores(s, fields).len() == 6 * fields.len(),
        forall|k: int|
            0 <= k < fields.len() ==> #[trigger] word_stores(s, fields).subrange(6 * k, 6 * k + 6)
                == store_word(field_value(s, fields[k]), field_offset(fields[k])),
    decreases fields.len(),
{
    if fields.len() > 0 {
        let front = fields.drop_last();
        lemma_word_stores_layout(s, front);
        let w = word_stores(s, fields);
        let p = word_stores(s, front);
        assert forall|k: int| 0 <= k < fields.len() implies #[trigger] w.subrange(6 * k, 6 * k + 6)
            == store_word(field_value(s, fields[k]), field_offset(fields[k])) by {
            if k < front.len() {
                assert(w.subrange(6 * k, 6 * k + 6) =~= p.subrange(6 * k, 6 * k + 6));
            } else {
                assert(w.subrange(6 * k, 6 * k + 6) =~= store_word(
                    field_value(s, fields.last()),
                    field_offset(fields.last()),
                ));
            }
        }
    }
}

proof fn lemma_boss_stores_layout(w: Seq<(u16, u8)>)
    ensures
        boss_stores(w).len() == 6 * w.len(),
        forall|j: int|
            0 <= j < w.len() ==> #[trigger] boss_stores(w).subrange(6 * j, 6 * j + 6)
                == store_byte_long(w[j].1, w[j].0),
    decreases w.len(),
{
    if w.len() > 0 {
        let front = w.drop_last();
        lemma_boss_stores_layout(front);
        let b = boss_stores(w);
        let p = boss_stores(front);
        assert forall|j: int| 0 <= j < w.len() implies #[trigger] b.subrange(6 * j, 6 * j + 6)
            == store_byte_long(w[j].1, w[j].0) by {
            if j < front.len() {
                assert(b.subrange(6 * j, 6 * j + 6) =~= p.subrange(6 * j, 6 * j + 6));
            } else {
                assert(b.subrange(6 * j, 6 * j + 6) =~= store_byte_long(w.last().1, w.last().0));
            }
        }
    }
}

/// The area code a boss write stores to.
pub open spec fn write_code(w: (u16, u8)) -> int {
    w.0 - field_offset(SamusField::Bosses)
}

proof fn lemma_boss_writes(b: AreaBosses, n: int)
    requires
        0 <= n <= 8,
    ensures
        forall|i: int, j: int|
            0 <= i < j < boss_writes(b, n).len() ==> write_code(#[trigger] boss_writes(b, n)[i])
                < write_code(#[trigger] boss_writes(b, n)[j]),
        forall|j: int|
            #![trigger boss_writes(b, n)[j]]
            0 <= j < boss_writes(b, n).len() ==> {
                let c = write_code(boss_writes(b, n)[j]);
                &&& 0 <= c < n
                &&& b.slots@[c] is Some
                &&& boss_writes(b, n)[j].1 == encode_bosses(b.slots@[c]->Some_0@)
            },
        forall|c: int|
            #![trigger b.slots@[c]]
            0 <= c < n && b.slots@[c] is Some ==> exists|j: int|
                0 <= j < boss_writes(b, n).len()
                    && write_code(#[trigger] boss_writes(b, n)[j]) == c,
    decreases n,
{
    if n > 0 {
        lemma_boss_writes(b, n - 1);
        let w = boss_writes(b, n);
        let p = boss_writes(b, n - 1);
        if b.slots@[n - 1] is Some {
            assert(w.len() == p.len() + 1);
            assert(write_code(w[w.len() - 1]) == n - 1);
            assert forall|j: int| 0 <= j < p.len() implies w[j] == p[j] by {}
            assert forall|c: int|
                0 <= c < n && #[trigger] b.slots@[c] is Some implies exists|j: int|
                0 <= j < w.len() && write_code(#[trigger] w[j]) == c by {
                if c < n - 1 {
                    let j = choose|j: int| 0 <= j < p.len() && write_code(#[trigger] p[j]) == c;
                    assert(w[j] == p[j]);
                } else {
                    assert(write_code(w[w.len() - 1]) == c);
                }
            }
        } else {
            assert(w == p);
        }
    }
}

/// The boss writes, stated over the areas of the map.
proof fn lemma_boss_writes_by_area(b: AreaBosses)
    ensures
        forall|i: int, j: int|
            0 <= i < j < boss_writes(b, 8).len() ==> write_code(#[trigger] boss_writes(b, 8)[i])
                < write_code(#[trigger] boss_writes(b, 8)[j]),
        forall|j: int|
            #![trigger boss_writes(b, 8)[j]]
            0 <= j < boss_writes(b, 8).len() ==> {
                let a = area_of_code(write_code(boss_writes(b, 8)[j]));
                &&& b@.contains_key(a)
                &&& write_code(boss_writes(b, 8)[j]) == area_code(a)
                &&& boss_writes(b, 8)[j].1 == encode_bosses(b@[a])
            },
        forall|a: Area|
            #![trigger b@.contains_key(a)]
            b@.contains_key(a) ==> exists|j: int|
                0 <= j < boss_writes(b, 8).len() && write_code(#[trigger] boss_writes(b, 8)[j])
                    == area_code(a),
{
    let w = boss_writes(b, 8);
    lemma_boss_writes(b, 8);
    assert forall|j: int| #![trigger w[j]] 0 <= j < w.len() implies {
        let a = area_of_code(write_code(w[j]));
        &&& b@.contains_key(a)
        &&& write_code(w[j]) == area_code(a)
        &&& w[j].1 == encode_bosses(b@[a])
    } by {
        let c = write_code(w[j]);
        let a = area_of_code(c);
        lemma_area_code_bijective(a, c);
    }
    assert forall|a: Area| b@.contains_key(a) implies exists|j: int|
        0 <= j < w.len() && write_code(#[trigger] w[j]) == area_code(a) by {
        lemma_area_code_bijective(a, 0);
        assert(b.slots@[area_code(a) as int] is Some);
    }
}

/// The word fields are stored once each.
pub proof fn lemma_store_order()
    ensures
        store_order().len() == 18,
        store_order().no_duplicates(),
        forall|f: SamusField| store_order().contains(f) <==> f != SamusField::Bosses,
{
    let order = store_order();
    assert(order.len() == 18);
    assert forall|f: SamusField| order.contains(f) <==> f != SamusField::Bosses by {
        if f != SamusField::Bosses {
            let k: int = match f {
                SamusField::HP => 0,
                SamusField::MaxHP => 1,
                SamusField::Missiles => 2,
                SamusField::MaxMissiles => 3,
                SamusField::Supers => 4,
                SamusField::MaxSupers => 5,
                SamusField::PBs => 6,
                SamusField::MaxPBs => 7,
                SamusField::ReserveHP => 8,
                SamusField::MaxReserveHP => 9,
                SamusField::CollectedItems => 10,
                SamusField::EquippedItems => 11,
                SamusField::CollectedBeams => 12,
                SamusField::EquippedBeams => 13,
                SamusField::XPosition => 14,
                SamusField::YPosition => 15,
                SamusField::XSubPosition => 16,
                SamusField::YSubPosition => 17,
                SamusField::Bosses => 0,
            };
            assert(order[k] == f);
        }
    }
    assert(order.no_duplicates()) by {
        assert forall|i: int, j: int|
            0 <= i < order.len() && 0 <= j < order.len() && i != j implies order[i]
            != order[j] by {
            crate::registry::lemma_offsets_distinct(order[i], order[j]);
        }
    }
}

/// The code for a state is one load and store pair for each field but
/// `Bosses`, once each and in `store_order`; then a single switch to an
/// 8-bit accumulator; then one load and long store pair per area that has
/// boss flags, each area once and by increasing code; then a single switch
/// back to a 16-bit accumulator, which ends the code.
pub proof fn lemma_overwrite_layout(s: Samus)
    ensures
        store_order().len() == 18,
        store_order().no_duplicates(),
        forall|f: SamusField| store_order().contains(f) <==> f != SamusField::Bosses,
        ({
            let p = overwrite_program(s);
            let w = boss_writes(s.bosses, 8);
            &&& p.len() == 6 * 18 + 2 + 6 * w.len() + 2
            &&& forall|k: int|
                0 <= k < 18 ==> #[trigger] p.subrange(6 * k, 6 * k + 6) == store_word(
                    field_value(s, store_order()[k]),
                    field_offset(store_order()[k]),
                )
            &&& p.subrange(108, 110) == seq![SEP, M_FLAG]
            &&& forall|j: int|
                0 <= j < w.len() ==> #[trigger] p.subrange(110 + 6 * j, 116 + 6 * j)
                    == store_byte_long(w[j].1, w[j].0)
            &&& p.subrange(p.len() - 2, p.len() as int) == seq![REP, M_FLAG]
            &&& forall|i: int, j: int|
                0 <= i < j < w.len() ==> write_code(#[trigger] w[i]) < write_code(#[trigger] w[j])
            &&& forall|j: int|
                #![trigger w[j]]
                0 <= j < w.len() ==> {
                    let a = area_of_code(write_code(w[j]));
                    &&& s.bosses@.contains_key(a)
                    &&& write_code(w[j]) == area_code(a)
                    &&& w[j].1 == encode_bosses(s.bosses@[a])
                }
            &&& forall|a: Area|
                #![trigger s.bosses@.contains_key(a)]
                s.bosses@.contains_key(a) ==> exists|j: int|
                    0 <= j < w.len() && write_code(#[trigger] w[j]) == area_code(a)
        }),
{
    let order = store_order();
    lemma_store_order();
    let p = overwrite_program(s);
    let ws = word_stores(s, order);
    let w = boss_writes(s.bosses, 8);
    let bs = boss_stores(w);
    lemma_word_stores_layout(s, order);
    lemma_boss_stores_layout(w);
    assert(p == ws + seq![SEP, M_FLAG] + bs + seq![REP, M_FLAG]);
    assert forall|k: int| 0 <= k < 18 implies #[trigger] p.subrange(6 * k, 6 * k + 6) == store_word(
        field_value(s, order[k]),
        field_offset(order[k]),
    ) by {
        assert(p.subrange(6 * k, 6 * k + 6) =~= ws.subrange(6 * k, 6 * k + 6));
    }
    assert(p.subrange(108, 110) =~= seq![SEP, M_FLAG]);
    assert forall|j: int| 0 <= j < w.len() implies #[trigger] p.subrange(110 + 6 * j, 116 + 6 * j)
        == store_byte_long(w[j].1, w[j].0) by {
        assert(p.subrange(110 + 6 * j, 116 + 6 * j) =~= bs.subrange(6 * j, 6 * j + 6));
    }
    assert(p.subrange(p.len() - 2, p.len() as int) =~= seq![REP, M_FLAG]);
    lemma_boss_writes_by_area(s.bosses);
}

/// The word fields in the order they are stored.
pub fn word_store_order() -> (r: Vec<SamusField>)
    ensures
        r@ == store_order(),
{
    let r = vec![
        SamusField::HP,
        SamusField::MaxHP,
        SamusField::Missiles,
        SamusField::MaxMissiles,
        SamusField::Supers,
        SamusField::MaxSupers,
        SamusField::PBs,
        SamusField::MaxPBs,
        SamusField::ReserveHP,
        SamusField::MaxReserveHP,
        SamusField::CollectedItems,
        SamusField::EquippedItems,
        SamusField::CollectedBeams,
        SamusField::EquippedBeams,
        SamusField::XPosition,
        SamusField::YPosition,
        SamusField::XSubPosition,
        SamusField::YSubPosition,
    ];
    assert(r@ =~= store_order());
    r
}

/// The flag byte of each area that has an entry, with the work RAM offset
/// where it is stored, by area code.
pub fn area_bosses_to_bytes(areas: &AreaBosses) -> (r: Vec<(u16, u8)>)
    ensures
        r@ == boss_writes(*areas, 8),
{
    let base = offset_of(SamusField::Bosses);
    let mut ret: Vec<(u16, u8)> = Vec::new();
    let mut c: usize = 0;
    while c < 8
        invariant
            c <= 8,
            base == field_offset(SamusField::Bosses),
            ret@ == boss_writes(*areas, c as int),
        decreases 8 - c,
    {
        match areas.slots[c] {
            Some(b) => {
                ret.push((base + c as u16, b.encode()));
            },
            None => {},
        }
        c = c + 1;
    }
    ret
}

/// The code that writes every field of `samus` into work RAM.
pub fn samus_overwrite_asm(samus: &Samus) -> (r: Vec<u8>)
    ensures
        r@ == overwrite_program(*samus),
{
    let mut r: Vec<u8> = Vec::new();
    let order = word_store_order();
    let mut k: usize = 0;
    while k < order.len()
        invariant
            k <= order@.len(),
            order@ == store_order(),
            r@ == word_stores(*samus, order@.subrange(0, k as int)),
        decreases order@.len() - k,
    {
        let field = order[k];
        proof {
            assert(order@.subrange(0, k + 1).drop_last() =~= order@.subrange(0, k as int));
            assert(field != SamusField::Bosses);
        }
        push_bytes(&mut r, &lda_immediate_u16(samus.value_of(field)));
        push_bytes(&mut r, &sta_absolute(offset_of(field)));
        k = k + 1;
    }
    assert(order@.subrange(0, order@.len() as int) =~= order@);
    push_bytes(&mut r, &sep(M_FLAG));
    let writes = area_bosses_to_bytes(&samus.bosses);
    let ghost head = r@;
    let mut j: usize = 0;
    while j < writes.len()
        invariant
            j <= writes@.len(),
            r@ == head + boss_stores(writes@.subrange(0, j as int)),
        decreases writes@.len() - j,
    {
        let (addr, bosses) = writes[j];
        proof {
            assert(writes@.subrange(0, j + 1).drop_last() =~= writes@.subrange(0, j as int));
        }
        push_bytes(&mut r, &lda_immediate_u8(bosses));
        push_bytes(&mut r, &sta_long(WRAM_BANK + addr as u32));
        j = j + 1;
    }
    assert(writes@.subrange(0, writes@.len() as int) =~= writes@);
    push_bytes(&mut r, &rep(M_FLAG));
    r
}

} // verus!
