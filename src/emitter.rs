//! Byte encodings of the processor instructions the injected code is made of.
//!
//! Each function returns the opcode followed by its operand, least
//! significant byte first.
use vstd::prelude::*;

verus! {

/// The low byte of a word.
pub open spec fn lo(x: u16) -> u8 {
    (x % 256) as u8
}

/// The high byte of a word.
pub open spec fn hi(x: u16) -> u8 {
    (x / 256) as u8
}

/// The three low bytes of a long address, least significant first.
pub open spec fn long_bytes(x: u32) -> Seq<u8> {
    seq![(x % 256) as u8, (x / 256 % 256) as u8, (x / 65536 % 256) as u8]
}

/// An opcode followed by a little-endian word operand.
pub open spec fn op_word(opcode: u8, w: u16) -> Seq<u8> {
    seq![opcode, lo(w), hi(w)]
}

/// Opcode of LDA with an immediate operand.
pub const LDA_IMM: u8 = 0xA9;
/// Opcode of LDA with an absolute address.
pub const LDA_ABS: u8 = 0xAD;
/// Opcode of STA with an absolute address.
pub const STA_ABS: u8 = 0x8D;
/// Opcode of STA with a long (three-byte) address.
pub const STA_LONG: u8 = 0x8F;
/// Opcode of STZ with an absolute address.
pub const STZ_ABS: u8 = 0x9C;
/// Opcode of INC on the accumulator.
pub const INC_A: u8 = 0x1A;
/// Opcode of INC with an absolute address.
pub const INC_ABS: u8 = 0xEE;
/// Opcode of SED, which enters decimal mode.
pub const SED: u8 = 0xF8;
/// Opcode of CLD, which leaves decimal mode.
pub const CLD: u8 = 0xD8;
/// Opcode of ADC with a direct-page address.
pub const ADC_DIRECT: u8 = 0x65;
/// Opcode of ADC with an immediate operand.
pub const ADC_IMM: u8 = 0x69;
/// Opcode of ADC with an absolute address.
pub const ADC_ABS: u8 = 0x6D;
/// Opcode of SEP, which sets status bits.
pub const SEP: u8 = 0xE2;
/// Opcode of REP, which clears status bits.
pub const REP: u8 = 0xC2;
/// Status bit that makes the accumulator 8 bits wide when set.
pub const M_FLAG: u8 = 0x20;

/// The two bytes of a word, least significant first.
pub fn u16_to_le(data: u16) -> (r: [u8; 2])
    ensures
        r@ == seq![lo(data), hi(data)],
        r[0] + 256 * r[1] == data,
{
    let lb: u8 = (data & 0x00FF) as u8;
    let hb: u8 = (data >> 8) as u8;
    assert(lb == data % 256 && hb == data / 256) by (bit_vector)
        requires
            lb == (data & 0x00FF) as u8,
            hb == (data >> 8) as u8,
    ;
    [lb, hb]
}

/// LDA #word: loads a 16-bit constant into the accumulator.
pub fn lda_immediate_u16(data: u16) -> (r: [u8; 3])
    ensures
        r@ == op_word(LDA_IMM, data),
{
    let bytes = u16_to_le(data);
    [LDA_IMM, bytes[0], bytes[1]]
}

/// LDA #byte: loads an 8-bit constant into the accumulator.
pub fn lda_immediate_u8(data: u8) -> (r: [u8; 2])
    ensures
        r@ == seq![LDA_IMM, data],
{
    [LDA_IMM, data]
}

/// LDA addr: loads the accumulator from an absolute address.
pub fn lda_addr(address: u16) -> (r: [u8; 3])
    ensures
        r@ == op_word(LDA_ABS, address),
{
    let bytes = u16_to_le(address);
    [LDA_ABS, bytes[0], bytes[1]]
}

/// INC A: adds one to the accumulator.
pub fn inc() -> (r: [u8; 1])
    ensures
        r@ == seq![INC_A],
{
    [INC_A]
}

/// INC addr: adds one to the value at an absolute address.
pub fn inc_absolute(address: u16) -> (r: [u8; 3])
    ensures
        r@ == op_word(INC_ABS, address),
{
    let bytes = u16_to_le(address);
    [INC_ABS, bytes[0], bytes[1]]
}

/// SED: enters decimal mode.
pub fn sed() -> (r: [u8; 1])
    ensures
        r@ == seq![SED],
{
    [SED]
}

/// CLD: leaves decimal mode.
pub fn cld() -> (r: [u8; 1])
    ensures
        r@ == seq![CLD],
{
    [CLD]
}

/// ADC dp: adds the value at a direct-page address to the accumulator.
pub fn adc_direct(data: u8) -> (r: [u8; 2])
    ensures
        r@ == seq![ADC_DIRECT, data],
{
    [ADC_DIRECT, data]
}

/// ADC #word: adds a 16-bit constant to the accumulator.
pub fn adc_immediate_u16(data: u16) -> (r: [u8; 3])
    ensures
        r@ == op_word(ADC_IMM, data),
{
    let bytes = u16_to_le(data);
    [ADC_IMM, bytes[0], bytes[1]]
}

/// ADC #byte: adds an 8-bit constant to the accumulator.
pub fn adc_immediate_u8(data: u8) -> (r: [u8; 2])
    ensures
        r@ == seq![ADC_IMM, data],
{
    [ADC_IMM, data]
}

/// ADC addr: adds the value at an absolute address to the accumulator.
pub fn adc_absolute(address: u16) -> (r: [u8; 3])
    ensures
        r@ == op_word(ADC_ABS, address),
{
    let bytes = u16_to_le(address);
    [ADC_ABS, bytes[0], bytes[1]]
}

/// STA addr: stores the accumulator at an absolute address.
pub fn sta_absolute(address: u16) -> (r: [u8; 3])
    ensures
        r@ == op_word(STA_ABS, address),
{
    let bytes = u16_to_le(address);
    [STA_ABS, bytes[0], bytes[1]]
}

/// STA long: stores the accumulator at a 24-bit address; the top byte of
/// `address` is not part of the encoding.
pub fn sta_long(address: u32) -> (r: [u8; 4])
    ensures
        r@ == seq![STA_LONG] + long_bytes(address),
{
    let b0: u8 = (address & 0xFF) as u8;
    let b1: u8 = ((address >> 8) & 0xFF) as u8;
    let b2: u8 = ((address >> 16) & 0xFF) as u8;
    assert(b0 == address % 256 && b1 == (address / 256) % 256 && b2 == (address / 65536) % 256)
        by (bit_vector)
        requires
            b0 == (address & 0xFF) as u8,
            b1 == ((address >> 8) & 0xFF) as u8,
            b2 == ((address >> 16) & 0xFF) as u8,
    ;
    let r = [STA_LONG, b0, b1, b2];
    assert(r@ =~= seq![STA_LONG] + long_bytes(address));
    r
}

/// STZ addr: stores zero at an absolute address.
pub fn stz_absolute(address: u16) -> (r: [u8; 3])
    ensures
        r@ == op_word(STZ_ABS, address),
{
    let bytes = u16_to_le(address);
    [STZ_ABS, bytes[0], bytes[1]]
}

/// SEP #mask: sets the status bits in `mask`.
pub fn sep(mask: u8) -> (r: [u8; 2])
    ensures
        r@ == seq![SEP, mask],
{
    [SEP, mask]
}

/// REP #mask: clears the status bits in `mask`.
pub fn rep(mask: u8) -> (r: [u8; 2])
    ensures
        r@ == seq![REP, mask],
{
    [REP, mask]
}

/// Appends `bytes` to `r`.
pub fn push_bytes(r: &mut Vec<u8>, bytes: &[u8])
    ensures
        final(r)@ == old(r)@ + bytes@,
{
    let mut k: usize = 0;
    while k < bytes.len()
        invariant
            k <= bytes@.len(),
            r@ == old(r)@ + bytes@.subrange(0, k as int),
        decreases bytes@.len() - k,
    {
        r.push(bytes[k]);
        k = k + 1;
        assert(r@ =~= old(r)@ + bytes@.subrange(0, k as int));
    }
    assert(bytes@.subrange(0, bytes@.len() as int) =~= bytes@);
}

} // verus!
