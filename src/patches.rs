//! Fixed one-off patches, and the frame that makes injected code safe to run
//! from the console's interrupt handler.
use vstd::prelude::*;
use crate::assembler::{overwrite_program, samus_overwrite_asm};
use crate::emitter::{
    push_bytes, adc_absolute, adc_immediate_u8, cld, inc_absolute, lda_addr, lda_immediate_u16,
    lda_immediate_u8, op_word, rep, sed, sep, sta_absolute, stz_absolute, ADC_ABS, ADC_IMM, CLD,
    INC_ABS, LDA_ABS, LDA_IMM, M_FLAG, REP, SED, SEP, STA_ABS, STZ_ABS,
};
use crate::state::Samus;

verus! {

/// Work RAM byte of the speed-boost state, which the blue-suit patch sets.
pub const SPEED_BOOST: u16 = 0x0B3F;
/// Work RAM byte that the spike-suit patch sets.
pub const SPIKE_SUIT: u16 = 0x0A68;
/// Work RAM word that the G-mode patch clears.
pub const G_MODE: u16 = 0x1C23;
/// Work RAM byte of the kill counter.
pub const KILL_COUNT: u16 = 0x0E50;
/// Work RAM word of the hyper-beam switch.
pub const HYPER_BEAM: u16 = 0x0A76;
/// Work RAM byte of the timer's minutes, in packed decimal.
pub const TIMER_MINUTES: u16 = 0x0947;
/// Work RAM word of the horizontal position.
pub const X_POSITION: u16 = 0x0AF6;

/// SEP #$20, `body`, REP #$20: `body` runs with an 8-bit accumulator.
pub open spec fn byte_mode(body: Seq<u8>) -> Seq<u8> {
    seq![SEP, M_FLAG] + body + seq![REP, M_FLAG]
}

/// Blue suit: stores 4 in the speed-boost byte.
pub fn blue_suit_asm() -> (r: Vec<u8>)
    ensures
        r@ == byte_mode(seq![LDA_IMM, 4] + op_word(STA_ABS, SPEED_BOOST)),
{
    let mut r = Vec::new();
    push_bytes(&mut r, &sep(M_FLAG));
    push_bytes(&mut r, &lda_immediate_u8(4));
    push_bytes(&mut r, &sta_absolute(SPEED_BOOST));
    push_bytes(&mut r, &rep(M_FLAG));
    assert(r@ =~= byte_mode(seq![LDA_IMM, 4] + op_word(STA_ABS, SPEED_BOOST)));
    r
}

/// Spike suit: stores 1 in its byte.
pub fn spike_suit_asm() -> (r: Vec<u8>)
    ensures
        r@ == byte_mode(seq![LDA_IMM, 1] + op_word(STA_ABS, SPIKE_SUIT)),
{
    let mut r = Vec::new();
    push_bytes(&mut r, &sep(M_FLAG));
    push_bytes(&mut r, &lda_immediate_u8(1));
    push_bytes(&mut r, &sta_absolute(SPIKE_SUIT));
    push_bytes(&mut r, &rep(M_FLAG));
    assert(r@ =~= byte_mode(seq![LDA_IMM, 1] + op_word(STA_ABS, SPIKE_SUIT)));
    r
}

/// G-mode: clears its word.
pub fn g_mode_asm() -> (r: Vec<u8>)
    ensures
        r@ == op_word(LDA_IMM, 0x0000) + op_word(STA_ABS, G_MODE),
{
    let mut r = Vec::new();
    push_bytes(&mut r, &lda_immediate_u16(0x0000));
    push_bytes(&mut r, &sta_absolute(G_MODE));
    r
}

/// Sets the kill counter to its largest value.
pub fn max_kill_count() -> (r: Vec<u8>)
    ensures
        r@ == byte_mode(seq![LDA_IMM, 0xFF] + op_word(STA_ABS, KILL_COUNT)),
{
    let mut r = Vec::new();
    push_bytes(&mut r, &sep(M_FLAG));
    push_bytes(&mut r, &lda_immediate_u8(0xFF));
    push_bytes(&mut r, &sta_absolute(KILL_COUNT));
    push_bytes(&mut r, &rep(M_FLAG));
    assert(r@ =~= byte_mode(seq![LDA_IMM, 0xFF] + op_word(STA_ABS, KILL_COUNT)));
    r
}

/// Increments the hyper-beam switch.
pub fn enable_hyperbeam() -> (r: Vec<u8>)
    ensures
        r@ == op_word(INC_ABS, HYPER_BEAM),
{
    let mut r = Vec::new();
    push_bytes(&mut r, &inc_absolute(HYPER_BEAM));
    r
}

/// Clears the hyper-beam switch.
pub fn disable_hyperbeam() -> (r: Vec<u8>)
    ensures
        r@ == op_word(STZ_ABS, HYPER_BEAM),
{
    let mut r = Vec::new();
    push_bytes(&mut r, &stz_absolute(HYPER_BEAM));
    r
}

/// Adds one to the timer's minutes in decimal mode: load, SED, ADC #1, CLD,
/// store back, all with an 8-bit accumulator.
pub fn add_one_minute_to_timer() -> (r: Vec<u8>)
    ensures
        r@ == byte_mode(
            op_word(LDA_ABS, TIMER_MINUTES) + seq![SED, ADC_IMM, 1, CLD] + op_word(
                STA_ABS,
                TIMER_MINUTES,
            ),
        ),
{
    let mut r = Vec::new();
    push_bytes(&mut r, &sep(M_FLAG));
    push_bytes(&mut r, &lda_addr(TIMER_MINUTES));
    push_bytes(&mut r, &sed());
    push_bytes(&mut r, &adc_immediate_u8(1));
    push_bytes(&mut r, &cld());
    push_bytes(&mut r, &sta_absolute(TIMER_MINUTES));
    push_bytes(&mut r, &rep(M_FLAG));
    assert(r@ =~= byte_mode(
        op_word(LDA_ABS, TIMER_MINUTES) + seq![SED, ADC_IMM, 1, CLD] + op_word(
            STA_ABS,
            TIMER_MINUTES,
        ),
    ));
    r
}

/// Loads 1, adds the horizontal position and stores the sum back.
pub fn move_left_half_tile() -> (r: Vec<u8>)
    ensures
        r@ == seq![LDA_IMM, 1] + op_word(ADC_ABS, X_POSITION) + op_word(STA_ABS, X_POSITION),
{
    let mut r = Vec::new();
    push_bytes(&mut r, &lda_immediate_u8(1));
    push_bytes(&mut r, &adc_absolute(X_POSITION));
    push_bytes(&mut r, &sta_absolute(X_POSITION));
    r
}

/// A complete command that copies the console's frame counter to a save
/// slot and jumps through the normal interrupt vector.
pub open spec fn savestate_command() -> Seq<u8> {
    seq![
        0x08, 0xc2, 0x30, 0x48, 0xaf, 0x18, 0x42, 0x00, 0x8f, 0x06, 0x20, 0xfc, 0x5c, 0x00, 0x00,
        0xfc, 0xc2, 0x30, 0x68, 0x28, 0x6c, 0xea, 0xff, 0x6c, 0xea, 0xff,
    ]
}

/// The fixed save-state command.
pub fn savestate2snes() -> (r: Vec<u8>)
    ensures
        r@ == savestate_command(),
{
    let r = vec![
        0x08, 0xc2, 0x30, 0x48, 0xaf, 0x18, 0x42, 0x00, 0x8f, 0x06, 0x20, 0xfc, 0x5c, 0x00, 0x00,
        0xfc, 0xc2, 0x30, 0x68, 0x28, 0x6c, 0xea, 0xff, 0x6c, 0xea, 0xff,
    ];
    assert(r@ =~= savestate_command());
    r
}

/// PHP; REP #$30; PHA; PHX; PHY; PHB: saves the status, widens the
/// registers to 16 bits, and saves the registers.
pub open spec fn prologue() -> Seq<u8> {
    seq![0x08, 0xc2, 0x30, 0x48, 0xda, 0x5a, 0x8b]
}

/// PLB; STZ $2C00; PLY; PLX; PLA; PLP; JMP ($FFEA): restores the registers,
/// clears the command header and resumes the normal interrupt handler.
pub open spec fn epilogue() -> Seq<u8> {
    seq![0xab, 0x9c, 0x00, 0x2c, 0x7a, 0xfa, 0x68, 0x28, 0x6c, 0xea, 0xff]
}

/// `body` framed by the prologue and the epilogue, ready for the command
/// buffer.
pub fn injection_packet(body: &[u8]) -> (r: Vec<u8>)
    ensures
        r@ == prologue() + body@ + epilogue(),
{
    let mut r = vec![0x08, 0xc2, 0x30, 0x48, 0xda, 0x5a, 0x8b];
    push_bytes(&mut r, body);
    let tail = [0xab, 0x9c, 0x00, 0x2c, 0x7a, 0xfa, 0x68, 0x28, 0x6c, 0xea, 0xff];
    push_bytes(&mut r, &tail);
    assert(r@ =~= prologue() + body@ + epilogue());
    r
}

/// The packet that writes every field of `samus`.
pub fn assemble(samus: &Samus) -> (r: Vec<u8>)
    ensures
        r@ == prologue() + overwrite_program(*samus) + epilogue(),
{
    let body = samus_overwrite_asm(samus);
    injection_packet(body.as_slice())
}

} // verus!
