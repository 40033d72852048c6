use goofgenie::emitter::{
    adc_absolute, adc_direct, adc_immediate_u16, adc_immediate_u8, cld, inc, inc_absolute,
    lda_addr, lda_immediate_u16, lda_immediate_u8, rep, sed, sep, sta_absolute, sta_long,
    stz_absolute, u16_to_le,
};
use goofgenie::patches::{
    add_one_minute_to_timer, blue_suit_asm, disable_hyperbeam, enable_hyperbeam, g_mode_asm,
    max_kill_count, move_left_half_tile, savestate2snes, spike_suit_asm,
};

#[test]
fn little_endian_words() {
    assert_eq!(u16_to_le(0x0000), [0x00, 0x00]);
    assert_eq!(u16_to_le(0x1234), [0x34, 0x12]);
    assert_eq!(u16_to_le(0xFFFF), [0xFF, 0xFF]);
    assert_eq!(u16_to_le(3000), [0xB8, 0x0B]);
}

#[test]
fn instruction_encodings() {
    assert_eq!(lda_immediate_u16(0x0BB8), [0xA9, 0xB8, 0x0B]);
    assert_eq!(lda_immediate_u8(0x42), [0xA9, 0x42]);
    assert_eq!(lda_addr(0x0947), [0xAD, 0x47, 0x09]);
    assert_eq!(inc(), [0x1A]);
    assert_eq!(inc_absolute(0x0A76), [0xEE, 0x76, 0x0A]);
    assert_eq!(sed(), [0xF8]);
    assert_eq!(cld(), [0xD8]);
    assert_eq!(adc_direct(0x10), [0x65, 0x10]);
    assert_eq!(adc_immediate_u16(0x0102), [0x69, 0x02, 0x01]);
    assert_eq!(adc_immediate_u8(1), [0x69, 0x01]);
    assert_eq!(adc_absolute(0x0AF6), [0x6D, 0xF6, 0x0A]);
    assert_eq!(sta_absolute(0x09C2), [0x8D, 0xC2, 0x09]);
    assert_eq!(sta_long(0x7E_D828), [0x8F, 0x28, 0xD8, 0x7E]);
    assert_eq!(sta_long(0xAB7E_D82A), [0x8F, 0x2A, 0xD8, 0x7E]);
    assert_eq!(stz_absolute(0x2C00), [0x9C, 0x00, 0x2C]);
    assert_eq!(sep(0x20), [0xE2, 0x20]);
    assert_eq!(rep(0x30), [0xC2, 0x30]);
}

#[test]
fn timer_increment_sequence() {
    assert_eq!(
        add_one_minute_to_timer(),
        vec![0xE2, 0x20, 0xAD, 0x47, 0x09, 0xF8, 0x69, 0x01, 0xD8, 0x8D, 0x47, 0x09, 0xC2, 0x20]
    );
}

#[test]
fn fixed_patches() {
    assert_eq!(blue_suit_asm(), vec![0xE2, 0x20, 0xA9, 0x04, 0x8D, 0x3F, 0x0B, 0xC2, 0x20]);
    assert_eq!(spike_suit_asm(), vec![0xE2, 0x20, 0xA9, 0x01, 0x8D, 0x68, 0x0A, 0xC2, 0x20]);
    assert_eq!(g_mode_asm(), vec![0xA9, 0x00, 0x00, 0x8D, 0x23, 0x1C]);
    assert_eq!(max_kill_count(), vec![0xE2, 0x20, 0xA9, 0xFF, 0x8D, 0x50, 0x0E, 0xC2, 0x20]);
    assert_eq!(enable_hyperbeam(), vec![0xEE, 0x76, 0x0A]);
    assert_eq!(disable_hyperbeam(), vec![0x9C, 0x76, 0x0A]);
    assert_eq!(move_left_half_tile(), vec![0xA9, 0x01, 0x6D, 0xF6, 0x0A, 0x8D, 0xF6, 0x0A]);
    let save = savestate2snes();
    assert_eq!(save.len(), 26);
    assert_eq!(&save[..4], &[0x08, 0xC2, 0x30, 0x48]);
    assert_eq!(&save[20..], &[0x6C, 0xEA, 0xFF, 0x6C, 0xEA, 0xFF]);
}
