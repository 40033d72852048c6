use goofgenie::assembler::{area_bosses_to_bytes, samus_overwrite_asm, word_store_order};
use goofgenie::codec::{u8_to_bosses, Area, Boss, Item};
use goofgenie::patches::{add_one_minute_to_timer, assemble, injection_packet};
use goofgenie::protocol::{Action, Event, InjectError, Injection, Phase};
use goofgenie::registry::{offset_of, SamusField};
use goofgenie::state::{get_samus, get_u16, Samus};

const CMD_BASE: usize = 0x2C00;
const CMD_SIZE: usize = 512;

/// A console that runs the command buffer once it has been polled a set
/// number of times while armed.
struct Console {
    wram: Vec<u8>,
    cmd: Vec<u8>,
    polls_before_run: usize,
    armed_polls: usize,
    corrupt_restore: bool,
}

impl Console {
    fn new(polls_before_run: usize) -> Console {
        let mut cmd = vec![0u8; CMD_SIZE];
        for (i, b) in cmd.iter_mut().enumerate().skip(1) {
            *b = (i * 7 % 251) as u8;
        }
        Console { wram: vec![0u8; 0x20000], cmd, polls_before_run, armed_polls: 0, corrupt_restore: false }
    }

    fn write_cmd(&mut self, bytes: &[u8]) {
        self.cmd[..bytes.len()].copy_from_slice(bytes);
        if self.corrupt_restore && bytes[0] == 0 {
            self.cmd[1] ^= 0xFF;
        }
    }

    fn read_header(&mut self) -> u8 {
        if self.cmd[0] != 0 {
            if self.armed_polls == self.polls_before_run {
                self.execute();
            } else {
                self.armed_polls += 1;
            }
        }
        self.cmd[0]
    }

    fn store(&mut self, addr: usize, value: u16, wide: bool) {
        let bytes = if wide { vec![value as u8, (value >> 8) as u8] } else { vec![value as u8] };
        for (k, b) in bytes.into_iter().enumerate() {
            let a = addr + k;
            if (CMD_BASE..CMD_BASE + CMD_SIZE).contains(&a) {
                self.cmd[a - CMD_BASE] = b;
            } else {
                self.wram[a] = b;
            }
        }
    }

    fn execute(&mut self) {
        let code = self.cmd.clone();
        let mut pc = 0usize;
        let mut wide = false;
        let mut decimal = false;
        let mut a: u16 = 0;
        loop {
            let op = code[pc];
            match op {
                0x08 | 0x48 | 0xDA | 0x5A | 0x8B | 0xAB | 0x7A | 0xFA | 0x68 | 0x28 => pc += 1,
                0xC2 => {
                    if code[pc + 1] & 0x20 != 0 {
                        wide = true;
                    }
                    pc += 2;
                }
                0xE2 => {
                    if code[pc + 1] & 0x20 != 0 {
                        wide = false;
                    }
                    pc += 2;
                }
                0xA9 => {
                    if wide {
                        a = code[pc + 1] as u16 | (code[pc + 2] as u16) << 8;
                        pc += 3;
                    } else {
                        a = (a & 0xFF00) | code[pc + 1] as u16;
                        pc += 2;
                    }
                }
                0xAD => {
                    let addr = code[pc + 1] as usize | (code[pc + 2] as usize) << 8;
                    let lo = self.wram[addr] as u16;
                    a = if wide { lo | (self.wram[addr + 1] as u16) << 8 } else { (a & 0xFF00) | lo };
                    pc += 3;
                }
                0xF8 => {
                    decimal = true;
                    pc += 1;
                }
                0xD8 => {
                    decimal = false;
                    pc += 1;
                }
                0x69 => {
                    assert!(!wide, "only 8-bit addition is simulated");
                    let v = code[pc + 1] as u16;
                    let x = a & 0xFF;
                    let sum = if decimal {
                        let mut lo = (x & 0x0F) + (v & 0x0F);
                        let mut hi = (x >> 4) + (v >> 4);
                        if lo > 9 {
                            lo -= 10;
                            hi += 1;
                        }
                        ((hi % 10) << 4) | lo
                    } else {
                        (x + v) & 0xFF
                    };
                    a = (a & 0xFF00) | sum;
                    pc += 2;
                }
                0x8D => {
                    let addr = code[pc + 1] as usize | (code[pc + 2] as usize) << 8;
                    self.store(addr, a, wide);
                    pc += 3;
                }
                0x8F => {
                    let addr = code[pc + 1] as usize | (code[pc + 2] as usize) << 8;
                    let bank = code[pc + 3] as usize;
                    assert!(bank == 0x7E || bank == 0x7F);
                    self.store((bank - 0x7E) * 0x10000 + addr, a, wide);
                    pc += 4;
                }
                0x9C => {
                    let addr = code[pc + 1] as usize | (code[pc + 2] as usize) << 8;
                    self.store(addr, 0, wide);
                    pc += 3;
                }
                0x6C => return,
                other => panic!("opcode {:02x} not simulated", other),
            }
        }
    }
}

/// Runs a handshake against the console; returns how it ended and how many
/// header reads saw a non-zero header.
fn inject(console: &mut Console, packet: Vec<u8>) -> (Result<(), InjectError>, usize, Injection) {
    let (mut inj, mut action) = Injection::begin(packet);
    let mut busy_reads = 0usize;
    loop {
        let event = match action {
            Action::ReadCommand => Event::CommandRead(console.cmd.clone()),
            Action::WriteCommand(bytes) => {
                console.write_cmd(&bytes);
                Event::Written
            }
            Action::ReadHeader => {
                let h = console.read_header();
                if h != 0 {
                    busy_reads += 1;
                }
                Event::HeaderRead(h)
            }
            Action::Done => return (Ok(()), busy_reads, inj),
            Action::Fail(e) => return (Err(e), busy_reads, inj),
        };
        action = inj.step(event);
    }
}

fn zero_state() -> Samus {
    get_samus(&[0u16; 18], &[0u8; 8])
}

#[test]
fn end_to_end_hp_and_missiles() {
    let mut console = Console::new(3);
    let original = console.cmd.clone();
    let mut samus = zero_state();
    samus.hp = 3000;
    samus.missiles = 255;
    let (result, _, inj) = inject(&mut console, assemble(&samus));
    assert_eq!(result, Ok(()));
    assert_eq!(inj.phase(), Phase::Finished);
    let hp = offset_of(SamusField::HP) as usize;
    let missiles = offset_of(SamusField::Missiles) as usize;
    assert_eq!(&console.wram[hp..hp + 2], &[0xB8, 0x0B]);
    assert_eq!(&console.wram[missiles..missiles + 2], &[0xFF, 0x00]);
    assert_eq!(get_u16(&console.wram[hp..hp + 2]), 3000);
    assert_eq!(console.cmd, original);
    assert_eq!(inj.original(), &original);
}

#[test]
fn end_to_end_sets_and_boss_flags() {
    let mut console = Console::new(0);
    let mut samus = zero_state();
    samus.collected_items.set(Item::MorphBall);
    samus.collected_items.set(Item::Bombs);
    samus.bosses.insert(Area::Norfair, u8_to_bosses(0x07));
    let (result, _, _) = inject(&mut console, assemble(&samus));
    assert_eq!(result, Ok(()));
    let items = offset_of(SamusField::CollectedItems) as usize;
    assert_eq!(&console.wram[items..items + 2], &[0x04, 0x10]);
    let bosses = offset_of(SamusField::Bosses) as usize;
    assert_eq!(console.wram[bosses + 2], 0x07);
    assert_eq!(console.wram[bosses + 1], 0x00);
    assert_eq!(console.wram[bosses + 3], 0x00);
}

#[test]
fn handshake_waits_exactly_n_polls() {
    for n in [0usize, 1, 5, 40] {
        let mut console = Console::new(n);
        let original = console.cmd.clone();
        let packet = injection_packet(&[]);
        let (result, busy, _) = inject(&mut console, packet);
        assert_eq!(result, Ok(()));
        assert_eq!(busy, n);
        assert_eq!(console.cmd, original);
    }
}

#[test]
fn handshake_action_sequence() {
    let packet = vec![0x08, 0x01, 0x02];
    let original = vec![0x00, 0x55, 0x66];
    let (mut inj, first) = Injection::begin(packet.clone());
    assert!(matches!(first, Action::ReadCommand));
    assert_eq!(inj.phase(), Phase::Capture);
    match inj.step(Event::CommandRead(original.clone())) {
        Action::WriteCommand(b) => assert_eq!(b, packet),
        other => panic!("unexpected {:?}", other),
    }
    assert!(matches!(inj.step(Event::Written), Action::ReadHeader));
    assert!(matches!(inj.step(Event::HeaderRead(0x08)), Action::ReadHeader));
    assert!(matches!(inj.step(Event::HeaderRead(0x08)), Action::ReadHeader));
    match inj.step(Event::HeaderRead(0)) {
        Action::WriteCommand(b) => assert_eq!(b, original),
        other => panic!("unexpected {:?}", other),
    }
    assert!(matches!(inj.step(Event::Written), Action::ReadCommand));
    assert!(matches!(inj.step(Event::CommandRead(original.clone())), Action::Done));
    assert_eq!(inj.phase(), Phase::Finished);
}

#[test]
fn handshake_reports_integrity_mismatch() {
    let mut console = Console::new(2);
    console.corrupt_restore = true;
    let (result, _, inj) = inject(&mut console, injection_packet(&[]));
    assert_eq!(result, Err(InjectError::IntegrityMismatch));
    assert_eq!(inj.phase(), Phase::Failed);
}

#[test]
fn handshake_rejects_unexpected_event() {
    let (mut inj, _) = Injection::begin(vec![0x08]);
    assert!(matches!(inj.step(Event::Written), Action::Fail(InjectError::UnexpectedEvent)));
    assert_eq!(inj.phase(), Phase::Failed);
    let (mut inj, _) = Injection::begin(vec![0x08]);
    inj.step(Event::CommandRead(vec![0]));
    assert!(matches!(inj.step(Event::HeaderRead(0)), Action::Fail(InjectError::UnexpectedEvent)));
}

#[test]
fn packet_frame() {
    let p = injection_packet(&[0xEA]);
    assert_eq!(
        p,
        vec![
            0x08, 0xC2, 0x30, 0x48, 0xDA, 0x5A, 0x8B, 0xEA, 0xAB, 0x9C, 0x00, 0x2C, 0x7A, 0xFA, 0x68,
            0x28, 0x6C, 0xEA, 0xFF
        ]
    );
}

#[test]
fn overwrite_layout_one_pair_per_field() {
    let mut samus = get_samus(
        &[1, 2, 3, 4, 5, 6, 7, 8, 0xFFFF, 0x0004, 0x100F, 0x0001, 13, 14, 15, 16, 17, 18],
        &[0, 1, 2, 3, 4, 5, 6, 7],
    );
    samus.bosses.insert(Area::Crateria, u8_to_bosses(0));
    let code = samus_overwrite_asm(&samus);
    let order = word_store_order();
    assert_eq!(order.len(), 18);
    assert_eq!(code.len(), 18 * 6 + 2 + 8 * 6 + 2);
    for (k, f) in order.iter().enumerate() {
        let v = samus.value_of(*f);
        let a = offset_of(*f);
        assert_eq!(
            &code[6 * k..6 * k + 6],
            &[0xA9, v as u8, (v >> 8) as u8, 0x8D, a as u8, (a >> 8) as u8]
        );
    }
    assert_eq!(order[0], SamusField::HP);
    assert_eq!(samus.value_of(SamusField::EquippedItems), 0xF32F);
    assert_eq!(&code[108..110], &[0xE2, 0x20]);
    for c in 0..8usize {
        let at = 110 + 6 * c;
        let addr = 0xD828 + c;
        assert_eq!(
            &code[at..at + 6],
            &[0xA9, if c == 0 { 0 } else { (c & 7) as u8 }, 0x8F, addr as u8, (addr >> 8) as u8, 0x7E]
        );
    }
    assert_eq!(&code[code.len() - 2..], &[0xC2, 0x20]);
}

#[test]
fn boss_writes_sorted_by_area_code() {
    let mut samus = zero_state();
    samus.bosses = goofgenie::codec::AreaBosses::new();
    samus.bosses.insert(Area::Maridia, u8_to_bosses(0x01));
    samus.bosses.insert(Area::Brinstar, u8_to_bosses(0x03));
    let w = area_bosses_to_bytes(&samus.bosses);
    assert_eq!(w, vec![(0xD829, 0x03), (0xD82C, 0x01)]);
    let code = samus_overwrite_asm(&samus);
    assert_eq!(code.len(), 18 * 6 + 2 + 2 * 6 + 2);
    assert!(samus.bosses.get(Area::Maridia).unwrap().contains(Boss::MainBoss));
}

#[test]
fn state_from_raw_words() {
    let s = get_samus(
        &[99, 100, 5, 10, 0, 5, 1, 2, 0x0004, 0x1004, 0x0001, 0x1001, 0, 100, 0x40, 0x8000, 0x90, 0],
        &[0xFF, 0x07, 0x00, 0x01, 0x02, 0x04, 0x00, 0x00],
    );
    assert_eq!(s.hp, 99);
    assert_eq!(s.max_hp, 100);
    assert_eq!(s.max_reserve_hp, 100);
    assert_eq!(s.x_position, 0x40);
    assert_eq!(s.x_subposition, 0x8000);
    assert_eq!(s.y_position, 0x90);
    assert!(s.equipped_items.contains(Item::MorphBall));
    assert!(!s.equipped_items.contains(Item::Bombs));
    assert!(s.collected_items.contains(Item::Bombs));
    assert_eq!(s.bosses.get(Area::Crateria).unwrap().to_bits(), 0x07);
    assert_eq!(s.bosses.get(Area::Tourian).unwrap().to_bits(), 0x04);
    assert_eq!(get_u16(&[0x34, 0x12]), 0x1234);
}

#[test]
fn timer_minute_added_in_decimal() {
    let mut console = Console::new(1);
    console.wram[0x0947] = 0x12;
    console.wram[0x0948] = 0x09;
    let original = console.cmd.clone();
    let (result, _, _) = inject(&mut console, injection_packet(&add_one_minute_to_timer()));
    assert_eq!(result, Ok(()));
    assert_eq!(console.wram[0x0947], 0x13);
    assert_eq!(console.wram[0x0948], 0x09);
    assert_eq!(console.cmd, original);
}
