use vrisc::control::{
    INVERT, UCODE_AI, UCODE_AO, UCODE_BI, UCODE_CE, UCODE_CO, UCODE_EO, UCODE_HLT, UCODE_II,
    UCODE_IO, UCODE_J, UCODE_MI, UCODE_OI, UCODE_RI, UCODE_RO,
};
use vrisc::cpu::Cpu;
use vrisc::output::output_line;
use vrisc::store::{ControlStore, STORE_SIZE};
use vrisc::CpuError;

const FETCH: [u16; 2] = [UCODE_CO | UCODE_MI, UCODE_RO | UCODE_II | UCODE_CE];

const LOAD_IMMEDIATE_THEN_OUTPUT: [u16; 2] = [UCODE_IO | UCODE_AI, UCODE_AO | UCODE_OI];

/// A full-size control store in which every instruction fetches the next one
/// in its first two micro-steps and then does what `programs` says for its
/// opcode, under every combination of flags.
fn store_for(programs: &[(u8, &[u16])]) -> ControlStore {
    let mut words = vec![0u16; STORE_SIZE];
    for flags in 0..4usize {
        for opcode in 0..16usize {
            let base = flags * 256 + opcode * 8;
            words[base] = FETCH[0];
            words[base + 1] = FETCH[1];
        }
        for (opcode, lines) in programs {
            let base = flags * 256 + (*opcode as usize) * 8 + 2;
            for (offset, word) in lines.iter().enumerate() {
                words[base + offset] = *word;
            }
        }
    }
    store_of(&words)
}

/// The control store that holds `words`, split over its two halves in the
/// stored, active-low form.
fn store_of(words: &[u16]) -> ControlStore {
    let low = words.iter().map(|word| ((word ^ INVERT) & 0xFF) as u8).collect();
    let high = words.iter().map(|word| ((word ^ INVERT) >> 8) as u8).collect();
    ControlStore::new(low, high)
}

fn program(bytes: &[u8]) -> Cpu {
    let mut mem = [0u8; 16];
    mem[..bytes.len()].copy_from_slice(bytes);
    Cpu::with_memory(mem)
}

#[test]
fn store_keeps_its_halves() {
    let store = ControlStore::new(vec![1, 2, 3], vec![4, 5, 6, 7]);
    assert_eq!(store.low, vec![1, 2, 3]);
    assert_eq!(store.high, vec![4, 5, 6, 7]);
}

#[test]
fn fetch_reads_low_then_high() {
    let store = ControlStore::new(vec![0x11, 0x22, 0x33], vec![0xAA, 0xBB, 0xCC]);
    assert_eq!(store.fetch(0), Ok((0x11, 0xAA)));
    assert_eq!(store.fetch(1), Ok((0x22, 0xBB)));
    assert_eq!(store.fetch(2), Ok((0x33, 0xCC)));
}

#[test]
fn fetch_past_either_half_is_out_of_range() {
    let store = ControlStore::new(vec![0x11, 0x22, 0x33], vec![0xAA, 0xBB]);
    assert_eq!(store.fetch(1), Ok((0x22, 0xBB)));
    assert_eq!(store.fetch(2), Err(CpuError::IndexOutOfRange));
    assert_eq!(store.fetch(3), Err(CpuError::IndexOutOfRange));
    let store = ControlStore::new(vec![0x11], vec![0xAA, 0xBB, 0xCC]);
    assert_eq!(store.fetch(0), Ok((0x11, 0xAA)));
    assert_eq!(store.fetch(1), Err(CpuError::IndexOutOfRange));
    assert_eq!(store.fetch(usize::MAX), Err(CpuError::IndexOutOfRange));
    let empty = ControlStore::new(vec![], vec![]);
    assert_eq!(empty.fetch(0), Err(CpuError::IndexOutOfRange));
    assert_eq!(empty.control_word(0), Err(CpuError::IndexOutOfRange));
}

#[test]
fn control_word_joins_the_bytes_and_inverts() {
    let store = ControlStore::new(vec![0x00, 0x5F, 0x34, 0xFF], vec![0x00, 0xA7, 0x12, 0xFF]);
    assert_eq!(store.control_word(0), Ok(0xA75F));
    assert_eq!(store.control_word(1), Ok(0x0000));
    assert_eq!(store.control_word(2), Ok(0x1234 ^ 0xA75F));
    assert_eq!(store.control_word(2), Ok(0xB56B));
    assert_eq!(store.control_word(3), Ok(0x58A0));
    assert_eq!(store.control_word(4), Err(CpuError::IndexOutOfRange));
}

#[test]
fn control_word_for_every_byte_pair() {
    let mut low = Vec::new();
    let mut high = Vec::new();
    for h in 0..=255u8 {
        for l in 0..=255u8 {
            low.push(l);
            high.push(h);
        }
    }
    let store = ControlStore::new(low, high);
    for h in 0..256usize {
        for l in 0..256usize {
            let raw = ((h as u16) << 8) | l as u16;
            assert_eq!(store.control_word(h * 256 + l), Ok(raw ^ INVERT));
        }
    }
}

#[test]
fn stored_words_come_back_as_written() {
    let store = store_of(&[UCODE_HLT, UCODE_CO | UCODE_MI, 0, 0xFFFF]);
    assert_eq!(store.control_word(0), Ok(UCODE_HLT));
    assert_eq!(store.control_word(1), Ok(UCODE_CO | UCODE_MI));
    assert_eq!(store.control_word(2), Ok(0));
    assert_eq!(store.control_word(3), Ok(0xFFFF));
}

#[test]
fn complete_store_has_1024_entries_in_both_halves() {
    assert!(ControlStore::new(vec![0; 1024], vec![0; 1024]).is_complete());
    assert!(ControlStore::new(vec![0; 2000], vec![0; 1024]).is_complete());
    assert!(!ControlStore::new(vec![0; 1023], vec![0; 1024]).is_complete());
    assert!(!ControlStore::new(vec![0; 1024], vec![0; 1023]).is_complete());
    assert!(!ControlStore::new(vec![], vec![]).is_complete());
    assert_eq!(STORE_SIZE, 1024);
}

#[test]
fn control_index_exact_values() {
    let mut cpu = Cpu::new();
    assert_eq!(cpu.control_index(0), 0);
    assert_eq!(cpu.control_index(7), 7);
    cpu.reg_i = 0x10;
    assert_eq!(cpu.control_index(0), 8);
    cpu.reg_i = 0x1F;
    assert_eq!(cpu.control_index(0), 8);
    assert_eq!(cpu.control_index(3), 11);
    cpu.reg_i = 0xF0;
    assert_eq!(cpu.control_index(7), 127);
    cpu.flag_c = true;
    assert_eq!(cpu.control_index(7), 383);
    cpu.flag_c = false;
    cpu.flag_z = true;
    assert_eq!(cpu.control_index(7), 639);
    cpu.flag_c = true;
    assert_eq!(cpu.control_index(7), 895);
    cpu.reg_i = 0x0F;
    assert_eq!(cpu.control_index(0), 768);
}

#[test]
fn control_index_packs_flags_opcode_and_step() {
    for flags in 0..4usize {
        for instruction in 0..=255u8 {
            for step in 0..8usize {
                let mut cpu = Cpu::new();
                cpu.flag_z = flags & 2 != 0;
                cpu.flag_c = flags & 1 != 0;
                cpu.reg_i = instruction;
                let index = cpu.control_index(step);
                let z = cpu.flag_z as usize;
                let c = cpu.flag_c as usize;
                assert_eq!(
                    index,
                    z << 9 | c << 8 | (instruction as usize & 0xF0) >> 1 | step
                );
                assert_eq!(index, z * 512 + c * 256 + (instruction as usize / 16) * 8 + step);
                assert_eq!(index & 0x80, 0);
                assert!(index < STORE_SIZE);
            }
        }
    }
}

#[test]
fn control_index_ignores_the_other_registers() {
    let mut cpu = Cpu::new();
    cpu.reg_i = 0x50;
    cpu.reg_a = 0xFF;
    cpu.reg_b = 0xFF;
    cpu.reg_m = 0x0F;
    cpu.reg_c = 0x0F;
    cpu.mem = [0xFF; 16];
    assert_eq!(cpu.control_index(4), 44);
}

#[test]
fn load_immediate_then_output_end_to_end() {
    let store = store_for(&[(0, &LOAD_IMMEDIATE_THEN_OUTPUT)]);
    assert!(store.is_complete());
    let mut cpu = program(&[0x07]);
    let mut out = Vec::new();
    assert_eq!(cpu.step(&store, &mut out), Ok(()));
    assert_eq!(out, vec![7]);
    let lines: Vec<String> = out.iter().map(|value| output_line(*value)).collect();
    assert_eq!(lines, vec!["out 7\n"]);
    assert_eq!(cpu.reg_a, 7);
    assert_eq!(cpu.reg_i, 0x07);
    assert_eq!(cpu.reg_m, 0);
    assert_eq!(cpu.reg_c, 1);
    assert_eq!(cpu.reg_b, 0);
    assert!(!cpu.flag_c);
    assert!(!cpu.flag_z);
    assert_eq!(cpu.mem, program(&[0x07]).mem);
}

#[test]
fn second_cycle_fetches_the_next_instruction() {
    let store = store_for(&[(0, &LOAD_IMMEDIATE_THEN_OUTPUT)]);
    let mut cpu = program(&[0x07, 0x0C]);
    let mut out = Vec::new();
    assert_eq!(cpu.step(&store, &mut out), Ok(()));
    assert_eq!(cpu.step(&store, &mut out), Ok(()));
    assert_eq!(out, vec![7, 12]);
    assert_eq!(cpu.reg_a, 12);
    assert_eq!(cpu.reg_i, 0x0C);
    assert_eq!(cpu.reg_m, 1);
    assert_eq!(cpu.reg_c, 2);
}

#[test]
fn step_appends_to_what_the_sink_holds() {
    let store = store_for(&[(0, &LOAD_IMMEDIATE_THEN_OUTPUT)]);
    let mut cpu = program(&[0x09]);
    let mut out = vec![200, 100];
    assert_eq!(cpu.step(&store, &mut out), Ok(()));
    assert_eq!(out, vec![200, 100, 9]);
}

#[test]
fn idle_store_leaves_the_machine_alone() {
    let store = store_of(&[0u16; 1024]);
    let mut cpu = program(&[0xAB, 0xCD]);
    cpu.reg_a = 1;
    cpu.reg_c = 5;
    let begin = cpu;
    let mut out = Vec::new();
    assert_eq!(cpu.step(&store, &mut out), Ok(()));
    assert_eq!(cpu, begin);
    assert!(out.is_empty());
}

#[test]
fn opcode_read_in_mid_cycle_selects_the_rest_of_the_cycle() {
    let store = store_for(&[
        (0, &[UCODE_HLT]),
        (1, &[UCODE_IO | UCODE_BI, UCODE_EO | UCODE_AI, UCODE_AO | UCODE_OI]),
    ]);
    let mut cpu = program(&[0x15]);
    cpu.reg_a = 0xFE;
    let mut out = Vec::new();
    assert_eq!(cpu.step(&store, &mut out), Ok(()));
    assert_eq!(cpu.reg_i, 0x15);
    assert_eq!(cpu.reg_b, 5);
    assert_eq!(cpu.reg_a, 3);
    assert_eq!(out, vec![3]);
}

#[test]
fn flags_select_their_own_quarter_of_the_store() {
    let mut words = vec![0u16; STORE_SIZE];
    words[0] = UCODE_AO | UCODE_OI;
    words[256] = UCODE_CO | UCODE_OI;
    words[512] = UCODE_IO | UCODE_OI;
    words[768] = UCODE_RO | UCODE_OI;
    let store = store_of(&words);
    let mut begin = program(&[0x44]);
    begin.reg_a = 0x11;
    begin.reg_c = 0x02;
    begin.reg_i = 0x03;
    for (zero, carry, wanted) in [
        (false, false, 0x11),
        (false, true, 0x02),
        (true, false, 0x03),
        (true, true, 0x44),
    ] {
        let mut cpu = begin;
        cpu.flag_z = zero;
        cpu.flag_c = carry;
        let mut out = Vec::new();
        assert_eq!(cpu.step(&store, &mut out), Ok(()));
        assert_eq!(out, vec![wanted]);
        assert_eq!(cpu.flag_z, zero);
        assert_eq!(cpu.flag_c, carry);
    }
}

#[test]
fn empty_store_is_out_of_range_at_once() {
    let store = ControlStore::new(vec![], vec![]);
    let mut cpu = program(&[0x07]);
    let mut out = vec![1];
    assert_eq!(cpu.step(&store, &mut out), Err(CpuError::IndexOutOfRange));
    assert_eq!(cpu, program(&[0x07]));
    assert_eq!(out, vec![1]);
}

#[test]
fn truncated_store_stops_where_it_ends() {
    let store = store_of(&[FETCH[0], FETCH[1], UCODE_IO | UCODE_AI]);
    let mut cpu = program(&[0x07]);
    let mut out = Vec::new();
    assert_eq!(cpu.step(&store, &mut out), Err(CpuError::IndexOutOfRange));
    assert_eq!(cpu.reg_i, 0x07);
    assert_eq!(cpu.reg_c, 1);
    assert_eq!(cpu.reg_a, 7);
    assert!(out.is_empty());
}

#[test]
fn store_short_in_one_half_is_out_of_range() {
    let full = store_for(&[(0, &LOAD_IMMEDIATE_THEN_OUTPUT)]);
    let short_high = ControlStore::new(full.low.clone(), full.high[..3].to_vec());
    let mut cpu = program(&[0x07]);
    let mut out = Vec::new();
    assert_eq!(cpu.step(&short_high, &mut out), Err(CpuError::IndexOutOfRange));
    assert_eq!(cpu.reg_a, 7);
    assert!(out.is_empty());
    let short_low = ControlStore::new(full.low[..2].to_vec(), full.high.clone());
    let mut cpu = program(&[0x07]);
    assert_eq!(cpu.step(&short_low, &mut out), Err(CpuError::IndexOutOfRange));
    assert_eq!(cpu.reg_a, 0);
    assert_eq!(cpu.reg_i, 0x07);
}

#[test]
fn halt_in_mid_cycle_keeps_what_came_before() {
    let store = store_for(&[(0, &[UCODE_IO | UCODE_AI, UCODE_AO | UCODE_OI, UCODE_HLT, UCODE_CE])]);
    let mut cpu = program(&[0x0B]);
    let mut out = Vec::new();
    assert_eq!(cpu.step(&store, &mut out), Err(CpuError::HaltAndCatchFire));
    assert_eq!(out, vec![11]);
    assert_eq!(cpu.reg_a, 11);
    assert_eq!(cpu.reg_c, 1);
}

#[test]
fn contention_in_mid_cycle_stops_the_cycle() {
    let store = store_for(&[(0, &[UCODE_IO | UCODE_AI, UCODE_AO | UCODE_CO | UCODE_BI, UCODE_CE])]);
    let mut cpu = program(&[0x0B]);
    let mut out = Vec::new();
    assert_eq!(cpu.step(&store, &mut out), Err(CpuError::BusContention));
    assert_eq!(cpu.reg_a, 11);
    assert_eq!(cpu.reg_b, 0);
    assert_eq!(cpu.reg_c, 1);
    assert!(out.is_empty());
}

#[test]
fn floating_bus_in_mid_cycle_stops_the_cycle() {
    let store = store_for(&[(0, &[UCODE_IO | UCODE_AI, UCODE_OI, UCODE_CE])]);
    let mut cpu = program(&[0x0B]);
    let mut out = Vec::new();
    assert_eq!(cpu.step(&store, &mut out), Err(CpuError::FloatingBus));
    assert_eq!(cpu.reg_a, 11);
    assert_eq!(cpu.reg_c, 1);
    assert!(out.is_empty());
}

#[test]
fn a_cycle_can_output_more_than_once() {
    let store = store_for(&[(
        0,
        &[
            UCODE_IO | UCODE_OI,
            UCODE_CO | UCODE_OI,
            UCODE_RO | UCODE_OI,
            UCODE_IO | UCODE_BI,
            UCODE_EO | UCODE_OI,
            UCODE_AO | UCODE_OI,
        ],
    )]);
    let mut cpu = program(&[0x06]);
    cpu.reg_a = 250;
    let mut out = Vec::new();
    assert_eq!(cpu.step(&store, &mut out), Ok(()));
    assert_eq!(out, vec![6, 1, 6, 0, 250]);
}

#[test]
fn store_and_jump_through_a_cycle() {
    let store = store_for(&[
        (2, &[UCODE_IO | UCODE_MI, UCODE_AO | UCODE_RI]),
        (3, &[UCODE_IO | UCODE_J]),
    ]);
    let mut cpu = program(&[0x2E, 0x39]);
    cpu.reg_a = 0x77;
    let mut out = Vec::new();
    assert_eq!(cpu.step(&store, &mut out), Ok(()));
    assert_eq!(cpu.reg_m, 0x0E);
    assert_eq!(cpu.mem[0x0E], 0x77);
    assert_eq!(cpu.reg_c, 1);
    assert_eq!(cpu.step(&store, &mut out), Ok(()));
    assert_eq!(cpu.reg_c, 9);
    assert!(out.is_empty());
}

#[test]
fn wide_jump_target_wraps_into_memory() {
    let store = store_for(&[
        (0, &LOAD_IMMEDIATE_THEN_OUTPUT),
        (5, &[UCODE_RO | UCODE_J]),
        (6, &[UCODE_CO | UCODE_OI]),
    ]);
    let mut cpu = program(&[0x53, 0x00, 0x00, 0x60]);
    let mut out = Vec::new();
    assert_eq!(cpu.step(&store, &mut out), Ok(()));
    assert_eq!(cpu.reg_c, 3);
    assert!(cpu.is_well_formed());
    assert_eq!(cpu.step(&store, &mut out), Ok(()));
    assert_eq!(out, vec![4]);
    assert_eq!(cpu.reg_c, 4);
    assert!(cpu.is_well_formed());
}

#[test]
fn run_stops_at_halt() {
    let store = store_for(&[(0, &LOAD_IMMEDIATE_THEN_OUTPUT), (15, &[UCODE_HLT])]);
    let mut cpu = program(&[0x03, 0x05, 0xF0, 0x09]);
    let mut out = Vec::new();
    assert_eq!(cpu.run(&store, 64, &mut out), Err(CpuError::HaltAndCatchFire));
    assert_eq!(out, vec![3, 5]);
    assert_eq!(cpu.reg_a, 5);
    assert_eq!(cpu.reg_i, 0xF0);
    assert_eq!(cpu.reg_c, 3);
    assert_eq!(cpu.reg_m, 2);
}

#[test]
fn run_of_no_cycles_does_nothing() {
    let store = ControlStore::new(vec![], vec![]);
    let mut cpu = program(&[0x03]);
    let mut out = vec![4];
    assert_eq!(cpu.run(&store, 0, &mut out), Ok(()));
    assert_eq!(cpu, program(&[0x03]));
    assert_eq!(out, vec![4]);
}

#[test]
fn run_is_step_after_step() {
    let store = store_for(&[(0, &LOAD_IMMEDIATE_THEN_OUTPUT), (15, &[UCODE_HLT])]);
    let image = [0x03, 0x05, 0x0A, 0x0F, 0xF0, 0x01];
    for count in 0..8usize {
        let mut whole = program(&image);
        let mut whole_out = Vec::new();
        let whole_result = whole.run(&store, count, &mut whole_out);
        let mut single = program(&image);
        let mut single_out = Vec::new();
        let mut single_result = Ok(());
        for _ in 0..count {
            single_result = single.step(&store, &mut single_out);
            if single_result.is_err() {
                break;
            }
        }
        assert_eq!(whole_result, single_result);
        assert_eq!(whole, single);
        assert_eq!(whole_out, single_out);
        assert_eq!(whole_result.is_err(), count >= 5);
    }
}

#[test]
fn program_counter_wraps_through_memory() {
    let store = store_for(&[(0, &LOAD_IMMEDIATE_THEN_OUTPUT)]);
    let mut cpu = program(&[0, 1, 2, 3, 4, 5, 6, 7, 8, 9, 10, 11, 12, 13, 14, 15]);
    let mut out = Vec::new();
    assert_eq!(cpu.run(&store, 18, &mut out), Ok(()));
    assert_eq!(
        out,
        vec![0, 1, 2, 3, 4, 5, 6, 7, 8, 9, 10, 11, 12, 13, 14, 15, 0, 1]
    );
    assert_eq!(cpu.reg_c, 2);
    assert_eq!(cpu.reg_m, 1);
}

#[test]
fn same_start_gives_the_same_run() {
    let store = store_for(&[
        (0, &LOAD_IMMEDIATE_THEN_OUTPUT),
        (1, &[UCODE_IO | UCODE_BI, UCODE_EO | UCODE_AI | UCODE_OI]),
        (3, &[UCODE_IO | UCODE_J]),
    ]);
    let image = [0x01, 0x13, 0x17, 0x31, 0xF0];
    let mut first = program(&image);
    let mut first_out = Vec::new();
    let mut first_states = Vec::new();
    let mut second = program(&image);
    let mut second_out = Vec::new();
    let mut second_states = Vec::new();
    for _ in 0..40 {
        let result = first.step(&store, &mut first_out);
        first_states.push((first, result));
    }
    for _ in 0..40 {
        let result = second.step(&store, &mut second_out);
        second_states.push((second, result));
    }
    assert_eq!(first_states, second_states);
    assert_eq!(first_out, second_out);
    assert_eq!(first_out.len(), 27);
    assert_eq!(&first_out[..4], &[1, 4, 11, 14]);
}
