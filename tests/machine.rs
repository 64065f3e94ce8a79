use bytecode_cpu::parse_hex_byte;
use bytecode_cpu::{Memory, MemoryError, Opcode, CPU, MEM_SIZE};

fn memory_with(program: &[u8]) -> Memory {
    let mut bytes = program.to_vec();
    bytes.resize(MEM_SIZE, 0);
    let mut memory = Memory::new();
    assert_eq!(memory.load(&bytes), Ok(()));
    memory
}

fn run(program: &[u8]) -> CPU {
    let memory = memory_with(program);
    let mut cpu = CPU::new();
    cpu.run(&memory);
    cpu
}

#[test]
fn mov_sets_accumulator_to_operand() {
    let cpu = run(&[0x01, 0x2A, 0x87]);
    assert_eq!(cpu.accumulator, 42);
    assert_eq!(cpu.cycle_count, 1);
    assert!(!cpu.running);
    assert_eq!(cpu.instruction_register, 0x87);
    assert_eq!(cpu.operand_register, 0x2A);
}

#[test]
fn mov_overwrites_previous_value() {
    let cpu = run(&[0x01, 0x10, 0x01, 0x07, 0x87]);
    assert_eq!(cpu.accumulator, 7);
    assert_eq!(cpu.cycle_count, 2);
}

#[test]
fn add_wraps_to_zero() {
    let memory = memory_with(&[0x02, 0xFF, 0x02, 0x01, 0x87]);
    let mut cpu = CPU::new();
    assert_eq!(cpu.step(&memory, 0), Some(2));
    assert_eq!(cpu.accumulator, 255);
    assert_eq!(cpu.step(&memory, 2), Some(4));
    assert_eq!(cpu.accumulator, 0);
    assert_eq!(cpu.step(&memory, 4), None);
    assert_eq!(cpu.cycle_count, 2);
    assert!(!cpu.running);
}

#[test]
fn add_program_runs_to_zero() {
    let cpu = run(&[0x02, 0xFF, 0x02, 0x01, 0x87]);
    assert_eq!(cpu.accumulator, 0);
    assert_eq!(cpu.cycle_count, 2);
}

#[test]
fn sub_wraps_on_underflow() {
    let cpu = run(&[0x03, 0x01, 0x87]);
    assert_eq!(cpu.accumulator, 255);
    assert_eq!(cpu.cycle_count, 1);
}

#[test]
fn all_nop_memory_runs_half_its_length() {
    let cpu = run(&[]);
    assert_eq!(cpu.cycle_count, (MEM_SIZE / 2) as u64);
    assert_eq!(cpu.cycle_count, 16);
    assert_eq!(cpu.accumulator, 0);
    assert!(!cpu.running);
}

#[test]
fn unknown_opcode_advances_by_one() {
    let memory = memory_with(&[0x99, 0x01, 0x05]);
    let mut cpu = CPU::new();
    cpu.accumulator = 9;
    assert_eq!(cpu.step(&memory, 0), Some(1));
    assert_eq!(cpu.cycle_count, 1);
    assert_eq!(cpu.accumulator, 9);
    assert!(cpu.running);
    assert_eq!(cpu.instruction_register, 0x99);
    assert_eq!(cpu.operand_register, 0x01);
    assert_eq!(cpu.step(&memory, 1), Some(3));
    assert_eq!(cpu.accumulator, 5);
}

#[test]
fn unknown_opcode_in_a_full_run() {
    let cpu = run(&[0x99, 0x01, 0x05, 0x87]);
    assert_eq!(cpu.accumulator, 5);
    assert_eq!(cpu.cycle_count, 2);
}

#[test]
fn load_rejects_short_and_long_buffers() {
    let mut memory = memory_with(&[0x01, 0x2A, 0x87]);
    assert_eq!(memory.load(&[0xAA; 31]), Err(MemoryError::MalformedLoad));
    assert_eq!(memory.load(&[0xAA; 33]), Err(MemoryError::MalformedLoad));
    assert_eq!(memory.load(&[]), Err(MemoryError::MalformedLoad));
    assert_eq!(memory.read(0), Ok(0x01));
    assert_eq!(memory.read(1), Ok(0x2A));
    assert_eq!(memory.read(2), Ok(0x87));
    assert_eq!(memory.read(3), Ok(0x00));
}

#[test]
fn load_replaces_all_contents() {
    let mut memory = Memory::new();
    let bytes: Vec<u8> = (0..MEM_SIZE as u8).collect();
    assert_eq!(memory.load(&bytes), Ok(()));
    for i in 0..MEM_SIZE {
        assert_eq!(memory.read(i), Ok(i as u8));
    }
}

#[test]
fn read_and_write_out_of_range() {
    let mut memory = Memory::new();
    assert_eq!(memory.read(MEM_SIZE), Err(MemoryError::OutOfRange));
    assert_eq!(memory.read(usize::MAX), Err(MemoryError::OutOfRange));
    assert_eq!(memory.write(MEM_SIZE, 1), Err(MemoryError::OutOfRange));
    assert_eq!(memory.write(31, 0x42), Ok(()));
    assert_eq!(memory.read(31), Ok(0x42));
    assert_eq!(memory.read(30), Ok(0x00));
}

#[test]
fn end_at_start_halts_without_a_cycle() {
    let cpu = run(&[0x87, 0x01]);
    assert_eq!(cpu.cycle_count, 0);
    assert_eq!(cpu.instruction_register, 0x87);
    assert_eq!(cpu.operand_register, 0);
    assert!(!cpu.running);
}

#[test]
fn unreadable_operand_halts() {
    let mut program = vec![0u8; MEM_SIZE];
    program[0] = 0x99;
    program[31] = 0x01;
    let cpu = run(&program);
    assert_eq!(cpu.instruction_register, 0x01);
    assert_eq!(cpu.accumulator, 0);
    assert_eq!(cpu.cycle_count, 16);
    assert!(!cpu.running);
}

#[test]
fn memory_of_unknown_bytes_terminates() {
    let cpu = run(&[0xFF; 32]);
    assert_eq!(cpu.cycle_count, 31);
    assert_eq!(cpu.accumulator, 0);
    assert!(!cpu.running);
}

#[test]
fn halted_cpu_does_not_restart() {
    let memory = memory_with(&[0x01, 0x05]);
    let mut cpu = CPU::new();
    cpu.running = false;
    assert_eq!(cpu.step(&memory, 0), None);
    cpu.run(&memory);
    let mut expected = CPU::new();
    expected.running = false;
    assert_eq!(cpu, expected);
}

#[test]
fn execute_dispatches_each_opcode() {
    let memory = Memory::new();
    let mut cpu = CPU::new();
    assert_eq!(cpu.execute(0x01, 200, &memory), 2);
    assert_eq!(cpu.accumulator, 200);
    assert_eq!(cpu.execute(0x02, 100, &memory), 2);
    assert_eq!(cpu.accumulator, 44);
    assert_eq!(cpu.execute(0x03, 50, &memory), 2);
    assert_eq!(cpu.accumulator, 250);
    assert_eq!(cpu.execute(0x00, 7, &memory), 2);
    assert_eq!(cpu.accumulator, 250);
    assert_eq!(cpu.operand_register, 0);
    assert_eq!(cpu.execute(0x42, 9, &memory), 1);
    assert_eq!(cpu.accumulator, 250);
    assert_eq!(cpu.instruction_register, 0);
    assert_eq!(cpu.operand_register, 0);
    assert!(cpu.running);
    assert_eq!(cpu.execute(0x87, 1, &memory), 1);
    assert!(!cpu.running);
    assert_eq!(cpu.cycle_count, 0);
}

#[test]
fn execute_leaves_fetch_registers_alone() {
    let memory = Memory::new();
    let mut cpu = CPU::new();
    let before = cpu;
    assert_eq!(cpu.execute(0x99, 0x33, &memory), 1);
    assert_eq!(cpu, before);
    assert_eq!(cpu.execute(0x01, 5, &memory), 2);
    assert_eq!(cpu.accumulator, 5);
    assert_eq!(cpu.instruction_register, 0);
    assert_eq!(cpu.operand_register, 0);
    assert_eq!(cpu.cycle_count, 0);
    assert!(cpu.running);
}

#[test]
fn register_handlers() {
    let mut cpu = CPU::new();
    assert_eq!(cpu.set_rax(3), 2);
    cpu.operand_register = 5;
    assert_eq!(cpu.sub(), 2);
    assert_eq!(cpu.accumulator, 254);
    assert_eq!(cpu.add(), 2);
    assert_eq!(cpu.accumulator, 3);
    cpu.cycle();
    cpu.cycle();
    assert_eq!(cpu.cycle_count, 2);
}

#[test]
fn opcode_decoding() {
    assert_eq!(Opcode::from_u8(0x00), Some(Opcode::Nop));
    assert_eq!(Opcode::from_u8(0x01), Some(Opcode::Mov));
    assert_eq!(Opcode::from_u8(0x02), Some(Opcode::Add));
    assert_eq!(Opcode::from_u8(0x03), Some(Opcode::Sub));
    assert_eq!(Opcode::from_u8(0x87), Some(Opcode::End));
    assert_eq!(Opcode::from_u8(0x04), None);
    assert_eq!(Opcode::from_u8(0x99), None);
}

#[test]
fn hex_tokens() {
    assert_eq!(parse_hex_byte(b"2A"), Some(42));
    assert_eq!(parse_hex_byte(b"2a"), Some(42));
    assert_eq!(parse_hex_byte(b"0x87"), Some(0x87));
    assert_eq!(parse_hex_byte(b"0xFF"), Some(255));
    assert_eq!(parse_hex_byte(b"000FF"), Some(255));
    assert_eq!(parse_hex_byte(b"0"), Some(0));
    assert_eq!(parse_hex_byte(b"00"), Some(0));
    assert_eq!(parse_hex_byte(b"+1"), Some(1));
    assert_eq!(parse_hex_byte(b"0x0x05"), Some(5));
    assert_eq!(parse_hex_byte(b"100"), None);
    assert_eq!(parse_hex_byte(b"0x100"), None);
    assert_eq!(parse_hex_byte(b""), None);
    assert_eq!(parse_hex_byte(b"0x"), None);
    assert_eq!(parse_hex_byte(b"+"), None);
    assert_eq!(parse_hex_byte(b"-1"), None);
    assert_eq!(parse_hex_byte(b"zz"), None);
    assert_eq!(parse_hex_byte(b"1g"), None);
}
