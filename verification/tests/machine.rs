use vcpu::machine::ErrorKind;
use vcpu::machine::OP_ADD_STACK;
use vcpu::machine::OP_POP_REG;
use vcpu::machine::OP_PUSH;
use vcpu::machine::Machine;
use vcpu::machine::Register;
use vcpu::memory::Addressable;

#[test]
fn new_machine_is_zeroed() {
    let m = Machine::new();
    assert_eq!(m.get_register(Register::A), 0);
    assert_eq!(m.get_register(Register::B), 0);
    assert_eq!(m.get_register(Register::C), 0);
    assert_eq!(m.get_register(Register::SP), 0);
    assert_eq!(m.get_register(Register::PC), 0);
    assert_eq!(m.get_register(Register::BP), 0);
    assert_eq!(m.get_register(Register::FLAGS), 0);
    assert_eq!(m.memory.read(0), Some(0));
    assert_eq!(m.memory.read(8191), Some(0));
    assert_eq!(m.memory.read(8192), None);
}

#[test]
fn nop_advances_pc_and_changes_nothing_else() {
    let mut m = Machine::new();
    assert_eq!(m.step(), Ok(()));
    assert_eq!(m.get_register(Register::PC), 2);
    assert_eq!(m.get_register(Register::A), 0);
    assert_eq!(m.get_register(Register::B), 0);
    assert_eq!(m.get_register(Register::C), 0);
    assert_eq!(m.get_register(Register::SP), 0);
    assert_eq!(m.get_register(Register::BP), 0);
    assert_eq!(m.get_register(Register::FLAGS), 0);
    for a in 0..16u16 {
        assert_eq!(m.memory.read(a), Some(0));
    }
}

#[test]
fn unknown_opcode_is_a_decode_fault_carrying_the_byte() {
    let mut m = Machine::new();
    assert!(m.memory.write(0, 0xff));
    assert_eq!(m.step(), Err(ErrorKind::DecodeFault(0xff)));
    assert_eq!(m.get_register(Register::PC), 2);
}

#[test]
fn lowest_unknown_opcode_is_a_decode_fault() {
    let mut m = Machine::new();
    assert!(m.memory.write(0, 4));
    assert_eq!(m.step(), Err(ErrorKind::DecodeFault(4)));
    assert_eq!(m.get_register(Register::PC), 2);
}

#[test]
fn unknown_register_selector_is_a_decode_fault_carrying_the_byte() {
    let mut m = Machine::new();
    assert!(m.memory.write(0, OP_POP_REG));
    assert!(m.memory.write(1, 9));
    assert_eq!(m.step(), Err(ErrorKind::DecodeFault(9)));
    assert_eq!(m.get_register(Register::PC), 2);
}

#[test]
fn fetch_one_byte_before_capacity_faults_without_advancing_pc() {
    let mut m = Machine::new();
    m.set_register(Register::PC, 8191);
    assert_eq!(m.step(), Err(ErrorKind::FetchFault));
    assert_eq!(m.get_register(Register::PC), 8191);
}

#[test]
fn fetch_past_capacity_faults_without_advancing_pc() {
    let mut m = Machine::new();
    m.set_register(Register::PC, 60000);
    assert_eq!(m.step(), Err(ErrorKind::FetchFault));
    assert_eq!(m.get_register(Register::PC), 60000);
}

#[test]
fn push_then_pop_restores_sp_and_loads_the_register() {
    let mut m = Machine::new();
    m.set_register(Register::SP, 100);
    assert!(m.write_memory(0, OP_PUSH));
    assert!(m.write_memory(1, 5));
    assert!(m.write_memory(2, OP_POP_REG));
    assert!(m.write_memory(3, 0));
    assert_eq!(m.step(), Ok(()));
    assert_eq!(m.get_register(Register::SP), 99);
    assert_eq!(m.read_memory(100), Some(5));
    assert_eq!(m.step(), Ok(()));
    assert_eq!(m.get_register(Register::A), 5);
    assert_eq!(m.get_register(Register::SP), 100);
    assert_eq!(m.get_register(Register::PC), 4);
}

#[test]
fn push_push_add_pop_sums_modulo_256() {
    let mut m = Machine::new();
    m.set_register(Register::SP, 100);
    assert!(m.memory.write(0, OP_PUSH));
    assert!(m.memory.write(1, 200));
    assert!(m.memory.write(2, OP_PUSH));
    assert!(m.memory.write(3, 100));
    assert!(m.memory.write(4, OP_ADD_STACK));
    assert!(m.memory.write(6, OP_POP_REG));
    assert!(m.memory.write(7, 0));
    assert_eq!(m.step(), Ok(()));
    assert_eq!(m.step(), Ok(()));
    assert_eq!(m.step(), Ok(()));
    assert_eq!(m.step(), Ok(()));
    assert_eq!(m.get_register(Register::A), 44);
    assert_eq!(m.get_register(Register::SP), 100);
    assert_eq!(m.get_register(Register::PC), 8);
}

#[test]
fn pop_into_another_register_zero_extends() {
    let mut m = Machine::new();
    m.set_register(Register::SP, 50);
    m.set_register(Register::B, 0xffff);
    assert!(m.memory.write(0, OP_PUSH));
    assert!(m.memory.write(1, 7));
    assert!(m.memory.write(2, OP_POP_REG));
    assert!(m.memory.write(3, 1));
    assert_eq!(m.step(), Ok(()));
    assert_eq!(m.step(), Ok(()));
    assert_eq!(m.get_register(Register::B), 7);
}

#[test]
fn push_outside_capacity_is_a_stack_fault() {
    let mut m = Machine::new();
    m.set_register(Register::SP, 9000);
    assert!(m.memory.write(0, OP_PUSH));
    assert!(m.memory.write(1, 5));
    assert_eq!(m.step(), Err(ErrorKind::StackFault));
    assert_eq!(m.get_register(Register::PC), 2);
    assert_eq!(m.get_register(Register::SP), 9000);
}

#[test]
fn pop_outside_capacity_is_a_stack_fault() {
    let mut m = Machine::new();
    m.set_register(Register::SP, 8191);
    assert!(m.memory.write(0, OP_POP_REG));
    assert_eq!(m.step(), Err(ErrorKind::StackFault));
    assert_eq!(m.get_register(Register::PC), 2);
    assert_eq!(m.get_register(Register::SP), 8191);
    assert_eq!(m.get_register(Register::A), 0);
}

#[test]
fn add_stack_outside_capacity_is_a_stack_fault() {
    let mut m = Machine::new();
    m.set_register(Register::SP, 8190);
    assert!(m.memory.write(0, OP_ADD_STACK));
    assert_eq!(m.step(), Err(ErrorKind::StackFault));
    assert_eq!(m.get_register(Register::PC), 2);
    assert_eq!(m.get_register(Register::SP), 8190);
}

#[test]
fn stack_pointer_wraps_around_the_address_space() {
    let mut m = Machine::new();
    m.set_register(Register::PC, 10);
    m.set_register(Register::SP, 0);
    assert!(m.memory.write(10, OP_PUSH));
    assert!(m.memory.write(11, 9));
    assert!(m.memory.write(12, OP_POP_REG));
    assert!(m.memory.write(13, 0));
    assert_eq!(m.step(), Ok(()));
    assert_eq!(m.memory.read(0), Some(9));
    assert_eq!(m.get_register(Register::SP), 0xffff);
    assert_eq!(m.step(), Ok(()));
    assert_eq!(m.get_register(Register::A), 9);
    assert_eq!(m.get_register(Register::SP), 0);
}

#[test]
fn with_capacity_sets_the_memory_bound() {
    let mut m = Machine::with_capacity(4);
    assert_eq!(m.read_memory(3), Some(0));
    assert_eq!(m.read_memory(4), None);
    assert!(!m.write_memory(4, 1));
    m.set_register(Register::PC, 3);
    assert_eq!(m.step(), Err(ErrorKind::FetchFault));
    assert_eq!(m.get_register(Register::PC), 3);
}

#[test]
fn machines_do_not_share_state() {
    let mut a = Machine::new();
    let b = Machine::new();
    assert!(a.memory.write(0, 0xff));
    assert_eq!(b.memory.read(0), Some(0));
}
