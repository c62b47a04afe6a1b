use picoos::arch::aarch64;
use picoos::arch::riscv64::cpu::{self, PmpRegs};
use picoos::arch::riscv64::{self as rv, pmp, timer as rv_timer, CpuInfo};
use picoos::drivers::uart;
use picoos::kernel::banner;
use picoos::kernel::contract::{self, BootContract};
use picoos::kernel::irq_cell::IrqCell;
use picoos::kernel::log;
use picoos::kernel::task::context::{self, InitialTaskContext};
use picoos::kernel::task::cpu_context::{self, TaskCpuContext};
use picoos::kernel::timer;
use picoos::kernel::trap_frame::TrapImage;

fn as_text(v: Vec<u8>) -> String {
    String::from_utf8(v).unwrap()
}

#[test]
fn hex_is_sixteen_uppercase_digits() {
    assert_eq!(as_text(uart::write_hex_u64(0x1234_abcd)), "0x000000001234ABCD");
    assert_eq!(as_text(uart::write_hex_u64(u64::MAX)), "0xFFFFFFFFFFFFFFFF");
}

#[test]
fn decimal_has_no_leading_zeros() {
    assert_eq!(as_text(uart::write_dec_u64(0)), "0");
    assert_eq!(as_text(uart::write_dec_u64(4096)), "4096");
    assert_eq!(as_text(uart::write_dec_u64(u64::MAX)), "18446744073709551615");
}

#[test]
fn lines_end_with_crlf_and_newlines_become_crlf() {
    assert_eq!(as_text(uart::write_line("abc")), "abc\r\n");
    assert_eq!(as_text(uart::write_str("a\nb")), "a\r\nb");
}

#[test]
fn log_lines_carry_level_and_scope() {
    assert_eq!(as_text(log::info("timer", "tick")), "[INFO][timer] tick\r\n");
    assert_eq!(as_text(log::ok("fault", "done")), "[OK][fault] done\r\n");
    assert_eq!(as_text(log::fail("sys", "illegal ecall")), "[FAIL][sys] illegal ecall\r\n");
}

#[test]
fn banner_and_capabilities() {
    let b = as_text(banner::print_boot_banner());
    assert_eq!(
        b,
        "================================\r\nPicoOS 0.3.0\r\nFrame Kernel\r\n================================\r\n"
    );
    let c = as_text(banner::print_capabilities());
    assert!(c.starts_with("\r\nkernel capabilities:\r\n- architecture: riscv64\r\n"));
    assert!(c.ends_with("- copy-IPC rendezvous (32 B)\r\n"));
}

#[test]
fn boot_contract_bytes_round_trip() {
    for byte in 0u8..10 {
        let c = BootContract::from_byte(byte);
        assert!(contract::BootContract::is_known_byte(byte));
        let _ = c.name();
    }
    assert!(BootContract::from_byte(200) == BootContract::Default);
    assert!(!BootContract::is_known_byte(200));
    let mut cell = IrqCell::new(BootContract::Default);
    let _ = contract::apply_boot_contract(&mut cell, 8);
    assert!(contract::plan(&cell) == BootContract::Ipc);
}

#[test]
fn worker_mstatus_enters_user_mode() {
    let m = cpu::synthesize_mstatus_for_mret_worker(0x1808 | 0x6000);
    assert_eq!(m & cpu::MSTATUS_MPP, cpu::MSTATUS_MPP_U);
    assert_eq!(m & cpu::MSTATUS_MIE, 0);
    assert_eq!(m & cpu::MSTATUS_MPIE, cpu::MSTATUS_MPIE);
    assert_eq!(m & cpu::MSTATUS_FS, 0x6000);
    let idle = cpu::synthesize_mstatus_for_idle(0);
    assert_eq!(idle & cpu::MSTATUS_MPP, cpu::MSTATUS_MPP_M);
    assert_eq!(idle & cpu::MSTATUS_MIE, cpu::MSTATUS_MIE);
    assert!(cpu::trapped_from_user(0));
    assert!(!cpu::trapped_from_user(0x1800));
}

#[test]
fn pmp_guards_the_current_stack_page() {
    let mut regs = PmpRegs::new();
    pmp::set_current_stack(&mut regs, 0x8010_0000);
    assert_eq!(cpu::pmpaddr(&regs, 4), (0x8010_0000u64 >> 2) | 0x1ff);
}

#[test]
fn riscv_timer_deadlines_wrap() {
    assert_eq!(rv_timer::arm_timer_after_ticks(u64::MAX, 2), 1);
    assert_eq!(rv_timer::arm_timer_hz(100, 1), 100 + 10_000_000);
    assert_eq!(rv_timer::disarm_timer(), u64::MAX);
}

#[test]
fn arm_timer_arithmetic() {
    assert!(timer::delay_ticks(10, 15, 5));
    assert!(!timer::delay_ticks(10, 14, 5));
    assert!(timer::delay_ticks(u64::MAX - 1, 3, 5));
    assert_eq!(timer::delay_ms(62_500_000, 3), 187_500);
    assert_eq!(timer::delay_seconds(62_500_000, 2), 125_000_000);
    assert_eq!(timer::arm_timer_ticks(0x1_0000_0005), 5);
    assert_eq!(timer::arm_timer_hz(62_500_000, 10), 6_250_000);
    assert_eq!(timer::arm_timer_seconds(62_500_000, 100), (6_250_000_000u64 % (1u64 << 32)) as u32);
}

#[test]
fn aarch64_exception_level() {
    assert_eq!(aarch64::current_el(0b1100), 3);
    assert_eq!(aarch64::current_el(0b0100), 1);
    assert_eq!(aarch64::resume_stack_pointer(0x1000), 0x1010);
}

#[test]
fn cpu_report_lists_the_registers() {
    let info = CpuInfo { mhartid: 0, mstatus: 0x1800, mtvec: 0x8000_0100, mepc: 0, mcause: 0, mie: 0x80, mip: 0, sp: 0x8002_0000 };
    let text = as_text(rv::print_cpu_info(info));
    assert!(text.starts_with("riscv64 CPU info:\r\nmhartid: 0x0000000000000000\r\nharts present: 1\r\n"));
    assert!(text.ends_with("SP: 0x0000000080020000\r\n"));
}

#[test]
fn initial_context_sits_below_the_stack_top() {
    let r = context::prepare_initial_stack(0x8010_1000, 0x8000_8010).unwrap();
    assert_eq!(r.0, 0x8010_1000 - 16);
    assert_eq!(r.1.entry, 0x8000_8010);
    assert_eq!(context::prepare_initial_stack(0x8010_0ff8, 1).unwrap().0, 0x8010_0fe0);
    assert!(context::prepare_initial_stack(8, 1).is_none());
    let text = as_text(context::print_initial_context(InitialTaskContext { entry: 1, stack_top: 2 }));
    assert_eq!(text, " prepared_entry: 0x0000000000000001 prepared_stack_top: 0x0000000000000002");
}

#[test]
fn yield_context_round_trips_through_a_trap_image() {
    let mut ctx = TaskCpuContext::initial(0x8010_0ff0, 0x8000_8010);
    ctx.s[3] = 77;
    let image = TrapImage::from_yield_context(ctx);
    assert_eq!(image.mepc, 0x8000_8010);
    assert_eq!(image.gpr.s3, 77);
    let back = image.to_yield_context();
    assert_eq!(back.sp, ctx.sp);
    assert_eq!(back.resume_pc, ctx.resume_pc);
    assert_eq!(back.s, ctx.s);
    assert!(image.is_valid());
    let text = as_text(cpu_context::print_cpu_context(back));
    assert!(text.starts_with(" cpu_context: sp: 0x0000000080100FF0 return_pc: 0x0000000080008010"));
}
