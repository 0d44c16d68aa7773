use sbi_os::boot::{rust_main, Machine, SHUTDOWN_LINE};
use sbi_os::console::{print, print_fmt, print_i64, print_line, print_line_fmt, print_line_i64, print_u64, Arg};
use sbi_os::memory::{clear_bss, Layout, MemoryImage};
use sbi_os::panic_handler::{Location, PanicInfo};
use sbi_os::sbi::{Firmware, SbiCall, SBI_CONSOLE_PUTCHAR, SBI_SHUTDOWN};

fn printed(f: impl FnOnce(&mut Firmware)) -> Vec<u8> {
    let mut fw = Firmware::new();
    f(&mut fw);
    fw.console()
}

fn machine(base: usize, bytes: Vec<u8>, sbss: usize, ebss: usize) -> Machine {
    Machine {
        memory: MemoryImage::new(base, bytes),
        layout: Layout { sbss, ebss },
        firmware: Firmware::new(),
    }
}

fn raise(fw: &mut Firmware, location: Option<(&str, u32)>, message: &str) {
    let info = PanicInfo {
        location: location.map(|(file, line)| Location { file: file.as_bytes().to_vec(), line }),
        message: message.as_bytes().to_vec(),
    };
    sbi_os::panic_handler::panic(fw, &info);
}

#[test]
fn putchar_uses_the_console_call() {
    let mut fw = Firmware::new();
    fw.console_putchar(b'A');
    assert_eq!(
        fw.calls(),
        &[SbiCall { which: SBI_CONSOLE_PUTCHAR, arg0: 65, arg1: 0, arg2: 0 }]
    );
    assert_eq!(SBI_CONSOLE_PUTCHAR, 1);
    assert!(!fw.is_halted());
}

#[test]
fn shutdown_uses_the_shutdown_call_once() {
    let mut fw = Firmware::new();
    fw.shutdown();
    fw.shutdown();
    assert_eq!(fw.calls(), &[SbiCall { which: SBI_SHUTDOWN, arg0: 0, arg1: 0, arg2: 0 }]);
    assert_eq!(SBI_SHUTDOWN, 8);
    assert!(fw.is_halted());
}

#[test]
fn bss_is_zero_after_clear() {
    // a static with initial value 0 sits at 0x8020_0010, inside BSS, and holds garbage at load
    let base: usize = 0x8020_0000;
    let mut bytes = vec![0xAAu8; 64];
    bytes[0x10] = 0x5A;
    let mut mem = MemoryImage::new(base, bytes);
    let layout = Layout { sbss: base + 0x08, ebss: base + 0x20 };
    clear_bss(&mut mem, &layout);
    assert_eq!(mem.read(base + 0x10), 0x00);
    for a in layout.sbss..layout.ebss {
        assert_eq!(mem.read(a), 0);
    }
    assert_eq!(mem.read(base + 0x07), 0xAA);
    assert_eq!(mem.read(base + 0x20), 0xAA);
    assert_eq!(mem.base(), base);
    assert_eq!(mem.len(), 64);
}

#[test]
fn prints_appear_in_order() {
    let out = printed(|fw| {
        print(fw, b"alpha ");
        print(fw, b"");
        print(fw, b"beta");
        print_line(fw, b" gamma");
    });
    assert_eq!(out, b"alpha beta gamma\n".to_vec());
}

#[test]
fn decimal_rendering() {
    assert_eq!(printed(|fw| print_u64(fw, 0)), b"0".to_vec());
    assert_eq!(printed(|fw| print_u64(fw, 12345)), b"12345".to_vec());
    assert_eq!(printed(|fw| print_i64(fw, -1)), b"-1".to_vec());
    assert_eq!(printed(|fw| print_i64(fw, 0)), b"0".to_vec());
    assert_eq!(printed(|fw| print_u64(fw, u64::MAX)), b"18446744073709551615".to_vec());
    assert_eq!(printed(|fw| print_i64(fw, i64::MIN)), b"-9223372036854775808".to_vec());
    assert_eq!(printed(|fw| print_line_i64(fw, 12345)), b"12345\n".to_vec());
}

#[test]
fn template_formatting() {
    let args = [Arg::Bytes(b"foo.rs".to_vec()), Arg::Unsigned(42), Arg::Signed(-7), Arg::Char(b'!')];
    assert_eq!(printed(|fw| print_fmt(fw, b"at {}:{} {}{}", &args)), b"at foo.rs:42 -7!".to_vec());
    assert_eq!(printed(|fw| print_fmt(fw, b"{} and {}", &[Arg::Unsigned(1)])), b"1 and {}".to_vec());
    assert_eq!(printed(|fw| print_fmt(fw, b"{x}", &[Arg::Unsigned(1)])), b"{x}".to_vec());
    assert_eq!(printed(|fw| print_line_fmt(fw, b"{}", &[Arg::Signed(12345)])), b"12345\n".to_vec());
}

#[test]
fn panic_with_location() {
    let mut fw = Firmware::new();
    raise(&mut fw, Some(("foo.rs", 42)), "oops");
    assert_eq!(fw.console(), b"Panicked at foo.rs:42 oops\n".to_vec());
    assert!(fw.is_halted());
}

#[test]
fn panic_terminates() {
    let mut fw = Firmware::new();
    raise(&mut fw, Some(("foo.rs", 42)), "oops");
    let calls = fw.calls().len();
    assert_eq!(fw.calls()[calls - 1], SbiCall { which: SBI_SHUTDOWN, arg0: 0, arg1: 0, arg2: 0 });
    print_line(&mut fw, b"late");
    raise(&mut fw, None, "again");
    assert_eq!(fw.calls().len(), calls);
    assert_eq!(fw.console(), b"Panicked at foo.rs:42 oops\n".to_vec());
}

#[test]
fn entry_never_leaves_the_machine_running() {
    let mut m = machine(0x1000, vec![0u8; 16], 0x1000, 0x1010);
    rust_main(&mut m);
    assert!(m.firmware.is_halted());
    let calls = m.firmware.calls();
    assert_eq!(calls[calls.len() - 1].which, SBI_SHUTDOWN);
}

#[test]
fn boot_happy_path() {
    let mut m = machine(0x8020_0000, vec![0xFFu8; 256], 0x8020_0040, 0x8020_0080);
    rust_main(&mut m);
    let expected = format!("12345\nPanicked at src/boot.rs:{} Shutdown machine!\n", SHUTDOWN_LINE);
    assert_eq!(m.firmware.console(), expected.into_bytes());
    assert!(m.firmware.is_halted());
    for a in 0x8020_0040..0x8020_0080usize {
        assert_eq!(m.memory.read(a), 0);
    }
    assert_eq!(m.memory.read(0x8020_003F), 0xFF);
    assert_eq!(m.memory.read(0x8020_0080), 0xFF);
}

#[test]
fn boot_with_empty_bss() {
    let mut m = machine(0x2000, vec![7u8; 32], 0x2010, 0x2010);
    clear_bss(&mut m.memory, &m.layout);
    for a in 0x2000..0x2020usize {
        assert_eq!(m.memory.read(a), 7);
    }
    print_line(&mut m.firmware, b"sentinel");
    m.firmware.shutdown();
    assert_eq!(m.firmware.console(), b"sentinel\n".to_vec());
    assert!(m.firmware.is_halted());
}

#[test]
fn boot_with_large_bss() {
    let size: usize = 1 << 20;
    let base: usize = 0x8040_0000;
    let mut mem = MemoryImage::new(base, vec![0xFFu8; size]);
    let layout = Layout { sbss: base, ebss: base + size };
    clear_bss(&mut mem, &layout);
    let mut seed: u64 = 0x2545_F491_4F6C_DD1D;
    for _ in 0..1024 {
        seed = seed.wrapping_mul(6364136223846793005).wrapping_add(1442695040888963407);
        let offset = (seed >> 33) as usize % size;
        assert_eq!(mem.read(base + offset), 0x00);
    }
}

#[test]
fn boot_with_large_bss_leaves_the_rest() {
    let mut m = machine(0x10_0000, vec![0xFFu8; 3 << 20], 0x10_0000 + (1 << 20), 0x10_0000 + (2 << 20));
    rust_main(&mut m);
    assert_eq!(m.memory.read(0x10_0000 + (1 << 20) - 1), 0xFF);
    assert_eq!(m.memory.read(0x10_0000 + (1 << 20)), 0x00);
    assert_eq!(m.memory.read(0x10_0000 + (2 << 20) - 1), 0x00);
    assert_eq!(m.memory.read(0x10_0000 + (2 << 20)), 0xFF);
}

#[test]
fn panic_without_location() {
    let mut fw = Firmware::new();
    raise(&mut fw, None, "out of cheese");
    assert_eq!(fw.console(), b"Panicked: out of cheese\n".to_vec());
    assert!(fw.is_halted());
}
