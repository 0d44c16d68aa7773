//! The high-level entry: the first routine that runs once the entry
//! trampoline has set up the stack.

use crate::console::{print_line_i64, signed_decimal};
use crate::memory::{clear_bss, zeroed, Layout, MemoryImage};
use crate::panic_handler::{ascii, panic_line, Location, PanicInfo};
use crate::sbi::{emitted, halted, shutdown_call, Firmware, FirmwareView};
use vstd::prelude::*;
use vstd::slice::slice_to_vec;
use vstd::string::{is_ascii_spec_bytes, StringSliceAdditionalSpecFns};

verus! {

/// The machine the kernel owns from the entry point on: the loaded image's
/// memory, the linker's layout of it, and the firmware.
pub struct Machine {
    pub memory: MemoryImage,
    pub layout: Layout,
    pub firmware: Firmware,
}

impl Machine {
    /// The BSS region lies inside memory and the firmware's record is
    /// well-formed.
    pub open spec fn wf(&self) -> bool {
        &&& self.memory@.contains_layout(self.layout)
        &&& self.firmware@.wf()
    }
}

/// The number the demonstration workload prints.
pub const DEMO_VALUE: i64 = 12345;

/// The source line of the workload's closing panic.
pub const SHUTDOWN_LINE: u32 = 83;

/// What the boot sequence leaves on a firmware that starts in state `s`: the
/// workload's line, then the report of its closing panic, then shutdown.
pub open spec fn boot_firmware(s: FirmwareView) -> FirmwareView {
    halted(
        emitted(
            emitted(s, signed_decimal(DEMO_VALUE as int).push(10u8)),
            panic_line(Some((ascii("src/boot.rs"@), SHUTDOWN_LINE as nat)), ascii("Shutdown machine!"@)),
        ),
    )
}

/// The entry: clears BSS before anything else, runs the workload (one
/// printed number) and ends through the panic path, which shuts the machine
/// down. It never leaves the machine running.
pub fn rust_main(m: &mut Machine)
    requires
        old(m).wf(),
    ensures
        final(m).layout == old(m).layout,
        final(m).memory@.base == old(m).memory@.base,
        final(m).memory@.bytes == zeroed(
            old(m).memory@.bytes,
            old(m).layout.sbss - old(m).memory@.base,
            old(m).layout.ebss - old(m).memory@.base,
        ),
        final(m).firmware@ == boot_firmware(old(m).firmware@),
        final(m).firmware@.halted,
        final(m).firmware@.calls.last() == shutdown_call(),
        final(m).wf(),
{
    clear_bss(&mut m.memory, &m.layout);
    print_line_i64(&mut m.firmware, DEMO_VALUE);
    let file: &str = "src/boot.rs";
    let message: &str = "Shutdown machine!";
    proof {
        reveal_strlit("src/boot.rs");
        reveal_strlit("Shutdown machine!");
        is_ascii_spec_bytes(file);
        is_ascii_spec_bytes(message);
        assert(file.spec_bytes() =~= ascii("src/boot.rs"@));
        assert(message.spec_bytes() =~= ascii("Shutdown machine!"@));
    }
    let info = PanicInfo {
        location: Some(Location { file: slice_to_vec(file.as_bytes()), line: SHUTDOWN_LINE }),
        message: slice_to_vec(message.as_bytes()),
    };
    crate::panic_handler::panic(&mut m.firmware, &info);
}

} // verus!
