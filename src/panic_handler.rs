//! The panic path: the last-resort routine that reports an unrecoverable
//! error on the console and powers the machine down.

use crate::console::{decimal, lemma_silent_after_halt, print, print_line, print_u64, printed_in_turn};
use crate::sbi::{
    emitted, halted, lemma_emitted_concat, lemma_emitted_wf, shutdown_call, Firmware, FirmwareView,
};
use vstd::prelude::*;
use vstd::string::{is_ascii_spec_bytes, StringSliceAdditionalSpecFns};

verus! {

/// Where in the source a panic fired.
pub struct Location {
    pub file: Vec<u8>,
    pub line: u32,
}

/// What the panic handler is given: an optional source location and a
/// human-readable message.
pub struct PanicInfo {
    pub location: Option<Location>,
    pub message: Vec<u8>,
}

/// The bytes of an ASCII string.
pub open spec fn ascii(s: Seq<char>) -> Seq<u8> {
    s.map_values(|c: char| c as u8)
}

/// The line the handler writes: `Panicked at <file>:<line> <message>` when the
/// location is known, `Panicked: <message>` when it is not, ended by a
/// linefeed.
pub open spec fn panic_line(location: Option<(Seq<u8>, nat)>, message: Seq<u8>) -> Seq<u8> {
    match location {
        Some((file, line)) => ascii("Panicked at "@) + file + seq![58u8] + decimal(line) + seq![32u8]
            + message + seq![10u8],
        None => ascii("Panicked: "@) + message + seq![10u8],
    }
}

impl PanicInfo {
    /// The location as plain values: file bytes and line number.
    pub open spec fn spec_location(&self) -> Option<(Seq<u8>, nat)> {
        match self.location {
            Some(l) => Some((l.file@, l.line as nat)),
            None => None,
        }
    }
}

/// Reports the panic on the console and shuts the machine down. On a machine
/// that is already halted nothing more happens: nothing is printed after a
/// shutdown.
pub fn panic(fw: &mut Firmware, info: &PanicInfo)
    requires
        old(fw)@.wf(),
    ensures
        final(fw)@ == halted(emitted(old(fw)@, panic_line(info.spec_location(), info.message@))),
        final(fw)@.wf(),
{
    let ghost start: FirmwareView = fw@;
    match &info.location {
        Some(loc) => {
            let head: &str = "Panicked at ";
            proof {
                reveal_strlit("Panicked at ");
                is_ascii_spec_bytes(head);
                assert(head.spec_bytes() =~= ascii("Panicked at "@));
            }
            print(fw, head.as_bytes());
            print(fw, loc.file.as_slice());
            fw.console_putchar(58u8);
            print_u64(fw, loc.line as u64);
            fw.console_putchar(32u8);
            print_line(fw, info.message.as_slice());
            proof {
                let a = ascii("Panicked at "@);
                lemma_emitted_concat(start, a, loc.file@);
                lemma_emitted_concat(start, a + loc.file@, seq![58u8]);
                lemma_emitted_concat(start, a + loc.file@ + seq![58u8], decimal(loc.line as nat));
                lemma_emitted_concat(start, a + loc.file@ + seq![58u8] + decimal(loc.line as nat), seq![32u8]);
                lemma_emitted_concat(
                    start,
                    a + loc.file@ + seq![58u8] + decimal(loc.line as nat) + seq![32u8],
                    info.message@.push(10u8),
                );
                assert(a + loc.file@ + seq![58u8] + decimal(loc.line as nat) + seq![32u8] + info.message@.push(10u8)
                    =~= panic_line(info.spec_location(), info.message@));
            }
        },
        None => {
            let head: &str = "Panicked: ";
            proof {
                reveal_strlit("Panicked: ");
                is_ascii_spec_bytes(head);
                assert(head.spec_bytes() =~= ascii("Panicked: "@));
            }
            print(fw, head.as_bytes());
            print_line(fw, info.message.as_slice());
            proof {
                let a = ascii("Panicked: "@);
                lemma_emitted_concat(start, a, info.message@.push(10u8));
                assert(a + info.message@.push(10u8) =~= panic_line(info.spec_location(), info.message@));
            }
        },
    }
    fw.shutdown();
}

/// A panic is terminal: after the handler has run, the machine is halted,
/// the last call it issued is the shutdown, and no later print shows anything.
pub proof fn lemma_panic_is_final(
    s: FirmwareView,
    location: Option<(Seq<u8>, nat)>,
    message: Seq<u8>,
    later: Seq<Seq<u8>>,
)
    requires
        s.wf(),
    ensures
        halted(emitted(s, panic_line(location, message))).halted,
        halted(emitted(s, panic_line(location, message))).calls.last() == shutdown_call(),
        printed_in_turn(halted(emitted(s, panic_line(location, message))), later) == halted(
            emitted(s, panic_line(location, message)),
        ),
{
    lemma_emitted_wf(s, panic_line(location, message));
    lemma_silent_after_halt(emitted(s, panic_line(location, message)), later);
}

} // verus!
