//! The Supervisor Binary Interface as the kernel uses it.
//!
//! Every firmware request is an environment call that carries a function
//! identifier (register a7) and three arguments (a0..a2). The kernel records
//! each call it issues in a `Firmware` value; whoever hosts the kernel carries
//! the calls out in order.

use vstd::prelude::*;

verus! {

/// Function identifier of the legacy console-putchar call.
pub const SBI_CONSOLE_PUTCHAR: usize = 1;

/// Function identifier of the legacy shutdown call.
pub const SBI_SHUTDOWN: usize = 8;

/// One environment call: the selector register and the three argument registers.
#[derive(Clone, Copy, Debug, PartialEq, Eq, Structural)]
pub struct SbiCall {
    pub which: usize,
    pub arg0: usize,
    pub arg1: usize,
    pub arg2: usize,
}

/// The call that writes byte `c` to the firmware console.
pub open spec fn putchar_call(c: u8) -> SbiCall {
    SbiCall { which: SBI_CONSOLE_PUTCHAR, arg0: c as usize, arg1: 0, arg2: 0 }
}

/// The call that powers the machine down.
pub open spec fn shutdown_call() -> SbiCall {
    SbiCall { which: SBI_SHUTDOWN, arg0: 0, arg1: 0, arg2: 0 }
}

/// What a sequence of calls shows on the firmware console: the byte of each
/// putchar call, in order.
pub open spec fn console_of(calls: Seq<SbiCall>) -> Seq<u8>
    decreases calls.len(),
{
    if calls.len() == 0 {
        Seq::empty()
    } else {
        let last = calls.last();
        let before = console_of(calls.drop_last());
        if last.which == SBI_CONSOLE_PUTCHAR {
            before.push(last.arg0 as u8)
        } else {
            before
        }
    }
}

/// The firmware as the kernel sees it: the calls issued so far, and whether
/// the machine has been powered down.
pub ghost struct FirmwareView {
    pub calls: Seq<SbiCall>,
    pub halted: bool,
}

impl FirmwareView {
    /// Shutdown is issued at most once, as the last call, and exactly when the
    /// machine is halted.
    pub open spec fn wf(self) -> bool {
        &&& (forall|i: int| 0 <= i < self.calls.len() - 1 ==> #[trigger] self.calls[i] != shutdown_call())
        &&& self.halted <==> (self.calls.len() > 0 && self.calls.last() == shutdown_call())
    }

    /// The bytes shown on the console so far.
    pub open spec fn console(self) -> Seq<u8> {
        console_of(self.calls)
    }
}

/// The state after the kernel writes `bytes` to the console, one putchar call
/// per byte. A halted machine runs nothing.
pub open spec fn emitted(s: FirmwareView, bytes: Seq<u8>) -> FirmwareView {
    if s.halted {
        s
    } else {
        FirmwareView { calls: s.calls + bytes.map_values(|c: u8| putchar_call(c)), halted: false }
    }
}

/// The state after the kernel asks for shutdown.
pub open spec fn halted(s: FirmwareView) -> FirmwareView {
    if s.halted {
        s
    } else {
        FirmwareView { calls: s.calls.push(shutdown_call()), halted: true }
    }
}

/// Writing `a` and then `b` is writing `a + b`.
pub proof fn lemma_emitted_concat(s: FirmwareView, a: Seq<u8>, b: Seq<u8>)
    ensures
        emitted(emitted(s, a), b) == emitted(s, a + b),
{
    if !s.halted {
        let f = |c: u8| putchar_call(c);
        assert((a + b).map_values(f) =~= a.map_values(f) + b.map_values(f));
        assert(s.calls + (a + b).map_values(f) =~= (s.calls + a.map_values(f)) + b.map_values(f));
    }
}

/// On a running machine, what the console shows after writing `bytes` is what
/// it showed before, followed by `bytes`.
pub proof fn lemma_console_of_emitted(s: FirmwareView, bytes: Seq<u8>)
    requires
        !s.halted,
    ensures
        emitted(s, bytes).console() == s.console() + bytes,
    decreases bytes.len(),
{
    let f = |c: u8| putchar_call(c);
    if bytes.len() == 0 {
        assert(s.calls + bytes.map_values(f) =~= s.calls);
        assert(s.console() + bytes =~= s.console());
    } else {
        let init = bytes.drop_last();
        lemma_console_of_emitted(s, init);
        let calls = s.calls + bytes.map_values(f);
        assert(calls.drop_last() =~= s.calls + init.map_values(f));
        assert(calls.last() == putchar_call(bytes.last()));
        assert(s.console() + bytes =~= (s.console() + init).push(bytes.last()));
    }
}

/// Writing keeps the record well-formed, and a running machine running.
pub proof fn lemma_emitted_wf(s: FirmwareView, bytes: Seq<u8>)
    requires
        s.wf(),
    ensures
        emitted(s, bytes).wf(),
        emitted(s, bytes).halted == s.halted,
{
    if !s.halted {
        let f = |c: u8| putchar_call(c);
        let calls = s.calls + bytes.map_values(f);
        assert forall|i: int| 0 <= i < calls.len() implies #[trigger] calls[i] != shutdown_call() by {
            if i >= s.calls.len() {
                assert(calls[i] == putchar_call(bytes[i - s.calls.len()]));
            }
        }
    }
}

/// The firmware calls issued by the kernel.
pub struct Firmware {
    calls: Vec<SbiCall>,
    halted: bool,
}

impl View for Firmware {
    type V = FirmwareView;

    closed spec fn view(&self) -> FirmwareView {
        FirmwareView { calls: self.calls@, halted: self.halted }
    }
}

impl Firmware {
    /// Firmware that has received no call yet.
    pub fn new() -> (r: Firmware)
        ensures
            r@.calls == Seq::<SbiCall>::empty(),
            !r@.halted,
            r@.wf(),
    {
        Firmware { calls: Vec::new(), halted: false }
    }

    /// Delivers one byte to the firmware console. Nothing happens once the
    /// machine is halted.
    pub fn console_putchar(&mut self, c: u8)
        requires
            old(self)@.wf(),
        ensures
            final(self)@ == emitted(old(self)@, seq![c]),
            final(self)@.wf(),
    {
        if !self.halted {
            self.calls.push(SbiCall { which: SBI_CONSOLE_PUTCHAR, arg0: c as usize, arg1: 0, arg2: 0 });
            assert(self.calls@ =~= old(self).calls@ + seq![c].map_values(|c: u8| putchar_call(c)));
        }
    }

    /// Powers the machine down. A second request changes nothing.
    pub fn shutdown(&mut self)
        requires
            old(self)@.wf(),
        ensures
            final(self)@ == halted(old(self)@),
            final(self)@.wf(),
    {
        if !self.halted {
            self.calls.push(SbiCall { which: SBI_SHUTDOWN, arg0: 0, arg1: 0, arg2: 0 });
            self.halted = true;
        }
    }

    /// Whether the machine has been powered down.
    pub fn is_halted(&self) -> (r: bool)
        ensures
            r == self@.halted,
    {
        self.halted
    }

    /// The bytes shown on the console so far.
    pub fn console(&self) -> (r: Vec<u8>)
        ensures
            r@ == self@.console(),
    {
        let mut out: Vec<u8> = Vec::new();
        let mut i: usize = 0;
        while i < self.calls.len()
            invariant
                i <= self.calls@.len(),
                out@ == console_of(self.calls@.subrange(0, i as int)),
            decreases self.calls.len() - i,
        {
            let call = self.calls[i];
            proof {
                assert(self.calls@.subrange(0, i + 1).drop_last() =~= self.calls@.subrange(0, i as int));
            }
            if call.which == SBI_CONSOLE_PUTCHAR {
                out.push(call.arg0 as u8);
            }
            i = i + 1;
        }
        proof {
            assert(self.calls@.subrange(0, self.calls@.len() as int) =~= self.calls@);
        }
        out
    }

    /// The calls issued so far, in order.
    pub fn calls(&self) -> (r: &[SbiCall])
        ensures
            r@ == self@.calls,
    {
        self.calls.as_slice()
    }
}

} // verus!
