//! The console: a print primitive over the firmware's putchar call, with
//! decimal rendering of integers and a small template formatter that needs no
//! heap.

use crate::sbi::{
    emitted, halted, lemma_console_of_emitted, lemma_emitted_concat, shutdown_call, Firmware,
    FirmwareView,
};
use vstd::prelude::*;

verus! {

/// The ASCII digit for `d`, for `d < 10`.
pub open spec fn digit(d: nat) -> u8 {
    (48 + d) as u8
}

/// The decimal rendering of `n`: its digits, most significant first, with no
/// leading zero.
pub open spec fn decimal(n: nat) -> Seq<u8>
    decreases n,
{
    if n < 10 {
        seq![digit(n)]
    } else {
        decimal(n / 10).push(digit(n % 10))
    }
}

/// The decimal rendering of a signed integer: a minus sign before the digits
/// of its magnitude when it is negative.
pub open spec fn signed_decimal(n: int) -> Seq<u8> {
    if n < 0 {
        seq![45u8] + decimal((-n) as nat)
    } else {
        decimal(n as nat)
    }
}

/// The state after each of `prints` is written, one after another.
pub open spec fn printed_in_turn(s: FirmwareView, prints: Seq<Seq<u8>>) -> FirmwareView
    decreases prints.len(),
{
    if prints.len() == 0 {
        s
    } else {
        emitted(printed_in_turn(s, prints.drop_last()), prints.last())
    }
}

/// Prints keep their order: on a running machine, writing s1, s2, ..., sn in
/// turn shows exactly their concatenation on the console.
pub proof fn lemma_prints_keep_order(s: FirmwareView, prints: Seq<Seq<u8>>)
    requires
        !s.halted,
    ensures
        printed_in_turn(s, prints).console() == s.console() + prints.flatten(),
        !printed_in_turn(s, prints).halted,
    decreases prints.len(),
{
    prints.lemma_flatten_and_flatten_alt_are_equivalent();
    if prints.len() == 0 {
        assert(s.console() + prints.flatten() =~= s.console());
    } else {
        let init = prints.drop_last();
        lemma_prints_keep_order(s, init);
        init.lemma_flatten_and_flatten_alt_are_equivalent();
        lemma_console_of_emitted(printed_in_turn(s, init), prints.last());
        assert(s.console() + init.flatten() + prints.last() =~= s.console() + prints.flatten_alt());
    }
}

/// Nothing reaches the console after shutdown: once the machine is halted,
/// any further prints leave its state, and so its console, as they were.
pub proof fn lemma_silent_after_halt(s: FirmwareView, prints: Seq<Seq<u8>>)
    requires
        s.wf(),
    ensures
        halted(s).halted,
        halted(s).wf(),
        halted(s).calls.last() == shutdown_call(),
        printed_in_turn(halted(s), prints) == halted(s),
    decreases prints.len(),
{
    if prints.len() > 0 {
        lemma_silent_after_halt(s, prints.drop_last());
    }
    if !s.halted {
        let h = halted(s);
        assert forall|i: int| 0 <= i < h.calls.len() - 1 implies #[trigger] h.calls[i] != shutdown_call() by {
            assert(h.calls[i] == s.calls[i]);
        }
    }
}

/// Writes `s` to the console, byte by byte, in order.
pub fn print(fw: &mut Firmware, s: &[u8])
    requires
        old(fw)@.wf(),
    ensures
        final(fw)@ == emitted(old(fw)@, s@),
        final(fw)@.wf(),
{
    let ghost start: FirmwareView = fw@;
    let mut i: usize = 0;
    proof {
        assert(s@.subrange(0, 0) =~= Seq::<u8>::empty());
        assert(start.calls + Seq::<u8>::empty().map_values(|c: u8| crate::sbi::putchar_call(c)) =~= start.calls);
    }
    while i < s.len()
        invariant
            i <= s.len(),
            start.wf(),
            fw@ == emitted(start, s@.subrange(0, i as int)),
            fw@.wf(),
        decreases s.len() - i,
    {
        fw.console_putchar(s[i]);
        proof {
            lemma_emitted_concat(start, s@.subrange(0, i as int), seq![s@[i as int]]);
            assert(s@.subrange(0, i as int) + seq![s@[i as int]] =~= s@.subrange(0, i + 1));
        }
        i = i + 1;
    }
    proof {
        assert(s@.subrange(0, s.len() as int) =~= s@);
    }
}

/// Writes `s` and then a linefeed.
pub fn print_line(fw: &mut Firmware, s: &[u8])
    requires
        old(fw)@.wf(),
    ensures
        final(fw)@ == emitted(old(fw)@, s@.push(10u8)),
        final(fw)@.wf(),
{
    print(fw, s);
    fw.console_putchar(10u8);
    proof {
        lemma_emitted_concat(old(fw)@, s@, seq![10u8]);
        assert(s@ + seq![10u8] =~= s@.push(10u8));
    }
}

/// Writes the decimal digits of `n`. The digits go out as they are found,
/// most significant first, with no buffer.
pub fn print_u64(fw: &mut Firmware, n: u64)
    requires
        old(fw)@.wf(),
    ensures
        final(fw)@ == emitted(old(fw)@, decimal(n as nat)),
        final(fw)@.wf(),
    decreases n,
{
    let d: u8 = (n % 10) as u8;
    if n >= 10 {
        print_u64(fw, n / 10);
    }
    fw.console_putchar(48u8 + d);
    proof {
        if n >= 10 {
            lemma_emitted_concat(old(fw)@, decimal((n / 10) as nat), seq![digit((n % 10) as nat)]);
            assert(decimal((n / 10) as nat) + seq![digit((n % 10) as nat)] =~= decimal(n as nat));
        }
    }
}

/// Writes a signed integer in decimal, with a leading minus sign when it is
/// negative.
pub fn print_i64(fw: &mut Firmware, n: i64)
    requires
        old(fw)@.wf(),
    ensures
        final(fw)@ == emitted(old(fw)@, signed_decimal(n as int)),
        final(fw)@.wf(),
{
    if n < 0 {
        fw.console_putchar(45u8);
        let magnitude: u64 = (0i128 - n as i128) as u64;
        print_u64(fw, magnitude);
        proof {
            lemma_emitted_concat(old(fw)@, seq![45u8], decimal(magnitude as nat));
        }
    } else {
        print_u64(fw, n as u64);
    }
}

/// Writes a signed integer in decimal and then a linefeed.
pub fn print_line_i64(fw: &mut Firmware, n: i64)
    requires
        old(fw)@.wf(),
    ensures
        final(fw)@ == emitted(old(fw)@, signed_decimal(n as int).push(10u8)),
        final(fw)@.wf(),
{
    print_i64(fw, n);
    fw.console_putchar(10u8);
    proof {
        lemma_emitted_concat(old(fw)@, signed_decimal(n as int), seq![10u8]);
        assert(signed_decimal(n as int) + seq![10u8] =~= signed_decimal(n as int).push(10u8));
    }
}

/// One value handed to the template formatter.
pub enum Arg {
    /// A signed integer, rendered in decimal.
    Signed(i64),
    /// An unsigned integer, rendered in decimal.
    Unsigned(u64),
    /// A byte string, passed through unchanged.
    Bytes(Vec<u8>),
    /// A single byte character.
    Char(u8),
}

/// The bytes that stand for `a` in formatted output.
pub open spec fn arg_bytes(a: Arg) -> Seq<u8> {
    match a {
        Arg::Signed(n) => signed_decimal(n as int),
        Arg::Unsigned(n) => decimal(n as nat),
        Arg::Bytes(b) => b@,
        Arg::Char(c) => seq![c],
    }
}

/// Formats `args` by `template`. Each `{}` in the template takes the next
/// argument, left to right; every other byte is copied. A `{}` left with no
/// argument is copied as it stands, and arguments left over are dropped.
pub open spec fn render(template: Seq<u8>, args: Seq<Arg>) -> Seq<u8>
    decreases template.len(),
{
    if template.len() == 0 {
        Seq::empty()
    } else if template.len() >= 2 && template[0] == 123u8 && template[1] == 125u8 && args.len() > 0 {
        arg_bytes(args[0]) + render(template.skip(2), args.skip(1))
    } else {
        seq![template[0]] + render(template.skip(1), args)
    }
}

/// Writes one argument as formatted output shows it.
fn print_arg(fw: &mut Firmware, a: &Arg)
    requires
        old(fw)@.wf(),
    ensures
        final(fw)@ == emitted(old(fw)@, arg_bytes(*a)),
        final(fw)@.wf(),
{
    match a {
        Arg::Signed(n) => print_i64(fw, *n),
        Arg::Unsigned(n) => print_u64(fw, *n),
        Arg::Bytes(b) => print(fw, b.as_slice()),
        Arg::Char(c) => fw.console_putchar(*c),
    }
}

/// Formats `args` by `template` and writes the result, byte by byte, in order.
pub fn print_fmt(fw: &mut Firmware, template: &[u8], args: &[Arg])
    requires
        old(fw)@.wf(),
    ensures
        final(fw)@ == emitted(old(fw)@, render(template@, args@)),
        final(fw)@.wf(),
{
    let ghost start: FirmwareView = fw@;
    let ghost done: Seq<u8> = Seq::empty();
    let mut i: usize = 0;
    let mut j: usize = 0;
    proof {
        assert(template@.skip(0) =~= template@);
        assert(args@.skip(0) =~= args@);
        assert(done + render(template@, args@) =~= render(template@, args@));
        assert(start.calls + done.map_values(|c: u8| crate::sbi::putchar_call(c)) =~= start.calls);
    }
    while i < template.len()
        invariant
            i <= template.len(),
            j <= args.len(),
            start.wf(),
            fw@ == emitted(start, done),
            fw@.wf(),
            render(template@, args@) == done + render(template@.skip(i as int), args@.skip(j as int)),
        decreases template.len() - i,
    {
        let ghost t = template@.skip(i as int);
        let ghost rest = args@.skip(j as int);
        if i + 1 < template.len() && template[i] == 123u8 && template[i + 1] == 125u8 && j < args.len() {
            print_arg(fw, &args[j]);
            proof {
                lemma_emitted_concat(start, done, arg_bytes(args@[j as int]));
                assert(t.skip(2) =~= template@.skip(i + 2));
                assert(rest.skip(1) =~= args@.skip(j + 1));
                assert(done + arg_bytes(rest[0]) + render(t.skip(2), rest.skip(1))
                    =~= done + (arg_bytes(rest[0]) + render(t.skip(2), rest.skip(1))));
                done = done + arg_bytes(args@[j as int]);
            }
            i = i + 2;
            j = j + 1;
        } else {
            fw.console_putchar(template[i]);
            proof {
                lemma_emitted_concat(start, done, seq![template@[i as int]]);
                assert(t.skip(1) =~= template@.skip(i + 1));
                assert(done + seq![t[0]] + render(t.skip(1), rest)
                    =~= done + (seq![t[0]] + render(t.skip(1), rest)));
                done = done + seq![template@[i as int]];
            }
            i = i + 1;
        }
    }
    proof {
        assert(template@.skip(i as int).len() == 0);
        assert(done + Seq::<u8>::empty() =~= done);
    }
}

/// Formats `args` by `template`, writes the result and then a linefeed.
pub fn print_line_fmt(fw: &mut Firmware, template: &[u8], args: &[Arg])
    requires
        old(fw)@.wf(),
    ensures
        final(fw)@ == emitted(old(fw)@, render(template@, args@).push(10u8)),
        final(fw)@.wf(),
{
    print_fmt(fw, template, args);
    fw.console_putchar(10u8);
    proof {
        lemma_emitted_concat(old(fw)@, render(template@, args@), seq![10u8]);
        assert(render(template@, args@) + seq![10u8] =~= render(template@, args@).push(10u8));
    }
}

} // verus!
