//! The signals on the three lines and how one byte is clocked out.
use vstd::prelude::*;

verus! {

/// Minimum wait after raising the clock before the data line changes.
pub const SETUP_MICROS: u32 = 15;

/// Minimum wait after setting the data line before the clock falls.
pub const HOLD_MICROS: u32 = 5;

/// One of the three output lines of the display's serial interface.
#[derive(Clone, Copy, Debug, PartialEq, Eq, Structural)]
pub enum Line {
    Clock,
    Data,
    Strobe,
}

/// One elementary action on the lines, or a pause between two of them.
#[derive(Clone, Copy, Debug, PartialEq, Eq, Structural)]
pub enum Step {
    /// Make the line available for use.
    Export(Line),
    /// Release the line.
    Unexport(Line),
    /// Configure the line as an output.
    MakeOutput(Line),
    /// Drive the line high (`true`) or low (`false`).
    Drive(Line, bool),
    /// Wait at least this many microseconds.
    WaitMicros(u32),
    /// Wait at least this many milliseconds.
    WaitMillis(u64),
}

/// Bit `i` of `b` counted from the most significant one (`i == 0`).
pub open spec fn msb_bit(b: u8, i: int) -> bool {
    (b >> ((7 - i) as u8)) & 1u8 == 1u8
}

/// The steps that clock out bit `i` (most significant first) of `b`.
pub open spec fn bit_steps(b: u8, i: int) -> Seq<Step> {
    seq![
        Step::Drive(Line::Clock, true),
        Step::WaitMicros(SETUP_MICROS),
        Step::Drive(Line::Data, msb_bit(b, i)),
        Step::WaitMicros(HOLD_MICROS),
        Step::Drive(Line::Clock, false),
    ]
}

/// The steps that clock out the `n` most significant bits of `b`.
pub open spec fn leading_bits_steps(b: u8, n: nat) -> Seq<Step>
    decreases n,
{
    if n == 0 {
        seq![]
    } else {
        leading_bits_steps(b, (n - 1) as nat) + bit_steps(b, n - 1)
    }
}

/// The steps that transmit one byte.
pub open spec fn byte_steps(b: u8) -> Seq<Step> {
    leading_bits_steps(b, 8)
}

/// The steps that transmit the bytes of `bs` in order.
pub open spec fn bytes_steps(bs: Seq<u8>) -> Seq<Step>
    decreases bs.len(),
{
    if bs.len() == 0 {
        seq![]
    } else {
        bytes_steps(bs.drop_last()) + byte_steps(bs.last())
    }
}

/// Appending a byte to a run of bytes appends its steps.
pub proof fn lemma_bytes_steps_push(bs: Seq<u8>, b: u8)
    ensures
        bytes_steps(bs.push(b)) == bytes_steps(bs) + byte_steps(b),
{
    assert(bs.push(b).drop_last() =~= bs);
}

/// The number of rising edges on the clock line among `s`.
pub open spec fn clock_pulses(s: Seq<Step>) -> nat
    decreases s.len(),
{
    if s.len() == 0 {
        0
    } else {
        clock_pulses(s.drop_last()) + if s.last() == Step::Drive(Line::Clock, true) {
            1nat
        } else {
            0nat
        }
    }
}

/// Whether any of `s` acts on the strobe line.
pub open spec fn touches_strobe(s: Seq<Step>) -> bool {
    exists|k: int|
        0 <= k < s.len() && (#[trigger] s[k] == Step::Drive(Line::Strobe, true) || s[k]
            == Step::Drive(Line::Strobe, false))
}

/// The clock pulses of a concatenation are those of its parts.
pub proof fn lemma_clock_pulses_append(a: Seq<Step>, b: Seq<Step>)
    ensures
        clock_pulses(a + b) == clock_pulses(a) + clock_pulses(b),
    decreases b.len(),
{
    if b.len() == 0 {
        assert(a + b == a);
    } else {
        lemma_clock_pulses_append(a, b.drop_last());
        assert((a + b).drop_last() == a + b.drop_last());
    }
}

proof fn lemma_leading_bits_layout(b: u8, n: nat)
    requires
        n <= 8,
    ensures
        leading_bits_steps(b, n).len() == 5 * n,
        clock_pulses(leading_bits_steps(b, n)) == n,
        !touches_strobe(leading_bits_steps(b, n)),
        forall|i: int|
            0 <= i < n ==> {
                &&& #[trigger] leading_bits_steps(b, n)[5 * i] == Step::Drive(Line::Clock, true)
                &&& leading_bits_steps(b, n)[5 * i + 1] == Step::WaitMicros(SETUP_MICROS)
                &&& leading_bits_steps(b, n)[5 * i + 2] == Step::Drive(Line::Data, msb_bit(b, i))
                &&& leading_bits_steps(b, n)[5 * i + 3] == Step::WaitMicros(HOLD_MICROS)
                &&& leading_bits_steps(b, n)[5 * i + 4] == Step::Drive(Line::Clock, false)
            },
    decreases n,
{
    if n > 0 {
        let m = (n - 1) as nat;
        lemma_leading_bits_layout(b, m);
        let pre = leading_bits_steps(b, m);
        let bit = bit_steps(b, m as int);
        lemma_clock_pulses_append(pre, bit);
        assert(clock_pulses(bit) == 1) by {
            reveal_with_fuel(clock_pulses, 6);
        }
        let all = leading_bits_steps(b, n);
        assert(all == pre + bit);
        assert forall|i: int| 0 <= i < n implies {
            &&& #[trigger] all[5 * i] == Step::Drive(Line::Clock, true)
            &&& all[5 * i + 1] == Step::WaitMicros(SETUP_MICROS)
            &&& all[5 * i + 2] == Step::Drive(Line::Data, msb_bit(b, i))
            &&& all[5 * i + 3] == Step::WaitMicros(HOLD_MICROS)
            &&& all[5 * i + 4] == Step::Drive(Line::Clock, false)
        } by {
            if i < m {
                assert(pre[5 * i] == Step::Drive(Line::Clock, true));
            }
        }
        assert forall|k: int|
            0 <= k < all.len() implies !(#[trigger] all[k] == Step::Drive(Line::Strobe, true)
                || all[k] == Step::Drive(Line::Strobe, false)) by {
            if k < pre.len() {
                assert(all[k] == pre[k]);
            }
        }
    }
}

/// Sending a byte gives exactly eight clock pulses; while the clock is high
/// for pulse `i` the data line carries bit `i` of the byte, most significant
/// first, and the strobe line is left alone.
pub proof fn lemma_byte_framing(b: u8)
    ensures
        byte_steps(b).len() == 40,
        clock_pulses(byte_steps(b)) == 8,
        !touches_strobe(byte_steps(b)),
        forall|i: int|
            0 <= i < 8 ==> {
                &&& #[trigger] byte_steps(b)[5 * i] == Step::Drive(Line::Clock, true)
                &&& byte_steps(b)[5 * i + 2] == Step::Drive(Line::Data, msb_bit(b, i))
                &&& byte_steps(b)[5 * i + 4] == Step::Drive(Line::Clock, false)
            },
{
    lemma_leading_bits_layout(b, 8);
}

proof fn lemma_mask_selects_bit(b: u8, i: u8)
    requires
        i < 8,
    ensures
        (b & (0x80u8 >> i) != 0) == ((b >> (7 - i) as u8) & 1u8 == 1u8),
{
    assert((b & (0x80u8 >> i) != 0) == ((b >> (7 - i) as u8) & 1u8 == 1u8)) by (bit_vector)
        requires
            i < 8,
    ;
}

/// Appends to `steps` what transmits `b`: eight clock pulses, most
/// significant bit first, each bit placed on the data line while the clock
/// is high.
pub fn push_byte(steps: &mut Vec<Step>, b: u8)
    ensures
        final(steps)@ == old(steps)@ + byte_steps(b),
{
    let ghost start = steps@;
    let mut i: u8 = 0;
    while i < 8
        invariant
            i <= 8,
            steps@ == start + leading_bits_steps(b, i as nat),
        decreases 8 - i,
    {
        let mask: u8 = 0x80u8 >> i;
        proof {
            lemma_mask_selects_bit(b, i);
        }
        steps.push(Step::Drive(Line::Clock, true));
        steps.push(Step::WaitMicros(SETUP_MICROS));
        steps.push(Step::Drive(Line::Data, b & mask != 0));
        steps.push(Step::WaitMicros(HOLD_MICROS));
        steps.push(Step::Drive(Line::Clock, false));
        assert(steps@ == start + leading_bits_steps(b, (i + 1) as nat));
        i = i + 1;
    }
}

} // verus!
