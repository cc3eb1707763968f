//! The shift-register driver's wire protocol: the exact plan of line
//! operations that pushes an 8-bit LED pattern onto a serial-in,
//! parallel-out shift register over three digital lines (data, clock,
//! latch), most significant bit first, and latches it to the outputs.

use vstd::prelude::*;

verus! {

/// The timing budget of one whole update, in microseconds.
pub const TOTAL_BUDGET_US: u32 = 10000;

/// One sub-phase of a positive pulse: the budget split over 3 phases of 9
/// sub-phases each.
pub const SUB_PHASE_US: u32 = TOTAL_BUDGET_US / 3 / 9;

/// One of the three digital lines driving the shift register.
#[derive(Clone, Copy, PartialEq, Eq, Structural, Debug)]
pub enum Pin {
    /// The serial data line.
    Data,
    /// The shift clock line.
    Clock,
    /// The output latch line.
    Latch,
}

/// One operation of the wire protocol, in the order performed.
#[derive(Clone, Copy, PartialEq, Eq, Structural, Debug)]
pub enum LineOp {
    /// Drive the line high (`true`) or low (`false`).
    Drive(Pin, bool),
    /// Busy-wait this many microseconds.
    Delay(u32),
}

/// Whether bit `k` of `pattern` is set.
pub open spec fn bit_set(pattern: u8, k: u8) -> bool {
    pattern & (1u8 << k) != 0
}

/// A positive pulse on one line: wait, drive high, wait, drive low, wait.
pub open spec fn pulse_ops(p: Pin) -> Seq<LineOp> {
    seq![
        LineOp::Delay(SUB_PHASE_US),
        LineOp::Drive(p, true),
        LineOp::Delay(SUB_PHASE_US),
        LineOp::Drive(p, false),
        LineOp::Delay(SUB_PHASE_US),
    ]
}

/// The operations that send one bit: set the data line to bit `7 - j` of
/// the pattern, then pulse the clock once.
pub open spec fn bit_ops(pattern: u8, j: int) -> Seq<LineOp> {
    seq![LineOp::Drive(Pin::Data, bit_set(pattern, (7 - j) as u8))] + pulse_ops(Pin::Clock)
}

/// The operations that send bits `j..8` of the pattern, most significant
/// remaining bit first.
pub open spec fn bits_ops(pattern: u8, j: int) -> Seq<LineOp>
    decreases 8 - j,
{
    if j >= 8 {
        Seq::empty()
    } else {
        bit_ops(pattern, j) + bits_ops(pattern, j + 1)
    }
}

/// The whole update plan for a pattern: all eight bits, most significant
/// first, then one positive pulse on the latch line.
pub open spec fn spec_update_ops(pattern: u8) -> Seq<LineOp> {
    bits_ops(pattern, 0) + pulse_ops(Pin::Latch)
}

/// Append one positive pulse on line `p`.
fn push_pulse(v: &mut Vec<LineOp>, p: Pin)
    ensures
        final(v)@ == old(v)@ + pulse_ops(p),
{
    v.push(LineOp::Delay(SUB_PHASE_US));
    v.push(LineOp::Drive(p, true));
    v.push(LineOp::Delay(SUB_PHASE_US));
    v.push(LineOp::Drive(p, false));
    v.push(LineOp::Delay(SUB_PHASE_US));
    proof {
        assert(v@ =~= old(v)@ + pulse_ops(p));
    }
}

/// The plan that presents `pattern` on the shift register's outputs: for
/// bit positions 7 down to 0, set the data line to the bit's value and
/// pulse the clock; after all eight bits, pulse the latch. The caller
/// performs each operation in order on the physical lines.
#[verifier::loop_isolation(false)]
pub fn update_ops(pattern: u8) -> (r: Vec<LineOp>)
    ensures
        r@ == spec_update_ops(pattern),
{
    let mut v: Vec<LineOp> = Vec::new();
    let mut j: usize = 0;
    while j < 8
        invariant
            0 <= j <= 8,
            v@ + bits_ops(pattern, j as int) == bits_ops(pattern, 0),
        decreases 8 - j,
    {
        let ghost prev = v@;
        let k: u8 = 7 - (j as u8);
        let bit = pattern & (1u8 << k) != 0;
        v.push(LineOp::Drive(Pin::Data, bit));
        push_pulse(&mut v, Pin::Clock);
        proof {
            assert(v@ =~= prev + bit_ops(pattern, j as int));
            assert(bits_ops(pattern, j as int) == bit_ops(pattern, j as int) + bits_ops(
                pattern,
                j + 1,
            ));
            assert(v@ + bits_ops(pattern, j + 1) =~= prev + bits_ops(pattern, j as int));
        }
        j += 1;
    }
    proof {
        assert(bits_ops(pattern, 8) =~= Seq::<LineOp>::empty());
        assert(v@ =~= bits_ops(pattern, 0));
    }
    push_pulse(&mut v, Pin::Latch);
    v
}

/// How many operations send one bit.
pub open spec fn ops_per_bit() -> int {
    6
}

/// The length of the tail of the plan from bit `j` on.
proof fn lemma_bits_ops_len(pattern: u8, j: int)
    requires
        0 <= j <= 8,
    ensures
        bits_ops(pattern, j).len() == ops_per_bit() * (8 - j),
    decreases 8 - j,
{
    if j < 8 {
        lemma_bits_ops_len(pattern, j + 1);
    }
}

/// Where each bit stands in the tail of the plan that sends bits `j..8`.
proof fn lemma_bits_ops_index(pattern: u8, j: int, m: int)
    requires
        0 <= j <= m < 8,
    ensures
        bits_ops(pattern, j)[ops_per_bit() * (m - j)] == LineOp::Drive(
            Pin::Data,
            bit_set(pattern, (7 - m) as u8),
        ),
        bits_ops(pattern, j)[ops_per_bit() * (m - j) + 2] == LineOp::Drive(Pin::Clock, true),
        bits_ops(pattern, j)[ops_per_bit() * (m - j) + 4] == LineOp::Drive(Pin::Clock, false),
    decreases 8 - j,
{
    lemma_bits_ops_len(pattern, j);
    if j < m {
        lemma_bits_ops_index(pattern, j + 1, m);
    }
}

/// The layout of the update plan for any pattern: 53 operations in all;
/// the `j`-th group of six sets the data line to bit `7 - j` — the most
/// significant bit is shifted out first — and pulses the clock high then
/// low around it; the final five operations pulse the latch line once.
pub proof fn lemma_update_ops_layout(pattern: u8, j: int)
    requires
        0 <= j < 8,
    ensures
        spec_update_ops(pattern).len() == 53,
        spec_update_ops(pattern)[ops_per_bit() * j] == LineOp::Drive(
            Pin::Data,
            bit_set(pattern, (7 - j) as u8),
        ),
        spec_update_ops(pattern)[ops_per_bit() * j + 2] == LineOp::Drive(Pin::Clock, true),
        spec_update_ops(pattern)[ops_per_bit() * j + 4] == LineOp::Drive(Pin::Clock, false),
        spec_update_ops(pattern)[49] == LineOp::Drive(Pin::Latch, true),
        spec_update_ops(pattern)[51] == LineOp::Drive(Pin::Latch, false),
{
    lemma_bits_ops_len(pattern, 0);
    lemma_bits_ops_index(pattern, 0, j);
}

} // verus!
