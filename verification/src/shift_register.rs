use vstd::prelude::*;

verus! {

/// One transition driven on a line of the serial interface: the value the
/// named line is set to. A frame of these is the whole observable behaviour
/// of the driver.
#[derive(Clone, Copy, Debug, PartialEq, Eq, Structural)]
pub enum LineOp {
    /// Set the serial data line.
    SetData(bool),
    /// Set the clock line; a rising edge shifts the data line into the chip.
    SetClock(bool),
    /// Set the lock (latch) line; a rising edge commits the shifted chain to
    /// the parallel outputs.
    SetLock(bool),
}

/// The mathematical model of the attached register chip: an eight-stage
/// internal shift chain, eight latched parallel outputs, and the last level
/// seen on each of its three input lines.
#[verifier::ext_equal]
pub struct ChipModel {
    pub chain: Seq<bool>,
    pub out: Seq<bool>,
    pub clock: bool,
    pub lock: bool,
    pub data: bool,
}

impl ChipModel {
    /// Chain and output stages both number eight.
    pub open spec fn wf(self) -> bool {
        self.chain.len() == 8 && self.out.len() == 8
    }

    /// Both edge-triggered inputs rest low, so the next pulse on either is a
    /// clean rising edge.
    pub open spec fn idle(self) -> bool {
        !self.clock && !self.lock
    }
}

/// How the chip reacts to one input transition: a rising clock edge shifts
/// the data level into the chain (stages move toward index 0, the data level
/// enters at the far end), a rising lock edge copies the chain to the
/// parallel outputs, and no other transition changes any stage.
pub open spec fn spec_step(m: ChipModel, op: LineOp) -> ChipModel {
    match op {
        LineOp::SetData(b) => ChipModel { data: b, ..m },
        LineOp::SetClock(b) => if b && !m.clock {
            ChipModel {
                clock: true,
                chain: m.chain.subrange(1, m.chain.len() as int).push(m.data),
                ..m
            }
        } else {
            ChipModel { clock: b, ..m }
        },
        LineOp::SetLock(b) => if b && !m.lock {
            ChipModel { lock: true, out: m.chain, ..m }
        } else {
            ChipModel { lock: b, ..m }
        },
    }
}

/// The chip after reacting to each transition of `ops` in order.
pub open spec fn spec_run(m: ChipModel, ops: Seq<LineOp>) -> ChipModel
    decreases ops.len(),
{
    if ops.len() == 0 {
        m
    } else {
        spec_run(spec_step(m, ops[0]), ops.skip(1))
    }
}

/// Running a concatenation is running the parts in order.
pub proof fn lemma_run_concat(m: ChipModel, a: Seq<LineOp>, b: Seq<LineOp>)
    ensures
        spec_run(m, a + b) == spec_run(spec_run(m, a), b),
    decreases a.len(),
{
    if a.len() == 0 {
        assert(a + b =~= b);
    } else {
        assert((a + b)[0] == a[0]);
        assert((a + b).skip(1) =~= a.skip(1) + b);
        lemma_run_concat(spec_step(m, a[0]), a.skip(1), b);
    }
}

/// Running one more transition after a run is one more step.
pub proof fn lemma_run_snoc(m: ChipModel, ops: Seq<LineOp>, op: LineOp)
    ensures
        spec_run(m, ops.push(op)) == spec_step(spec_run(m, ops), op),
{
    assert(ops.push(op) =~= ops + seq![op]);
    lemma_run_concat(m, ops, seq![op]);
    assert(seq![op].skip(1) =~= Seq::<LineOp>::empty());
    reveal_with_fuel(spec_run, 3);
}

/// The three transitions that shift one bit in: present the bit on the data
/// line, then pulse the clock.
pub open spec fn bit_ops(b: bool) -> Seq<LineOp> {
    seq![LineOp::SetData(b), LineOp::SetClock(true), LineOp::SetClock(false)]
}

/// The transitions that shift a whole bit sequence in, lowest index first.
pub open spec fn shift_ops(bits: Seq<bool>) -> Seq<LineOp>
    decreases bits.len(),
{
    if bits.len() == 0 {
        Seq::empty()
    } else {
        bit_ops(bits[0]) + shift_ops(bits.skip(1))
    }
}

/// One full frame: shift the eight bits in in index order, then pulse the
/// lock line once to commit them. The index order is the wiring convention:
/// `bits[i]` ends up on parallel output `i`.
pub open spec fn frame_ops(bits: Seq<bool>) -> Seq<LineOp> {
    shift_ops(bits) + seq![LineOp::SetLock(true), LineOp::SetLock(false)]
}

/// Effect of one bit's transitions: the chain takes the bit at its far end,
/// everything else (outputs included) is untouched, and the clock rests low
/// again.
proof fn lemma_bit_ops_effect(m: ChipModel, b: bool)
    requires
        m.wf(),
        !m.clock,
    ensures
        spec_run(m, bit_ops(b)) == (ChipModel {
            chain: m.chain.subrange(1, 8).push(b),
            data: b,
            clock: false,
            ..m
        }),
{
    reveal_with_fuel(spec_run, 5);
    let s = bit_ops(b);
    assert(s.skip(1) =~= seq![LineOp::SetClock(true), LineOp::SetClock(false)]);
    assert(s.skip(1).skip(1) =~= seq![LineOp::SetClock(false)]);
    assert(s.skip(1).skip(1).skip(1) =~= Seq::<LineOp>::empty());
}

/// Effect of shifting `bits` in from an idle clock: the chain's first stages
/// fall off, `bits` enter behind them, and the outputs never move.
proof fn lemma_shift_ops_effect(m: ChipModel, bits: Seq<bool>)
    requires
        m.wf(),
        !m.clock,
        bits.len() <= 8,
    ensures
        ({
            let m2 = spec_run(m, shift_ops(bits));
            &&& m2.chain == m.chain.subrange(bits.len() as int, 8) + bits
            &&& m2.out == m.out
            &&& m2.clock == false
            &&& m2.lock == m.lock
            &&& m2.data == (if bits.len() == 0 {
                m.data
            } else {
                bits.last()
            })
            &&& m2.wf()
        }),
    decreases bits.len(),
{
    if bits.len() == 0 {
        reveal_with_fuel(spec_run, 2);
        assert(m.chain.subrange(0, 8) + bits =~= m.chain);
    } else {
        let b = bits[0];
        let rest = bits.skip(1);
        lemma_run_concat(m, bit_ops(b), shift_ops(rest));
        lemma_bit_ops_effect(m, b);
        let m1 = spec_run(m, bit_ops(b));
        lemma_shift_ops_effect(m1, rest);
        assert(m1.chain.subrange(rest.len() as int, 8) + rest =~= m.chain.subrange(
            bits.len() as int,
            8,
        ) + bits);
    }
}

/// Loading one frame into an idle chip: the parallel outputs and the chain
/// both end up holding exactly the bits, and the chip is idle again.
pub proof fn lemma_frame_ops_load(m: ChipModel, bits: Seq<bool>)
    requires
        m.wf(),
        m.idle(),
        bits.len() == 8,
    ensures
        ({
            let m2 = spec_run(m, frame_ops(bits));
            &&& m2.out == bits
            &&& m2.chain == bits
            &&& m2.data == bits.last()
            &&& m2.wf()
            &&& m2.idle()
        }),
{
    lemma_run_concat(m, shift_ops(bits), seq![LineOp::SetLock(true), LineOp::SetLock(false)]);
    lemma_shift_ops_effect(m, bits);
    let m1 = spec_run(m, shift_ops(bits));
    assert(m1.chain =~= bits);
    reveal_with_fuel(spec_run, 4);
    let locks = seq![LineOp::SetLock(true), LineOp::SetLock(false)];
    assert(locks.skip(1) =~= seq![LineOp::SetLock(false)]);
    assert(locks.skip(1).skip(1) =~= Seq::<LineOp>::empty());
}

/// Transitions that never raise the lock line leave the parallel outputs
/// untouched, whatever else they do.
pub proof fn lemma_no_lock_rise_preserves_out(m: ChipModel, ops: Seq<LineOp>)
    requires
        forall|i: int| 0 <= i < ops.len() ==> ops[i] != LineOp::SetLock(true),
    ensures
        spec_run(m, ops).out == m.out,
    decreases ops.len(),
{
    if ops.len() > 0 {
        assert(spec_step(m, ops[0]).out == m.out);
        assert(forall|i: int|
            0 <= i < ops.skip(1).len() ==> ops.skip(1)[i] != LineOp::SetLock(true));
        lemma_no_lock_rise_preserves_out(spec_step(m, ops[0]), ops.skip(1));
    }
}

/// The shift phase consists of data and clock transitions only.
proof fn lemma_shift_ops_shape(bits: Seq<bool>)
    ensures
        shift_ops(bits).len() == 3 * bits.len(),
        forall|i: int|
            0 <= i < shift_ops(bits).len() ==> shift_ops(bits)[i] != LineOp::SetLock(true),
    decreases bits.len(),
{
    if bits.len() > 0 {
        lemma_shift_ops_shape(bits.skip(1));
        assert forall|i: int| 0 <= i < shift_ops(bits).len() implies shift_ops(bits)[i]
            != LineOp::SetLock(true) by {
            if i < 3 {
                assert(shift_ops(bits)[i] == bit_ops(bits[0])[i]);
            } else {
                assert(shift_ops(bits)[i] == shift_ops(bits.skip(1))[i - 3]);
            }
        }
    }
}

/// A load is atomic from the outside: observed after any prefix of the
/// frame's transitions, the parallel outputs hold either their previous
/// value (everywhere before the lock pulse) or the new bits (from the lock
/// pulse on) — never a partially shifted pattern.
pub proof fn lemma_load_is_atomic(m: ChipModel, bits: Seq<bool>, k: int)
    requires
        m.wf(),
        m.idle(),
        bits.len() == 8,
        0 <= k <= 26,
    ensures
        frame_ops(bits).len() == 26,
        k <= 24 ==> spec_run(m, frame_ops(bits).take(k)).out == m.out,
        k >= 25 ==> spec_run(m, frame_ops(bits).take(k)).out == bits,
{
    lemma_shift_ops_shape(bits);
    let f = frame_ops(bits);
    if k <= 24 {
        assert(f.take(k) =~= shift_ops(bits).take(k));
        assert(forall|i: int|
            0 <= i < f.take(k).len() ==> f.take(k)[i] != LineOp::SetLock(true));
        lemma_no_lock_rise_preserves_out(m, f.take(k));
    } else if k == 25 {
        assert(f.take(k) =~= shift_ops(bits) + seq![LineOp::SetLock(true)]);
        lemma_run_concat(m, shift_ops(bits), seq![LineOp::SetLock(true)]);
        lemma_shift_ops_effect(m, bits);
        let m1 = spec_run(m, shift_ops(bits));
        assert(m1.chain =~= bits);
        reveal_with_fuel(spec_run, 3);
        assert(seq![LineOp::SetLock(true)].skip(1) =~= Seq::<LineOp>::empty());
    } else {
        assert(f.take(k) =~= f);
        lemma_frame_ops_load(m, bits);
    }
}

/// Re-loading the pattern the outputs already hold is unobservable: at every
/// instant of the second load the outputs still hold that same pattern.
pub proof fn lemma_reload_unobservable(m: ChipModel, bits: Seq<bool>, k: int)
    requires
        m.wf(),
        m.idle(),
        bits.len() == 8,
        m.out == bits,
        0 <= k <= 26,
    ensures
        spec_run(m, frame_ops(bits).take(k)).out == m.out,
{
    lemma_load_is_atomic(m, bits, k);
}

/// Two consecutive loads expose exactly two new output states: the first
/// pattern appears at the first lock pulse and holds until the second lock
/// pulse replaces it with the second pattern; no transition in between moves
/// the outputs.
pub proof fn lemma_two_loads_two_states(
    m: ChipModel,
    first: Seq<bool>,
    second: Seq<bool>,
    k: int,
)
    requires
        m.wf(),
        m.idle(),
        first.len() == 8,
        second.len() == 8,
        0 <= k <= 52,
    ensures
        (frame_ops(first) + frame_ops(second)).len() == 52,
        k <= 24 ==> spec_run(m, (frame_ops(first) + frame_ops(second)).take(k)).out == m.out,
        25 <= k <= 50 ==> spec_run(m, (frame_ops(first) + frame_ops(second)).take(k)).out
            == first,
        k >= 51 ==> spec_run(m, (frame_ops(first) + frame_ops(second)).take(k)).out == second,
{
    lemma_shift_ops_shape(first);
    lemma_shift_ops_shape(second);
    let ops = frame_ops(first) + frame_ops(second);
    if k <= 26 {
        assert(ops.take(k) =~= frame_ops(first).take(k));
        lemma_load_is_atomic(m, first, k);
    } else {
        assert(ops.take(k) =~= frame_ops(first) + frame_ops(second).take(k - 26));
        lemma_run_concat(m, frame_ops(first), frame_ops(second).take(k - 26));
        lemma_frame_ops_load(m, first);
        let m1 = spec_run(m, frame_ops(first));
        lemma_load_is_atomic(m1, second, k - 26);
    }
}

/// Executable reference model of the attached register chip, stepped with the
/// very transitions the driver emits; tests observe the parallel outputs on
/// it.
pub struct ShiftRegisterChip {
    pub chain: [bool; 8],
    pub out: [bool; 8],
    pub clock: bool,
    pub lock: bool,
    pub data: bool,
}

impl View for ShiftRegisterChip {
    type V = ChipModel;

    open spec fn view(&self) -> ChipModel {
        ChipModel {
            chain: self.chain@,
            out: self.out@,
            clock: self.clock,
            lock: self.lock,
            data: self.data,
        }
    }
}

impl ShiftRegisterChip {
    /// A powered-up chip: every stage low, every input line low.
    pub fn new() -> (chip: ShiftRegisterChip)
        ensures
            chip@.wf(),
            chip@.idle(),
            !chip@.data,
            forall|i: int| 0 <= i < 8 ==> !chip@.chain[i] && !chip@.out[i],
    {
        ShiftRegisterChip {
            chain: [false, false, false, false, false, false, false, false],
            out: [false, false, false, false, false, false, false, false],
            clock: false,
            lock: false,
            data: false,
        }
    }

    /// Reacts to one input transition, exactly as the model says.
    pub fn apply(&mut self, op: LineOp)
        ensures
            final(self)@ == spec_step(old(self)@, op),
    {
        match op {
            LineOp::SetData(b) => {
                self.data = b;
            },
            LineOp::SetClock(b) => {
                if b && !self.clock {
                    self.chain = [
                        self.chain[1],
                        self.chain[2],
                        self.chain[3],
                        self.chain[4],
                        self.chain[5],
                        self.chain[6],
                        self.chain[7],
                        self.data,
                    ];
                    proof {
                        assert(self.chain@ =~= old(self)@.chain.subrange(1, 8).push(
                            old(self)@.data,
                        ));
                    }
                }
                self.clock = b;
            },
            LineOp::SetLock(b) => {
                if b && !self.lock {
                    self.out = self.chain;
                }
                self.lock = b;
            },
        }
        proof {
            assert(self@ =~= spec_step(old(self)@, op));
        }
    }

    /// Reacts to a whole sequence of transitions in order.
    pub fn apply_all(&mut self, ops: &Vec<LineOp>)
        ensures
            final(self)@ == spec_run(old(self)@, ops@),
    {
        let mut i: usize = 0;
        while i < ops.len()
            invariant
                i <= ops.len(),
                self@ == spec_run(old(self)@, ops@.take(i as int)),
            decreases ops.len() - i,
        {
            let ghost prev = self@;
            self.apply(ops[i]);
            proof {
                assert(ops@.take(i + 1 as int).drop_last() =~= ops@.take(i as int));
                assert(ops@.take(i + 1 as int).last() == ops@[i as int]);
                lemma_run_snoc(old(self)@, ops@.take(i as int), ops@[i as int]);
                assert(ops@.take(i as int).push(ops@[i as int]) =~= ops@.take(i + 1 as int));
            }
            i = i + 1;
        }
        proof {
            assert(ops@.take(ops@.len() as int) =~= ops@);
        }
    }

    /// The current parallel output levels.
    pub fn outputs(&self) -> (o: [bool; 8])
        ensures
            o@ == self@.out,
    {
        self.out
    }
}

/// The eight bits of a pattern as line levels: 1 is high.
pub open spec fn bit_levels(bits: Seq<u8>) -> Seq<bool> {
    Seq::new(bits.len(), |i: int| bits[i] == 1)
}

/// The serial output driver. It owns the three output lines — lock (latch),
/// clock, data — and holds only the level it last drove each line to; the
/// external latch, not the driver, is the durable state between loads.
pub struct ShiftRegister {
    pub lock: bool,
    pub clock: bool,
    pub data: bool,
}

impl ShiftRegister {
    /// Between frames the clock and lock lines rest low, so every pulse of
    /// the next frame is a clean rising edge.
    pub open spec fn lines_idle(self) -> bool {
        !self.clock && !self.lock
    }

    /// A driver with all three lines driven low.
    pub fn new() -> (d: ShiftRegister)
        ensures
            d.lines_idle(),
            !d.data,
    {
        ShiftRegister { lock: false, clock: false, data: false }
    }

    /// Serialises an eight-bit pattern into one frame of line transitions:
    /// for each bit in index order, present it on the data line and pulse the
    /// clock; after all eight, pulse the lock line once. Driving the returned
    /// transitions in order is the whole of the driver's observable
    /// behaviour; `lemma_frame_ops_load` says the attached chip then holds
    /// exactly this pattern, and `lemma_load_is_atomic` that its outputs
    /// moved only at the lock pulse.
    pub fn write_array(&mut self, bits: &[u8; 8]) -> (ops: Vec<LineOp>)
        requires
            old(self).lines_idle(),
            forall|i: int| 0 <= i < 8 ==> bits@[i] == 0 || bits@[i] == 1,
        ensures
            final(self).lines_idle(),
            ops@ == frame_ops(bit_levels(bits@)),
    {
        let ghost levels = bit_levels(bits@);
        let mut ops: Vec<LineOp> = Vec::new();
        let mut i: usize = 0;
        while i < 8
            invariant
                i <= 8,
                self.lines_idle(),
                forall|j: int| 0 <= j < 8 ==> bits@[j] == 0 || bits@[j] == 1,
                levels == bit_levels(bits@),
                ops@ == shift_ops(levels.take(i as int)),
            decreases 8 - i,
        {
            let level = bits[i] == 1;
            self.data = level;
            ops.push(LineOp::SetData(level));
            self.clock = true;
            ops.push(LineOp::SetClock(true));
            self.clock = false;
            ops.push(LineOp::SetClock(false));
            proof {
                lemma_shift_ops_snoc(levels.take(i as int), levels[i as int]);
                assert(levels.take(i as int).push(levels[i as int]) =~= levels.take(
                    i + 1 as int,
                ));
                assert(ops@ =~= shift_ops(levels.take(i as int)) + bit_ops(levels[i as int]));
            }
            i = i + 1;
        }
        self.lock = true;
        ops.push(LineOp::SetLock(true));
        self.lock = false;
        ops.push(LineOp::SetLock(false));
        proof {
            assert(levels.take(8) =~= levels);
            assert(ops@ =~= frame_ops(levels));
        }
        ops
    }
}

/// Appending one more bit to the shift phase appends its three transitions.
proof fn lemma_shift_ops_snoc(bits: Seq<bool>, b: bool)
    ensures
        shift_ops(bits.push(b)) == shift_ops(bits) + bit_ops(b),
    decreases bits.len(),
{
    if bits.len() == 0 {
        assert(bits.push(b)[0] == b);
        assert(bits.push(b).skip(1) =~= Seq::<bool>::empty());
        assert(shift_ops(bits) + bit_ops(b) =~= bit_ops(b) + shift_ops(Seq::<bool>::empty()));
    } else {
        assert(bits.push(b)[0] == bits[0]);
        assert(bits.push(b).skip(1) =~= bits.skip(1).push(b));
        lemma_shift_ops_snoc(bits.skip(1), b);
        assert(bit_ops(bits[0]) + (shift_ops(bits.skip(1)) + bit_ops(b)) =~= (bit_ops(bits[0])
            + shift_ops(bits.skip(1))) + bit_ops(b));
    }
}

/// Drives one frame from the driver into the chip model: on return the
/// chip's parallel outputs hold exactly the pattern, and both sides are idle
/// again, ready for the next load.
pub fn load(driver: &mut ShiftRegister, chip: &mut ShiftRegisterChip, bits: &[u8; 8])
    requires
        old(driver).lines_idle(),
        old(chip)@.wf(),
        old(chip)@.idle(),
        forall|i: int| 0 <= i < 8 ==> bits@[i] == 0 || bits@[i] == 1,
    ensures
        final(driver).lines_idle(),
        final(chip)@.wf(),
        final(chip)@.idle(),
        final(chip)@.out == bit_levels(bits@),
        final(chip)@.chain == bit_levels(bits@),
{
    let ops = driver.write_array(bits);
    chip.apply_all(&ops);
    proof {
        lemma_frame_ops_load(old(chip)@, bit_levels(bits@));
    }
}

} // verus!
