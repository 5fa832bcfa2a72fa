//! The display: its pins, its settings, and the plan behind each operation.
use vstd::prelude::*;

use crate::scope::Scope;
use crate::error::GpioError;
use crate::transfer::{
    lemma_failure_stops_transfer, lemma_success_runs_whole_plan, Transfer, TransferView,
};
use crate::wire::{byte_steps, bytes_steps, lemma_bytes_steps_push, push_byte, Line, Step};

verus! {

/// Command byte: clear the screen and put the cursor home.
pub const CLEAR_DISPLAY: u8 = 0x01;

/// Command byte: the next byte is a linear cursor address.
pub const SET_CURSOR: u8 = 0x02;

/// Command byte: the next byte is the brightness level.
pub const SET_INTENSITY: u8 = 0x04;

/// How long each half of the strobe pulse lasts.
pub const STROBE_MILLIS: u64 = 5;

/// How long the display needs to settle once its lines are outputs.
pub const SETTLE_MILLIS: u64 = 500;

/// The address byte for column `col` of row `row`: rows follow each other,
/// and addresses start at one; the sum wraps modulo 256.
pub open spec fn cursor_address(column_count: u8, col: u8, row: u8) -> u8 {
    ((row * column_count + col + 1) % 256) as u8
}

/// The handshake that puts the display into command mode.
pub open spec fn strobe_steps() -> Seq<Step> {
    seq![
        Step::Drive(Line::Clock, true),
        Step::Drive(Line::Data, true),
        Step::Drive(Line::Strobe, true),
        Step::WaitMillis(STROBE_MILLIS),
        Step::Drive(Line::Strobe, false),
        Step::WaitMillis(STROBE_MILLIS),
    ]
}

/// Taking hold of the three lines as outputs, then letting the display settle.
pub open spec fn setup_steps() -> Seq<Step> {
    seq![
        Step::Export(Line::Clock),
        Step::Export(Line::Data),
        Step::Export(Line::Strobe),
        Step::MakeOutput(Line::Clock),
        Step::MakeOutput(Line::Data),
        Step::MakeOutput(Line::Strobe),
        Step::WaitMillis(SETTLE_MILLIS),
    ]
}

/// The whole initialization at brightness `intensity`.
pub open spec fn begin_steps(intensity: u8) -> Seq<Step> {
    setup_steps() + strobe_steps() + bytes_steps(seq![SET_INTENSITY, intensity, CLEAR_DISPLAY])
}

/// Releasing the three lines.
pub open spec fn end_steps() -> Seq<Step> {
    seq![Step::Unexport(Line::Clock), Step::Unexport(Line::Data), Step::Unexport(Line::Strobe)]
}

/// A Futaba VFD on three GPIO lines, with its geometry and brightness.
#[derive(Clone, Copy, Debug, PartialEq, Eq)]
pub struct FutabaVFD {
    clock_pin: u64,
    data_pin: u64,
    strobe_pin: u64,
    column_count: u8,
    intensity: u8,
}

impl FutabaVFD {
    /// The GPIO number that `line` is wired to.
    pub closed spec fn pin_of(&self, line: Line) -> u64 {
        match line {
            Line::Clock => self.clock_pin,
            Line::Data => self.data_pin,
            Line::Strobe => self.strobe_pin,
        }
    }

    pub closed spec fn columns(&self) -> u8 {
        self.column_count
    }

    pub closed spec fn brightness(&self) -> u8 {
        self.intensity
    }

    /// The steps that put the cursor at column `col` of row `row`.
    pub open spec fn cursor_steps(&self, col: u8, row: u8) -> Seq<Step> {
        bytes_steps(seq![SET_CURSOR, cursor_address(self.columns(), col, row)])
    }

    /// A display on the given GPIO numbers; nothing is done to the lines.
    pub fn new(clock: u64, data: u64, strobe: u64, column_count: u8, intensity: u8) -> (r: FutabaVFD)
        ensures
            r.pin_of(Line::Clock) == clock,
            r.pin_of(Line::Data) == data,
            r.pin_of(Line::Strobe) == strobe,
            r.columns() == column_count,
            r.brightness() == intensity,
    {
        FutabaVFD { clock_pin: clock, data_pin: data, strobe_pin: strobe, column_count, intensity }
    }

    /// The GPIO number that `line` is wired to.
    pub fn pin(&self, line: Line) -> (r: u64)
        ensures
            r == self.pin_of(line),
    {
        match line {
            Line::Clock => self.clock_pin,
            Line::Data => self.data_pin,
            Line::Strobe => self.strobe_pin,
        }
    }

    /// Initialization: export the lines, make them outputs, wait for the
    /// display to settle, strobe, set the brightness, clear. Stops at the
    /// first failure.
    pub fn begin(&self) -> (r: Transfer)
        ensures
            r@ == TransferView::start(begin_steps(self.brightness()), false),
    {
        let mut steps: Vec<Step> = Vec::new();
        steps.push(Step::Export(Line::Clock));
        steps.push(Step::Export(Line::Data));
        steps.push(Step::Export(Line::Strobe));
        steps.push(Step::MakeOutput(Line::Clock));
        steps.push(Step::MakeOutput(Line::Data));
        steps.push(Step::MakeOutput(Line::Strobe));
        steps.push(Step::WaitMillis(SETTLE_MILLIS));
        assert(steps@ =~= setup_steps());
        push_strobe(&mut steps);
        let ghost pre = steps@;
        push_byte(&mut steps, SET_INTENSITY);
        push_byte(&mut steps, self.intensity);
        push_byte(&mut steps, CLEAR_DISPLAY);
        proof {
            let s0 = Seq::<u8>::empty();
            lemma_bytes_steps_push(s0, SET_INTENSITY);
            lemma_bytes_steps_push(s0.push(SET_INTENSITY), self.intensity);
            lemma_bytes_steps_push(s0.push(SET_INTENSITY).push(self.intensity), CLEAR_DISPLAY);
            assert(s0.push(SET_INTENSITY).push(self.intensity).push(CLEAR_DISPLAY) =~= seq![
                SET_INTENSITY,
                self.intensity,
                CLEAR_DISPLAY,
            ]);
            assert(steps@ =~= pre + bytes_steps(seq![SET_INTENSITY, self.intensity, CLEAR_DISPLAY]));
        }
        Transfer::abort_on_error(steps)
    }

    /// Release of the three lines. Each one is attempted whatever became of
    /// the others, and the first failure is reported.
    pub fn end(&self) -> (r: Transfer)
        ensures
            r@ == TransferView::start(end_steps(), true),
    {
        let mut steps: Vec<Step> = Vec::new();
        steps.push(Step::Unexport(Line::Clock));
        steps.push(Step::Unexport(Line::Data));
        steps.push(Step::Unexport(Line::Strobe));
        assert(steps@ =~= end_steps());
        Transfer::best_effort(steps)
    }

    /// Use of the display between [`FutabaVFD::begin`] and
    /// [`FutabaVFD::end`], the latter run whenever the former succeeded.
    pub fn with_beginning(&self) -> (r: Scope)
        ensures
            r is Initializing,
    {
        Scope::new()
    }

    /// Clears the screen.
    pub fn clear(&self) -> (r: Transfer)
        ensures
            r@ == TransferView::start(bytes_steps(seq![CLEAR_DISPLAY]), false),
    {
        let mut steps: Vec<Step> = Vec::new();
        push_byte(&mut steps, CLEAR_DISPLAY);
        proof {
            lemma_bytes_steps_push(Seq::<u8>::empty(), CLEAR_DISPLAY);
            assert(Seq::<u8>::empty().push(CLEAR_DISPLAY) =~= seq![CLEAR_DISPLAY]);
            assert(steps@ =~= bytes_steps(seq![CLEAR_DISPLAY]));
        }
        Transfer::abort_on_error(steps)
    }

    /// Puts the cursor at the first column of the first row.
    pub fn home(&self) -> (r: Transfer)
        ensures
            r@ == TransferView::start(self.cursor_steps(0, 0), false),
    {
        self.set_cursor(0, 0)
    }

    /// Puts the cursor at column `col` of row `row`: the command byte, then
    /// the address byte.
    pub fn set_cursor(&self, col: u8, row: u8) -> (r: Transfer)
        ensures
            r@ == TransferView::start(
                bytes_steps(seq![SET_CURSOR, cursor_address(self.columns(), col, row)]),
                false,
            ),
    {
        assert(row as u32 * self.column_count as u32 <= 255 * 255) by (nonlinear_arith)
            requires
                row <= 255,
                self.column_count <= 255,
        ;
        let wide: u32 = row as u32 * self.column_count as u32 + col as u32 + 1;
        let address: u8 = (wide % 256) as u8;
        let mut steps: Vec<Step> = Vec::new();
        push_byte(&mut steps, SET_CURSOR);
        push_byte(&mut steps, address);
        proof {
            let s0 = Seq::<u8>::empty();
            lemma_bytes_steps_push(s0, SET_CURSOR);
            lemma_bytes_steps_push(s0.push(SET_CURSOR), address);
            assert(s0.push(SET_CURSOR).push(address) =~= seq![SET_CURSOR, address]);
            assert(steps@ =~= bytes_steps(seq![SET_CURSOR, address]));
        }
        Transfer::abort_on_error(steps)
    }

    /// Transmits one byte, most significant bit first.
    pub fn send(&self, data: u8) -> (r: Transfer)
        ensures
            r@ == TransferView::start(byte_steps(data), false),
    {
        let mut steps: Vec<Step> = Vec::new();
        push_byte(&mut steps, data);
        assert(steps@ =~= byte_steps(data));
        Transfer::abort_on_error(steps)
    }

    /// The strobe handshake: clock and data high, then a pulse on the strobe
    /// line.
    pub fn strobe(&self) -> (r: Transfer)
        ensures
            r@ == TransferView::start(strobe_steps(), false),
    {
        let mut steps: Vec<Step> = Vec::new();
        push_strobe(&mut steps);
        assert(steps@ =~= strobe_steps());
        Transfer::abort_on_error(steps)
    }
}

/// Putting the cursor home is putting it at column 0 of row 0, which sends
/// the cursor command and then address 1.
pub proof fn lemma_home_is_origin(vfd: FutabaVFD)
    ensures
        vfd.cursor_steps(0, 0) == bytes_steps(seq![SET_CURSOR, 1u8]),
{
}

/// An initialization in which every step succeeds performs, in order: the
/// setup of the lines, the strobe handshake, the brightness command, the
/// brightness, and the clear command; then it reports success.
pub proof fn lemma_initialize_sequence(vfd: FutabaVFD, outcomes: Seq<Result<(), GpioError>>)
    requires
        outcomes.len() == begin_steps(vfd.brightness()).len(),
        forall|i: int| 0 <= i < outcomes.len() ==> #[trigger] outcomes[i] is Ok,
    ensures
        TransferView::start(begin_steps(vfd.brightness()), false).run(outcomes).0 == setup_steps()
            + strobe_steps() + byte_steps(SET_INTENSITY) + byte_steps(vfd.brightness())
            + byte_steps(CLEAR_DISPLAY),
        TransferView::start(begin_steps(vfd.brightness()), false).run(outcomes).1.result() == Ok::<
            (),
            GpioError,
        >(()),
{
    let level = vfd.brightness();
    lemma_success_runs_whole_plan(begin_steps(level), false, outcomes);
    let s0 = Seq::<u8>::empty();
    lemma_bytes_steps_push(s0, SET_INTENSITY);
    lemma_bytes_steps_push(s0.push(SET_INTENSITY), level);
    lemma_bytes_steps_push(s0.push(SET_INTENSITY).push(level), CLEAR_DISPLAY);
    assert(s0.push(SET_INTENSITY).push(level).push(CLEAR_DISPLAY) =~= seq![
        SET_INTENSITY,
        level,
        CLEAR_DISPLAY,
    ]);
    assert(bytes_steps(s0) =~= Seq::<Step>::empty());
    assert(begin_steps(level) =~= setup_steps() + strobe_steps() + byte_steps(SET_INTENSITY)
        + byte_steps(level) + byte_steps(CLEAR_DISPLAY));
}

/// When step `k` of sending a byte fails, the steps up to and including it
/// have been performed and no more are asked for: no clock pulse follows the
/// failure, and the failure is reported.
pub proof fn lemma_send_failure_stops(b: u8, outcomes: Seq<Result<(), GpioError>>, k: int)
    requires
        0 <= k < byte_steps(b).len(),
        k < outcomes.len(),
        forall|i: int| 0 <= i < k ==> #[trigger] outcomes[i] is Ok,
        outcomes[k] is Err,
    ensures
        TransferView::start(byte_steps(b), false).run(outcomes).0 == byte_steps(b).take(k + 1),
        TransferView::start(byte_steps(b), false).run(outcomes).1.next_step() is None,
        TransferView::start(byte_steps(b), false).run(outcomes).1.result() == Err::<(), GpioError>(
            outcomes[k]->Err_0,
        ),
{
    lemma_failure_stops_transfer(byte_steps(b), outcomes, k);
}

fn push_strobe(steps: &mut Vec<Step>)
    ensures
        final(steps)@ == old(steps)@ + strobe_steps(),
{
    steps.push(Step::Drive(Line::Clock, true));
    steps.push(Step::Drive(Line::Data, true));
    steps.push(Step::Drive(Line::Strobe, true));
    steps.push(Step::WaitMillis(STROBE_MILLIS));
    steps.push(Step::Drive(Line::Strobe, false));
    steps.push(Step::WaitMillis(STROBE_MILLIS));
    assert(final(steps)@ =~= old(steps)@ + strobe_steps());
}

} // verus!
