use futaba_vfd::driver::{CLEAR_DISPLAY, SET_CURSOR, SET_INTENSITY};
use futaba_vfd::{FutabaVFD, GpioError, Line, Scope, ScopeStep, Step, Transfer};

/// Reads the bytes a display would latch: one bit on each falling clock
/// edge, most significant first.
fn latched_bytes(steps: &[Step]) -> Vec<u8> {
    let mut data = false;
    let mut current: u8 = 0;
    let mut bits = 0;
    let mut out = Vec::new();
    for step in steps {
        match *step {
            Step::Drive(Line::Data, level) => data = level,
            Step::Drive(Line::Clock, false) => {
                current = (current << 1) | (data as u8);
                bits += 1;
                if bits == 8 {
                    out.push(current);
                    current = 0;
                    bits = 0;
                }
            }
            _ => {}
        }
    }
    out
}

fn rising_clock_edges(steps: &[Step]) -> usize {
    steps.iter().filter(|s| **s == Step::Drive(Line::Clock, true)).count()
}

/// Drives a transfer to its end; `fail_at` names the step whose write fails.
fn run(mut t: Transfer, fail_at: Option<usize>) -> (Vec<Step>, Result<(), GpioError>) {
    let mut performed = Vec::new();
    while let Some(step) = t.next_step() {
        let index = performed.len();
        performed.push(step);
        if fail_at == Some(index) {
            t.record(Err(GpioError::Io(format!("step {}", index))));
        } else {
            t.record(Ok(()));
        }
    }
    (performed, t.finish())
}

fn display() -> FutabaVFD {
    FutabaVFD::new(17, 27, 22, 20, 7)
}

#[test]
fn it_works() {}

#[test]
fn send_clocks_out_msb_first() {
    let vfd = display();
    for b in [0u8, 1, 0x80, 0xA5, 0x3C, 0xFF] {
        let t = vfd.send(b);
        let steps = t.steps();
        assert_eq!(steps.len(), 40);
        assert_eq!(rising_clock_edges(steps), 8);
        for i in 0..8 {
            assert_eq!(steps[5 * i], Step::Drive(Line::Clock, true));
            assert_eq!(steps[5 * i + 1], Step::WaitMicros(15));
            let bit = (b >> (7 - i)) & 1 == 1;
            assert_eq!(steps[5 * i + 2], Step::Drive(Line::Data, bit));
            assert_eq!(steps[5 * i + 3], Step::WaitMicros(5));
            assert_eq!(steps[5 * i + 4], Step::Drive(Line::Clock, false));
        }
        assert!(steps.iter().all(|s| !matches!(s, Step::Drive(Line::Strobe, _))));
        assert_eq!(latched_bytes(steps), vec![b]);
    }
}

#[test]
fn set_cursor_sends_command_then_address() {
    let vfd = display();
    let t = vfd.set_cursor(5, 2);
    assert_eq!(latched_bytes(t.steps()), vec![0x02, 46]);
    assert_eq!(rising_clock_edges(t.steps()), 16);
}

#[test]
fn set_cursor_address_wraps() {
    let vfd = display();
    let t = vfd.set_cursor(19, 12);
    assert_eq!(latched_bytes(t.steps()), vec![SET_CURSOR, 4]);
    let big = FutabaVFD::new(1, 2, 3, 255, 0);
    let t = big.set_cursor(0, 1);
    assert_eq!(latched_bytes(t.steps()), vec![SET_CURSOR, 0]);
    let t = big.set_cursor(255, 255);
    assert_eq!(latched_bytes(t.steps()), vec![SET_CURSOR, 1]);
}

#[test]
fn home_is_cursor_at_origin() {
    let vfd = display();
    let home = vfd.home();
    let origin = vfd.set_cursor(0, 0);
    assert_eq!(home.steps(), origin.steps());
    assert_eq!(latched_bytes(home.steps()), vec![0x02, 0x01]);
}

#[test]
fn clear_sends_one_byte() {
    let vfd = display();
    let t = vfd.clear();
    assert_eq!(latched_bytes(t.steps()), vec![CLEAR_DISPLAY]);
    assert_eq!(t.steps(), vfd.send(0x01).steps());
}

#[test]
fn strobe_pulses_strobe_line() {
    let vfd = display();
    let t = vfd.strobe();
    assert_eq!(
        t.steps(),
        &[
            Step::Drive(Line::Clock, true),
            Step::Drive(Line::Data, true),
            Step::Drive(Line::Strobe, true),
            Step::WaitMillis(5),
            Step::Drive(Line::Strobe, false),
            Step::WaitMillis(5),
        ][..]
    );
}

#[test]
fn begin_sequence_in_order() {
    let vfd = display();
    let (performed, result) = run(vfd.begin(), None);
    assert!(result.is_ok());
    assert_eq!(
        &performed[..7],
        &[
            Step::Export(Line::Clock),
            Step::Export(Line::Data),
            Step::Export(Line::Strobe),
            Step::MakeOutput(Line::Clock),
            Step::MakeOutput(Line::Data),
            Step::MakeOutput(Line::Strobe),
            Step::WaitMillis(500),
        ][..]
    );
    assert_eq!(&performed[7..13], vfd.strobe().steps());
    assert_eq!(latched_bytes(&performed[13..]), vec![SET_INTENSITY, 7, CLEAR_DISPLAY]);
    assert_eq!(performed.len(), 13 + 3 * 40);
}

#[test]
fn begin_stops_at_failed_export() {
    let vfd = display();
    let (performed, result) = run(vfd.begin(), Some(1));
    assert_eq!(performed, vec![Step::Export(Line::Clock), Step::Export(Line::Data)]);
    assert_eq!(result, Err(GpioError::Io("step 1".to_string())));
}

#[test]
fn send_failure_on_bit_three_stops() {
    let vfd = display();
    // bit 3 is placed on the data line by step 5 * 3 + 2
    let (performed, result) = run(vfd.send(0xFF), Some(17));
    assert_eq!(performed.len(), 18);
    assert_eq!(performed[..], vfd.send(0xFF).steps()[..18]);
    assert_eq!(rising_clock_edges(&performed), 4);
    assert_eq!(result, Err(GpioError::Io("step 17".to_string())));
}

#[test]
fn failed_transfer_asks_no_more() {
    let vfd = display();
    let mut t = vfd.send(0x42);
    assert_eq!(t.next_step(), Some(Step::Drive(Line::Clock, true)));
    t.record(Err(GpioError::Unsupported("no gpio".to_string())));
    assert!(t.is_finished());
    assert_eq!(t.next_step(), None);
    t.record(Ok(()));
    assert_eq!(t.finish(), Err(GpioError::Unsupported("no gpio".to_string())));
}

#[test]
fn end_attempts_every_release() {
    let vfd = display();
    let (performed, result) = run(vfd.end(), Some(0));
    assert_eq!(
        performed,
        vec![Step::Unexport(Line::Clock), Step::Unexport(Line::Data), Step::Unexport(Line::Strobe)]
    );
    assert_eq!(result, Err(GpioError::Io("step 0".to_string())));
    let (performed, result) = run(vfd.end(), None);
    assert_eq!(performed.len(), 3);
    assert!(result.is_ok());
}

#[test]
fn end_reports_first_of_several_failures() {
    let vfd = display();
    let mut t = vfd.end();
    t.record(Ok(()));
    t.record(Err(GpioError::Io("data".to_string())));
    assert_eq!(t.next_step(), Some(Step::Unexport(Line::Strobe)));
    t.record(Err(GpioError::Io("strobe".to_string())));
    assert!(t.is_finished());
    assert_eq!(t.finish(), Err(GpioError::Io("data".to_string())));
}

#[test]
fn pins_follow_construction() {
    let vfd = display();
    assert_eq!(vfd.pin(Line::Clock), 17);
    assert_eq!(vfd.pin(Line::Data), 27);
    assert_eq!(vfd.pin(Line::Strobe), 22);
}

fn err(s: &str) -> Result<(), GpioError> {
    Err(GpioError::Unexpected(s.to_string()))
}

#[test]
fn scope_skips_action_and_shutdown_when_initialize_fails() {
    let s = display().with_beginning();
    assert_eq!(s.request(), ScopeStep::Initialize);
    let s = s.record(err("init"));
    assert_eq!(s.request(), ScopeStep::Done);
    assert_eq!(s.into_result(), Some(err("init")));
}

#[test]
fn scope_shuts_down_after_failed_action() {
    let s = Scope::new().record(Ok(()));
    assert_eq!(s.request(), ScopeStep::RunAction);
    let s = s.record(err("action"));
    assert_eq!(s.request(), ScopeStep::Shutdown);
    let s = s.record(err("shutdown"));
    assert_eq!(s.request(), ScopeStep::Done);
    assert_eq!(s.into_result(), Some(err("action")));
}

#[test]
fn scope_reports_shutdown_failure_after_good_action() {
    let s = Scope::new().record(Ok(())).record(Ok(()));
    assert_eq!(s.request(), ScopeStep::Shutdown);
    let s = s.record(err("shutdown"));
    assert_eq!(s.into_result(), Some(err("shutdown")));
    let s = Scope::new().record(Ok(())).record(Ok(())).record(Ok(()));
    assert_eq!(s.into_result(), Some(Ok(())));
}

#[test]
fn scope_result_not_ready_before_shutdown() {
    let s = Scope::new().record(Ok(())).record(Ok(()));
    assert_eq!(s.into_result(), None);
}
