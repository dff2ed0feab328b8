use glyph_raster::presentation::{PresentationLoop, TickAction};

const INTERVAL: u64 = 16_600;

#[test]
fn on_schedule_ticks_advance_one_interval_each() {
    let mut pacer = PresentationLoop::new(0, INTERVAL);
    assert_eq!(pacer.deadline_micros(), INTERVAL);
    let ticks: u64 = 5;
    for m in 0..ticks {
        let boundary = pacer.deadline_micros();
        assert_eq!(boundary, (m + 1) * INTERVAL);
        let action = pacer.on_tick(m * INTERVAL, false);
        assert_eq!(action, TickAction::Present { wait_until: boundary });
    }
    assert_eq!(pacer.deadline_micros(), (ticks + 1) * INTERVAL);
}

#[test]
fn late_tick_restarts_schedule_without_catch_up() {
    let mut pacer = PresentationLoop::new(0, INTERVAL);
    let action = pacer.on_tick(100_000, false);
    assert_eq!(action, TickAction::Present { wait_until: INTERVAL });
    assert_eq!(pacer.deadline_micros(), 100_000 + INTERVAL);
}

#[test]
fn exit_signal_stops_the_loop_for_good() {
    let mut pacer = PresentationLoop::new(0, INTERVAL);
    assert_eq!(pacer.on_tick(0, false), TickAction::Present { wait_until: INTERVAL });
    assert_eq!(pacer.on_tick(INTERVAL, true), TickAction::Stop);
    assert_eq!(pacer.on_tick(2 * INTERVAL, false), TickAction::Stop);
    assert_eq!(pacer.on_tick(3 * INTERVAL, true), TickAction::Stop);
}
