use tui_portfolio::animation::{AnimationState, FRAME_TICKS};
use tui_portfolio::input::{
    decode_event, decode_key, CallSign, Command, InputEvent, Key, KeyAction, KeyInput,
    MODIFIER_CONTROL, MODIFIER_SHIFT,
};
use tui_portfolio::screen::Screen;
use tui_portfolio::series::{SeriesBuffer, SERIES_CAPACITY};
use tui_portfolio::state::{App, ScreenView, INTRO_FRAME_COUNT, SERIES_COUNT};
use tui_portfolio::stats::{SeriesStats, TelemetrySummary, Trend};

fn press(key: Key, modifiers: u8) -> KeyInput {
    KeyInput { key, modifiers, action: KeyAction::Press }
}

fn series_of(app: &App) -> Vec<Vec<u64>> {
    (0..SERIES_COUNT).map(|i| app.series(i).to_vec()).collect()
}

#[test]
fn three_forward_one_back_equals_two_forward() {
    let a = Screen::Intro.next().next().next().previous();
    let b = Screen::Intro.next().next();
    assert_eq!(a, b);
    assert_eq!(a, Screen::Second);
}

#[test]
fn cycle_wraps_at_both_ends() {
    assert_eq!(Screen::Intro.previous(), Screen::Third);
    assert_eq!(Screen::Third.next(), Screen::Intro);
    assert_eq!(Screen::First.previous(), Screen::Intro);
    assert_eq!(Screen::Second.next(), Screen::Third);
}

#[test]
fn buffer_length_grows_then_caps() {
    let mut b = SeriesBuffer::new();
    assert_eq!(b.len(), 0);
    for k in 0..250u64 {
        b.push_sample(k);
        let expected = std::cmp::min(SERIES_CAPACITY, (k + 1) as usize);
        assert_eq!(b.len(), expected);
    }
}

#[test]
fn overflow_by_one_keeps_last_capacity_samples() {
    let mut b = SeriesBuffer::new();
    let samples: Vec<u64> = (1..=(SERIES_CAPACITY as u64 + 1)).map(|k| k * 7).collect();
    for &x in &samples {
        b.push_sample(x);
    }
    assert_eq!(b.as_slice(), &samples[1..]);
    assert_eq!(b.as_slice()[0], 14);
    assert_eq!(*b.as_slice().last().unwrap(), 707);
}

#[test]
fn frame_advances_every_fourth_tick_on_intro() {
    let mut a = AnimationState::new();
    assert_eq!(FRAME_TICKS, 4);
    for n in 1..=12usize {
        a.tick(true, 3);
        assert_eq!(a.frame_index, (n / 4) % 3);
        assert_eq!(a.tick as usize, n % 4);
    }
}

#[test]
fn frame_holds_away_from_intro() {
    let mut a = AnimationState { frame_index: 1, tick: 3 };
    for _ in 0..10 {
        a.tick(false, 2);
        assert_eq!(a, AnimationState { frame_index: 1, tick: 0 });
    }
    let mut b = AnimationState { frame_index: 7, tick: 2 };
    b.tick(false, 3);
    assert_eq!(b, AnimationState { frame_index: 1, tick: 0 });
}

#[test]
fn leaving_intro_resets_tick_count() {
    let mut a = AnimationState::new();
    a.tick(true, 2);
    a.tick(true, 2);
    a.tick(true, 2);
    assert_eq!(a.tick, 3);
    a.tick(false, 2);
    assert_eq!(a.tick, 0);
    a.tick(true, 2);
    assert_eq!(a, AnimationState { frame_index: 0, tick: 1 });
}

#[test]
fn too_few_frames_change_nothing() {
    for count in 0..2usize {
        let mut a = AnimationState { frame_index: 5, tick: 3 };
        a.tick(true, count);
        assert_eq!(a, AnimationState { frame_index: 5, tick: 3 });
        a.tick(false, count);
        assert_eq!(a, AnimationState { frame_index: 5, tick: 3 });
    }
}

#[test]
fn tick_count_saturates() {
    let mut a = AnimationState { frame_index: 0, tick: 255 };
    a.tick(true, 2);
    assert_eq!(a, AnimationState { frame_index: 1, tick: 0 });
}

#[test]
fn frame_wraps_after_last() {
    let mut a = AnimationState { frame_index: 1, tick: 3 };
    a.tick(true, 2);
    assert_eq!(a, AnimationState { frame_index: 0, tick: 0 });
}

#[test]
fn quit_stops_from_every_screen_and_name() {
    for steps in 0..4 {
        for name in [CallSign::Primary, CallSign::Secondary] {
            let mut app = App::new();
            app.start();
            for _ in 0..steps {
                app.next_screen();
            }
            app.apply(Command::SetCallSign(name));
            let screen = app.screen();
            app.apply(Command::Quit);
            assert!(!app.is_running());
            assert_eq!(app.screen(), screen);
            assert_eq!(app.call_sign(), name.text());
        }
    }
}

#[test]
fn setting_a_name_twice_equals_once() {
    let mut once = App::new();
    once.apply(Command::SetCallSign(CallSign::Secondary));
    let mut twice = App::new();
    twice.apply(Command::SetCallSign(CallSign::Secondary));
    twice.apply(Command::SetCallSign(CallSign::Secondary));
    assert_eq!(once.call_sign(), "Veera");
    assert_eq!(twice.call_sign(), once.call_sign());
    twice.apply(Command::SetCallSign(CallSign::Primary));
    assert_eq!(twice.call_sign(), "Karneeshkar V");
}

#[test]
fn intro_ticks_then_next_scenario() {
    let mut app = App::new();
    app.start();
    assert_eq!(app.screen(), Screen::Intro);
    assert_eq!(app.call_sign(), "Karneeshkar V");
    assert_eq!(app.animation(), AnimationState { frame_index: 0, tick: 0 });
    let before = series_of(&app);
    for s in &before {
        assert_eq!(s.len(), SERIES_CAPACITY);
    }
    let draws: [[u64; SERIES_COUNT]; 4] = [[1, 2, 3], [4, 5, 6], [7, 8, 9], [10, 11, 12]];
    for d in draws {
        app.tick_with_samples(d);
    }
    assert_eq!(app.animation(), AnimationState { frame_index: 1, tick: 0 });
    for i in 0..SERIES_COUNT {
        let now = app.series(i);
        assert_eq!(now.len(), SERIES_CAPACITY);
        assert_eq!(&now[..SERIES_CAPACITY - 4], &before[i][4..]);
        let fresh: Vec<u64> = draws.iter().map(|d| d[i]).collect();
        assert_eq!(&now[SERIES_CAPACITY - 4..], &fresh[..]);
    }
    app.on_key_event(press(Key::Char('n'), 0));
    assert_eq!(app.screen(), Screen::First);
    for _ in 0..9 {
        app.tick_with_samples([0, 0, 0]);
    }
    assert_eq!(app.animation(), AnimationState { frame_index: 1, tick: 0 });
    assert!(app.is_running());
}

#[test]
fn new_app_is_stopped_on_intro_with_full_series() {
    let app = App::new();
    assert!(!app.is_running());
    assert_eq!(app.screen(), Screen::Intro);
    for s in series_of(&app) {
        assert_eq!(s.len(), SERIES_CAPACITY);
        assert!(s.iter().all(|&x| x < 100));
    }
}

#[test]
fn random_ticks_append_samples_below_limit() {
    let mut app = App::new();
    let mut seen = std::collections::BTreeSet::new();
    for _ in 0..200 {
        let before = series_of(&app);
        app.on_tick();
        for i in 0..SERIES_COUNT {
            let now = app.series(i);
            assert_eq!(now.len(), SERIES_CAPACITY);
            assert_eq!(&now[..SERIES_CAPACITY - 1], &before[i][1..]);
            let x = now[SERIES_CAPACITY - 1];
            assert!(x < 100);
            seen.insert(x);
        }
    }
    assert!(seen.len() > 1);
    assert_eq!(INTRO_FRAME_COUNT, 2);
}

#[test]
fn quit_keys_decode_to_quit() {
    assert_eq!(decode_key(press(Key::Esc, 0)), Command::Quit);
    assert_eq!(decode_key(press(Key::Char('q'), 0)), Command::Quit);
    assert_eq!(decode_key(press(Key::Char('q'), MODIFIER_CONTROL)), Command::Quit);
    assert_eq!(decode_key(press(Key::Char('c'), MODIFIER_CONTROL)), Command::Quit);
    assert_eq!(decode_key(press(Key::Char('C'), MODIFIER_CONTROL)), Command::Quit);
    assert_eq!(decode_key(press(Key::Char('c'), 0)), Command::Ignore);
    assert_eq!(
        decode_key(press(Key::Char('C'), MODIFIER_CONTROL | MODIFIER_SHIFT)),
        Command::Ignore
    );
}

#[test]
fn other_keys_decode_to_their_commands() {
    assert_eq!(decode_key(press(Key::Char('n'), 0)), Command::Next);
    assert_eq!(decode_key(press(Key::Char('p'), 0)), Command::Previous);
    assert_eq!(
        decode_key(press(Key::Char('['), 0)),
        Command::SetCallSign(CallSign::Primary)
    );
    assert_eq!(
        decode_key(press(Key::Char(']'), 0)),
        Command::SetCallSign(CallSign::Secondary)
    );
    assert_eq!(decode_key(press(Key::Char('x'), 0)), Command::Ignore);
    assert_eq!(decode_key(press(Key::Other, 0)), Command::Ignore);
}

#[test]
fn only_key_presses_count() {
    let release = KeyInput { key: Key::Char('q'), modifiers: 0, action: KeyAction::Release };
    let repeat = KeyInput { key: Key::Char('n'), modifiers: 0, action: KeyAction::Repeat };
    assert_eq!(decode_event(InputEvent::Key(release)), Command::Ignore);
    assert_eq!(decode_event(InputEvent::Key(repeat)), Command::Ignore);
    assert_eq!(decode_event(InputEvent::Mouse), Command::Ignore);
    assert_eq!(decode_event(InputEvent::Resize(80, 24)), Command::Ignore);
    assert_eq!(decode_event(InputEvent::Paste), Command::Ignore);
    assert_eq!(decode_event(InputEvent::Key(press(Key::Esc, 0))), Command::Quit);
    let mut app = App::new();
    app.start();
    app.handle_event(InputEvent::Key(release));
    assert!(app.is_running());
    app.handle_event(InputEvent::Key(press(Key::Char('p'), 0)));
    assert_eq!(app.screen(), Screen::Third);
    app.handle_event(InputEvent::Key(press(Key::Char('q'), 0)));
    assert!(!app.is_running());
}

#[test]
fn stats_of_a_series() {
    let s = SeriesStats::from_series(&[5, 3, 9, 1, 7]);
    assert_eq!(s.last, 7);
    assert_eq!(s.min, 1);
    assert_eq!(s.max, 9);
    assert_eq!(s.sum, 25);
    assert_eq!(s.count, 5);
    assert_eq!(s.delta, 2);
    assert_eq!(s.trend(), Trend::Rising);
    assert_eq!(s.trend_symbol(), "↑");
    assert_eq!(s.trend_magnitude(), 2);
}

#[test]
fn stats_of_falling_and_flat_series() {
    let down = SeriesStats::from_series(&[90, 40, 10]);
    assert_eq!(down.delta, -80);
    assert_eq!(down.trend(), Trend::Falling);
    assert_eq!(down.trend_symbol(), "↓");
    assert_eq!(down.trend_magnitude(), 80);
    let flat = SeriesStats::from_series(&[4, 8, 4]);
    assert_eq!(flat.trend(), Trend::Steady);
    assert_eq!(flat.trend_symbol(), "→");
    assert_eq!(flat.trend_magnitude(), 0);
    let one = SeriesStats::from_series(&[42]);
    assert_eq!((one.last, one.min, one.max, one.sum, one.count, one.delta), (42, 42, 42, 42, 1, 0));
}

#[test]
fn stats_of_empty_and_huge_series() {
    let e = SeriesStats::from_series(&[]);
    assert_eq!((e.last, e.min, e.max, e.sum, e.count, e.delta), (0, 0, 0, 0, 0, 0));
    let big = SeriesStats::from_series(&[u64::MAX, u64::MAX, 0]);
    assert_eq!(big.sum, 2 * (u64::MAX as u128));
    assert_eq!(big.delta, -(u64::MAX as i128));
    assert_eq!(big.trend_magnitude(), u64::MAX);
}

#[test]
fn view_follows_screen_and_restores_empty_name() {
    let mut app = App::new();
    match app.current_view() {
        ScreenView::Intro(f) => assert_eq!(f, 0),
        other => panic!("unexpected view {:?}", other),
    }
    app.set_call_sign("");
    assert_eq!(app.call_sign(), "");
    app.next_screen();
    match app.current_view() {
        ScreenView::First(name) => assert_eq!(name, "Karneeshkar V"),
        other => panic!("unexpected view {:?}", other),
    }
    app.set_call_sign("Veera");
    app.next_screen();
    match app.current_view() {
        ScreenView::Second(name) => assert_eq!(name, "Veera"),
        other => panic!("unexpected view {:?}", other),
    }
    app.next_screen();
    let expected = series_of(&app);
    match app.current_view() {
        ScreenView::Third(data) => assert_eq!(data, expected),
        other => panic!("unexpected view {:?}", other),
    }
    app.next_screen();
    assert_eq!(app.screen(), Screen::Intro);
}

#[test]
fn summary_over_several_series() {
    let data = vec![vec![10, 50, 30], vec![], vec![70, 5], vec![20]];
    let s = TelemetrySummary::from_series(&data);
    assert_eq!(s.total_samples, 6);
    assert_eq!(s.latest_sum, 30 + 5 + 20);
    assert_eq!(s.latest_count, 3);
    assert_eq!(s.spread, 65);
}

#[test]
fn summary_without_samples() {
    let none = TelemetrySummary::from_series(&[]);
    assert_eq!((none.total_samples, none.latest_sum, none.latest_count, none.spread), (0, 0, 0, 0));
    let empty = TelemetrySummary::from_series(&[vec![], vec![]]);
    assert_eq!((empty.total_samples, empty.latest_sum, empty.latest_count, empty.spread), (0, 0, 0, 0));
    let flat = TelemetrySummary::from_series(&[vec![9, 9], vec![9]]);
    assert_eq!(flat.spread, 0);
    assert_eq!(flat.latest_sum, 18);
}

#[test]
fn summary_of_app_series() {
    let mut app = App::new();
    for _ in 0..3 {
        app.next_screen();
    }
    match app.current_view() {
        ScreenView::Third(data) => {
            let s = TelemetrySummary::from_series(&data);
            assert_eq!(s.total_samples, (SERIES_COUNT * SERIES_CAPACITY) as u128);
            assert_eq!(s.latest_count, SERIES_COUNT);
            assert!(s.spread < 100);
            let lasts: u128 = data.iter().map(|v| *v.last().unwrap() as u128).sum();
            assert_eq!(s.latest_sum, lasts);
        }
        other => panic!("unexpected view {:?}", other),
    }
}
