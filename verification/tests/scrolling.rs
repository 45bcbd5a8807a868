use deepcode::ui::scrolling::{MouseScrollState, ScrollDirection, ScrollUpdate, TranscriptScroll};

const MILLISECOND: u64 = 1_000_000;

#[test]
fn tail_resolves_to_current_bottom() {
    let (state, top) = TranscriptScroll::to_bottom().resolve_top(42);

    assert_eq!(state, TranscriptScroll::to_bottom());
    assert_eq!(top, 42);
}

#[test]
fn explicit_line_clamps_without_tail_until_bottom() {
    let (state, top) = TranscriptScroll::at_line(9).resolve_top(20);

    assert_eq!(state, TranscriptScroll::at_line(9));
    assert_eq!(top, 9);

    let (state, top) = TranscriptScroll::at_line(99).resolve_top(20);
    assert_eq!(state, TranscriptScroll::to_bottom());
    assert_eq!(top, 20);
}

#[test]
fn scroll_from_tail_moves_up_and_back_to_tail() {
    let up = TranscriptScroll::to_bottom().scrolled_by(-3, 100, 20);

    assert_eq!(up, TranscriptScroll::at_line(77));
    assert_eq!(up.scrolled_by(10, 100, 20), TranscriptScroll::to_bottom());
}

#[test]
fn mouse_wheel_tick_moves_three_lines() {
    let mut state = MouseScrollState::default();

    assert_eq!(
        state.on_scroll_at(ScrollDirection::Down, 5),
        ScrollUpdate { delta_lines: 3 }
    );
}

#[test]
fn rapid_same_direction_trackpad_accelerates_but_caps() {
    let mut state = MouseScrollState::default();
    let start = 17 * MILLISECOND;
    let mut ticks = Vec::new();
    for tick in 0..7 {
        ticks.push(
            state
                .on_scroll_at(ScrollDirection::Down, start + tick * 10 * MILLISECOND)
                .delta_lines,
        );
    }

    assert_eq!(ticks, vec![3, 1, 1, 2, 2, 2, 3]);
}
