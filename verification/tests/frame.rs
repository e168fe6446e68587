use nucleo_picker::frame::{FrameState, Redraw};
use nucleo_picker::picker::after_resize;
use nucleo_picker::match_list::MatchListStatus;

#[test]
fn marker_state_is_local_to_a_pick() {
    let mut frame = FrameState::new((20, 4));
    frame.observe(&MatchListStatus {
        items_changed: false,
        matching: true,
        injecting: true,
    });

    assert!(frame.update_marker(&['a', 'b'], 'm'));
    assert_eq!(frame.status_marker(), Some('a'));
    assert!(frame.update_marker(&['a', 'b'], 'm'));
    assert_eq!(frame.status_marker(), Some('b'));

    frame.observe(&MatchListStatus {
        items_changed: false,
        matching: true,
        injecting: false,
    });
    assert!(frame.update_marker(&['a', 'b'], 'm'));
    assert_eq!(frame.status_marker(), Some('m'));

    assert_eq!(FrameState::new((20, 4)).status_marker(), None);
}

#[test]
fn background_frames_follow_the_configured_frequency() {
    let mut frame = FrameState::new((20, 4));
    let frequency = std::num::NonZero::new(3usize).unwrap().get();

    assert!(!frame.advance(frequency));
    assert!(!frame.advance(frequency));
    assert!(frame.advance(frequency));
    assert!(!frame.advance(frequency));
}

#[test]
fn screen_size_changes_track_dimensions_separately() {
    let mut frame = FrameState::new((20, 4));

    let width_change = frame.update_size((30, 4));
    assert!(width_change.is_changed());
    assert!(!width_change.height_changed());

    let height_change = frame.update_size((30, 8));
    assert!(height_change.is_changed());
    assert!(height_change.height_changed());
    assert_eq!(frame.match_list_height(), 6);

    let no_change = frame.update_size((30, 8));
    assert!(!no_change.is_changed());
    assert!(!no_change.height_changed());
}

#[test]
fn a_new_size_redraws_everything_and_a_new_height_relayouts() {
    let mut frame = FrameState::new((20, 4));

    let mut redraw = Redraw::default();
    redraw.prompt = true;
    let same = frame.update_size((20, 4));
    assert!(!after_resize(&mut redraw, same));
    assert_eq!(redraw, Redraw { prompt: true, match_list: false, match_status: false });

    let mut redraw = Redraw::default();
    let wider = frame.update_size((30, 4));
    assert!(!after_resize(&mut redraw, wider));
    assert_eq!(redraw, Redraw::all());

    let mut redraw = Redraw::default();
    let taller = frame.update_size((30, 8));
    assert!(after_resize(&mut redraw, taller));
    assert_eq!(redraw, Redraw::all());
}
