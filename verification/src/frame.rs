//! The per-frame state of the picker: which parts of the screen need redrawing, the screen size,
//! and the status marker shown while matching or injecting.
use vstd::prelude::*;

use crate::match_list::MatchListStatus;

verus! {

/// How the screen is cleared while drawing.
#[derive(Clone, Copy, Debug, Eq, PartialEq)]
pub enum ClearMode {
    /// The whole screen was cleared before drawing.
    All,
    /// Each line is cleared before drawing.
    Line,
    /// Each line is overwritten exactly.
    Exact,
}

/// The parts of the screen which must be redrawn.
#[derive(Clone, Copy, Debug, PartialEq, Eq)]
pub struct Redraw {
    /// The prompt line.
    pub prompt: bool,
    /// The list of matches.
    pub match_list: bool,
    /// The match counts line.
    pub match_status: bool,
}

impl Default for Redraw {
    fn default() -> (r: Self)
        ensures
            !r.prompt && !r.match_list && !r.match_status,
    {
        Self { prompt: false, match_list: false, match_status: false }
    }
}

impl Redraw {
    /// Whether any part must be redrawn.
    pub fn any_required(self) -> (r: bool)
        ensures
            r == (self.prompt || self.match_list || self.match_status),
    {
        self.prompt || self.match_list || self.match_status
    }

    /// Whether every part must be redrawn.
    pub fn all_required(self) -> (r: bool)
        ensures
            r == (self.prompt && self.match_list && self.match_status),
    {
        self.prompt && self.match_list && self.match_status
    }

    /// Redraw everything.
    pub fn all() -> (r: Self)
        ensures
            r.prompt && r.match_list && r.match_status,
    {
        Self { prompt: true, match_list: true, match_status: true }
    }

    /// Mark every part for redrawing.
    pub fn set_all(&mut self)
        ensures
            final(self).prompt && final(self).match_list && final(self).match_status,
    {
        *self = Self::all();
    }

    /// Mark no part for redrawing.
    pub fn reset(&mut self)
        ensures
            !final(self).prompt && !final(self).match_list && !final(self).match_status,
    {
        *self = Self::default();
    }
}

/// The screen dimensions.
#[derive(Clone, Copy, PartialEq, Eq, Debug)]
pub struct ScreenSize {
    /// The width in columns.
    pub width: u16,
    /// The height in lines.
    pub height: u16,
}

/// Which of the screen dimensions changed.
#[derive(Clone, Copy, PartialEq, Eq, Debug)]
pub struct SizeChange {
    width: bool,
    height: bool,
}

impl SizeChange {
    /// Whether the width changed.
    pub closed spec fn width_changed(&self) -> bool {
        self.width
    }

    /// Whether the height changed.
    pub closed spec fn height_did_change(&self) -> bool {
        self.height
    }

    /// Whether either dimension changed.
    pub fn is_changed(&self) -> (r: bool)
        ensures
            r == (self.width_changed() || self.height_did_change()),
    {
        self.width || self.height
    }

    /// Whether the height changed.
    pub fn height_changed(&self) -> (r: bool)
        ensures
            r == self.height_did_change(),
    {
        self.height
    }
}

/// The state carried from one frame to the next.
pub struct FrameState {
    size: ScreenSize,
    frame: u64,
    matching: bool,
    injecting: bool,
    displayed_injecting: bool,
    status_marker: Option<char>,
    spinner_index: usize,
}

impl FrameState {
    /// The spinner position leaves room to move on.
    #[verifier::type_invariant]
    spec fn spinner_fits(self) -> bool {
        self.spinner_index < usize::MAX
    }

    /// The screen size.
    pub closed spec fn screen(&self) -> ScreenSize {
        self.size
    }

    /// The number of frames rendered so far (modulo 2^64).
    pub closed spec fn frame_count(&self) -> u64 {
        self.frame
    }

    /// Whether matching was last observed as ongoing.
    pub closed spec fn is_matching(&self) -> bool {
        self.matching
    }

    /// Whether injection was last observed as ongoing.
    pub closed spec fn is_injecting(&self) -> bool {
        self.injecting
    }

    /// Whether the marker currently displayed was chosen while injecting.
    pub closed spec fn was_injecting(&self) -> bool {
        self.displayed_injecting
    }

    /// The status marker currently displayed.
    pub closed spec fn marker(&self) -> Option<char> {
        self.status_marker
    }

    /// The position in the spinner.
    pub closed spec fn spinner(&self) -> usize {
        self.spinner_index
    }

    /// A fresh state for a screen of the given `(width, height)`.
    pub fn new(size: (u16, u16)) -> (r: Self)
        ensures
            r.screen() == (ScreenSize { width: size.0, height: size.1 }),
            r.frame_count() == 0,
            !r.is_matching(),
            !r.is_injecting(),
            !r.was_injecting(),
            r.marker() is None,
            r.spinner() == 0,
    {
        Self {
            size: ScreenSize { width: size.0, height: size.1 },
            frame: 0,
            matching: false,
            injecting: false,
            displayed_injecting: false,
            status_marker: None,
            spinner_index: 0,
        }
    }

    /// Record the new screen size, returning which dimensions changed.
    pub fn update_size(&mut self, size: (u16, u16)) -> (r: SizeChange)
        ensures
            final(self).screen() == (ScreenSize { width: size.0, height: size.1 }),
            r.width_changed() == (old(self).screen().width != size.0),
            r.height_did_change() == (old(self).screen().height != size.1),
            final(self).frame_count() == old(self).frame_count(),
            final(self).marker() == old(self).marker(),
            final(self).spinner() == old(self).spinner(),
            final(self).is_matching() == old(self).is_matching(),
            final(self).is_injecting() == old(self).is_injecting(),
            final(self).was_injecting() == old(self).was_injecting(),
    {
        proof {
            use_type_invariant(&*self);
        }
        let change = SizeChange { width: self.size.width != size.0, height: self.size.height != size.1 };
        self.size = ScreenSize { width: size.0, height: size.1 };
        change
    }

    /// The height available to the match list: the screen less the prompt and status lines.
    pub fn match_list_height(&self) -> (r: u16)
        ensures
            r == if self.screen().height >= 2 { self.screen().height - 2 } else { 0 },
    {
        self.size.height.saturating_sub(2)
    }

    /// The screen `(width, height)`.
    pub fn dimensions(&self) -> (r: (u16, u16))
        ensures
            r == (self.screen().width, self.screen().height),
    {
        (self.size.width, self.size.height)
    }

    /// The status marker currently displayed.
    pub fn status_marker(&self) -> (r: Option<char>)
        ensures
            r == self.marker(),
    {
        self.status_marker
    }

    /// Count a frame, returning whether it is a background frame: one in every
    /// `background_frame_frequency` frames.
    pub fn advance(&mut self, background_frame_frequency: usize) -> (r: bool)
        requires
            background_frame_frequency > 0,
        ensures
            final(self).frame_count() == (old(self).frame_count() + 1) % 0x1_0000_0000_0000_0000,
            r == (final(self).frame_count() % (background_frame_frequency as u64) == 0),
            final(self).screen() == old(self).screen(),
            final(self).marker() == old(self).marker(),
            final(self).spinner() == old(self).spinner(),
            final(self).is_matching() == old(self).is_matching(),
            final(self).is_injecting() == old(self).is_injecting(),
            final(self).was_injecting() == old(self).was_injecting(),
    {
        proof {
            use_type_invariant(&*self);
        }
        self.frame = self.frame.wrapping_add(1);
        self.frame % (background_frame_frequency as u64) == 0
    }

    /// Record whether matching and injection are ongoing.
    pub fn observe(&mut self, status: &MatchListStatus)
        ensures
            final(self).is_matching() == status.matching,
            final(self).is_injecting() == status.injecting,
            final(self).screen() == old(self).screen(),
            final(self).frame_count() == old(self).frame_count(),
            final(self).marker() == old(self).marker(),
            final(self).spinner() == old(self).spinner(),
            final(self).was_injecting() == old(self).was_injecting(),
    {
        proof {
            use_type_invariant(&*self);
        }
        self.matching = status.matching;
        self.injecting = status.injecting;
    }

    /// Choose the status marker: the next spinner character while injecting (the spinner starts
    /// over when injection starts), the matching indicator while only matching, and none otherwise.
    /// Returns whether the marker changed.
    pub fn update_marker(&mut self, spinner_chars: &[char], matching_indicator: char) -> (r: bool)
        ensures
            final(self).spinner() < usize::MAX,
            final(self).spinner() == if old(self).is_injecting() && old(self).was_injecting() {
                if spinner_chars@.len() > 0 {
                    ((old(self).spinner() + 1) % (spinner_chars@.len() as int)) as usize
                } else {
                    old(self).spinner()
                }
            } else {
                0
            },
            final(self).marker() == if old(self).is_injecting() {
                if final(self).spinner() < spinner_chars@.len() {
                    Some(spinner_chars@[final(self).spinner() as int])
                } else {
                    None
                }
            } else if old(self).is_matching() {
                Some(matching_indicator)
            } else {
                None
            },
            r == (final(self).marker() != old(self).marker()),
            final(self).was_injecting() == old(self).is_injecting(),
            final(self).screen() == old(self).screen(),
            final(self).frame_count() == old(self).frame_count(),
            final(self).is_matching() == old(self).is_matching(),
            final(self).is_injecting() == old(self).is_injecting(),
    {
        proof {
            use_type_invariant(&*self);
        }
        if self.injecting && self.displayed_injecting {
            if spinner_chars.len() > 0 {
                self.spinner_index = (self.spinner_index + 1) % spinner_chars.len();
            }
        } else {
            self.spinner_index = 0;
        }
        let marker = if self.injecting {
            if self.spinner_index < spinner_chars.len() {
                Some(spinner_chars[self.spinner_index])
            } else {
                None
            }
        } else if self.matching {
            Some(matching_indicator)
        } else {
            None
        };
        let changed = !option_char_eq(self.status_marker, marker);
        self.status_marker = marker;
        self.displayed_injecting = self.injecting;
        changed
    }
}

/// Equality of optional characters.
fn option_char_eq(a: Option<char>, b: Option<char>) -> (r: bool)
    ensures
        r == (a == b),
{
    match (a, b) {
        (Some(x), Some(y)) => x == y,
        (None, None) => true,
        _ => false,
    }
}

} // verus!
