//! Which scroll frames are worth posting, and in what form.

use vstd::prelude::*;

use crate::binding::Platform;

verus! {

/// A scroll distance in wheel ticks.
///
/// Each axis is carried as the bit pattern of an IEEE 754 double-precision
/// number: a sign bit, eleven exponent bits, fifty-two fraction bits.
#[derive(Clone, Copy, Debug, PartialEq, Eq, Structural)]
pub struct ScrollDelta {
    pub x: u64,
    pub y: u64,
}

/// The pattern of a number without its sign bit. Patterns without sign are
/// ordered as the magnitudes they stand for.
pub open spec fn magnitude(bits: u64) -> u64 {
    bits % 0x8000_0000_0000_0000
}

/// Whether the pattern is that of a finite number: infinity is the least
/// magnitude that is not, and every NaN lies above it.
pub open spec fn is_finite_pattern(bits: u64) -> bool {
    magnitude(bits) < 0x7ff0_0000_0000_0000
}

/// Whether the pattern is that of zero, of either sign.
pub open spec fn is_zero_pattern(bits: u64) -> bool {
    magnitude(bits) == 0
}

fn axis_is_finite(bits: u64) -> (finite: bool)
    ensures
        finite == is_finite_pattern(bits),
{
    bits % 0x8000_0000_0000_0000 < 0x7ff0_0000_0000_0000
}

fn axis_is_zero(bits: u64) -> (zero: bool)
    ensures
        zero == is_zero_pattern(bits),
{
    bits % 0x8000_0000_0000_0000 == 0
}

impl ScrollDelta {
    pub open spec fn spec_is_finite(self) -> bool {
        is_finite_pattern(self.x) && is_finite_pattern(self.y)
    }

    pub open spec fn spec_is_zero(self) -> bool {
        is_zero_pattern(self.x) && is_zero_pattern(self.y)
    }

    /// Whether both axes are finite numbers.
    pub fn is_finite(&self) -> (finite: bool)
        ensures
            finite == self.spec_is_finite(),
    {
        axis_is_finite(self.x) && axis_is_finite(self.y)
    }

    /// Whether both axes are zero.
    pub fn is_zero(&self) -> (zero: bool)
        ensures
            zero == self.spec_is_zero(),
    {
        axis_is_zero(self.x) && axis_is_zero(self.y)
    }
}

/// Lifecycle phase of one synthetic smooth-scroll frame.
///
/// macOS forwards this state to the scroll-wheel event so applications see a
/// balanced continuous gesture. Linux and Windows have no equivalent field;
/// there the phase is retained by the runtime contract but only the frame's
/// distance is injected.
#[derive(Clone, Copy, Debug, PartialEq, Eq, Structural)]
pub enum SmoothScrollPhase {
    /// First output frame of a new animation.
    Began,
    /// An intermediate output frame, including frames after retargeting.
    Changed,
    /// Final frame, carrying any correction needed to reach the exact target.
    Ended,
    /// The capture source ended before the animation reached its target.
    Cancelled,
}

/// What a backend has to post for one scroll frame.
#[derive(Clone, Copy, Debug, PartialEq, Eq, Structural)]
pub enum ScrollPost {
    /// The frame is dropped.
    Nothing,
    /// A wheel distance at the current focus.
    Wheel(ScrollDelta),
    /// One frame of a continuous gesture.
    Smooth(ScrollDelta, SmoothScrollPhase),
}

/// What a typed scroll distance posts.
pub open spec fn scroll_post(platform: Platform, delta: ScrollDelta) -> ScrollPost {
    if delta.spec_is_finite() && !delta.spec_is_zero() && !(platform is Other) {
        ScrollPost::Wheel(delta)
    } else {
        ScrollPost::Nothing
    }
}

/// What one frame of a smooth-scroll animation posts.
pub open spec fn smooth_scroll_post(
    platform: Platform,
    delta: ScrollDelta,
    phase: SmoothScrollPhase,
) -> ScrollPost {
    if platform is MacOs && delta.spec_is_finite() {
        ScrollPost::Smooth(delta, phase)
    } else if platform is MacOs {
        ScrollPost::Nothing
    } else {
        scroll_post(platform, delta)
    }
}

/// Synthesise a typed scroll distance at the current focus.
///
/// Non-finite input is rejected, and so is a frame that moves nothing.
pub fn post_scroll(platform: Platform, delta: ScrollDelta) -> (post: ScrollPost)
    ensures
        post == scroll_post(platform, delta),
{
    if !delta.is_finite() || delta.is_zero() {
        return ScrollPost::Nothing;
    }
    match platform {
        Platform::MacOs | Platform::Linux | Platform::Windows => ScrollPost::Wheel(delta),
        Platform::Other => ScrollPost::Nothing,
    }
}

/// Synthesise one frame of a finite smooth-scroll animation.
///
/// On macOS the frame is a continuous gesture event. Other platforms preserve
/// fractional wheel ticks through their native high-resolution output.
/// Non-finite distance is rejected; zero-distance terminal frames remain
/// meaningful on macOS.
pub fn post_smooth_scroll(
    platform: Platform,
    delta: ScrollDelta,
    phase: SmoothScrollPhase,
) -> (post: ScrollPost)
    ensures
        post == smooth_scroll_post(platform, delta, phase),
{
    if !delta.is_finite() {
        return ScrollPost::Nothing;
    }
    match platform {
        Platform::MacOs => ScrollPost::Smooth(delta, phase),
        _ => post_scroll(platform, delta),
    }
}

/// No platform posts a distance that is not finite.
pub proof fn law_non_finite_scroll_is_rejected(
    platform: Platform,
    delta: ScrollDelta,
    phase: SmoothScrollPhase,
)
    requires
        !delta.spec_is_finite(),
    ensures
        scroll_post(platform, delta) is Nothing,
        smooth_scroll_post(platform, delta, phase) is Nothing,
{
}

/// Off macOS the phase of a frame changes nothing: the frame posts what its
/// distance alone posts.
pub proof fn law_phase_is_macos_only(
    platform: Platform,
    delta: ScrollDelta,
    phase: SmoothScrollPhase,
)
    requires
        !(platform is MacOs),
    ensures
        smooth_scroll_post(platform, delta, phase) == scroll_post(platform, delta),
{
}

/// On macOS every finite frame reaches the gesture with its phase, those of no
/// distance too.
pub proof fn law_finite_frames_reach_the_gesture(delta: ScrollDelta, phase: SmoothScrollPhase)
    requires
        delta.spec_is_finite(),
    ensures
        smooth_scroll_post(Platform::MacOs, delta, phase) == ScrollPost::Smooth(delta, phase),
{
}

/// Whether a pattern is that of a number other than infinity and NaN, read off
/// its exponent bits: they are not all set.
pub open spec fn has_finite_exponent(bits: u64) -> bool {
    (bits / 0x0010_0000_0000_0000) % 0x800 != 0x7ff
}

/// Whether a pattern is that of the positive or the negative zero.
pub open spec fn is_either_zero(bits: u64) -> bool {
    bits == 0 || bits == 0x8000_0000_0000_0000
}

/// A distance is posted whole wherever both axes are numbers and one of them is
/// not zero, whichever one that is; any other is dropped. A target without a
/// backend posts none.
pub proof fn law_every_movement_is_posted(platform: Platform, delta: ScrollDelta)
    ensures
        ({
            let numbers = has_finite_exponent(delta.x) && has_finite_exponent(delta.y);
            let moves = !is_either_zero(delta.x) || !is_either_zero(delta.y);
            &&& platform != Platform::Other && numbers && moves ==> scroll_post(platform, delta)
                == ScrollPost::Wheel(delta)
            &&& platform == Platform::Other || !numbers || !moves ==> scroll_post(platform, delta)
                == ScrollPost::Nothing
        }),
{
    lemma_patterns(delta.x);
    lemma_patterns(delta.y);
}

/// One frame of a smooth scroll: on macOS every frame of numbers goes out with
/// its own distance and phase, one that moves nothing included. Elsewhere a
/// frame goes out as its distance alone would.
pub proof fn law_every_frame_is_posted(
    platform: Platform,
    delta: ScrollDelta,
    phase: SmoothScrollPhase,
)
    ensures
        ({
            let numbers = has_finite_exponent(delta.x) && has_finite_exponent(delta.y);
            let moves = !is_either_zero(delta.x) || !is_either_zero(delta.y);
            smooth_scroll_post(platform, delta, phase) == match platform {
                Platform::MacOs => if numbers {
                    ScrollPost::Smooth(delta, phase)
                } else {
                    ScrollPost::Nothing
                },
                Platform::Other => ScrollPost::Nothing,
                _ => if numbers && moves {
                    ScrollPost::Wheel(delta)
                } else {
                    ScrollPost::Nothing
                },
            }
        }),
{
    lemma_patterns(delta.x);
    lemma_patterns(delta.y);
}

/// Only the exponent decides whether a distance is a number, and only the two
/// zeroes are zero, on either axis.
pub proof fn law_axes_are_judged_alike(delta: ScrollDelta)
    ensures
        delta.spec_is_finite() <==> has_finite_exponent(delta.x) && has_finite_exponent(delta.y),
        delta.spec_is_zero() <==> is_either_zero(delta.x) && is_either_zero(delta.y),
{
    lemma_patterns(delta.x);
    lemma_patterns(delta.y);
}

proof fn lemma_patterns(bits: u64)
    ensures
        is_finite_pattern(bits) == has_finite_exponent(bits),
        is_zero_pattern(bits) == is_either_zero(bits),
{
    assert((bits % 0x8000_0000_0000_0000 < 0x7ff0_0000_0000_0000) == ((bits
        / 0x0010_0000_0000_0000) % 0x800 != 0x7ff)) by (bit_vector);
    assert((bits % 0x8000_0000_0000_0000 == 0) == (bits == 0 || bits == 0x8000_0000_0000_0000))
        by (bit_vector);
}

} // verus!
