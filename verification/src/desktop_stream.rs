//! Whole-screen capture source: fixed-cadence throttling measured from the
//! previous successful capture, and normalization of the capturer's BGRA
//! pixels to the protocol's 3-byte RGB layout.
//!
//! The pixel-capture primitive itself is a capability of the caller; each
//! poll hands its outcome in as a [`ScreenPoll`].

use vstd::prelude::*;

verus! {

/// What the platform capture primitive reported for one poll.
pub enum ScreenPoll {
    /// A raw frame, 4 bytes per pixel in BGRA order.
    Frame(Vec<u8>),
    /// The primitive is not ready yet; distinct from an error, and must not
    /// alter the cadence clock.
    NotReady,
    /// A hard capture error.
    Failed,
}

/// A fatal capture failure: the source is unusable and the session must end
/// or be given a fresh mode selection.
#[derive(Debug, Clone, PartialEq, Eq)]
pub enum CaptureError {
    Failed,
}

/// The BGRA byte sequence reordered to dense RGB, 3 bytes per pixel; any
/// trailing partial pixel is dropped.
pub open spec fn rgb_of_bgra(s: Seq<u8>) -> Seq<u8> {
    Seq::new(((s.len() / 4) * 3) as nat, |i: int| s[4 * (i / 3) + 2 - (i % 3)])
}

/// Converts a BGRA buffer to the protocol's RGB layout.
pub fn bgra_to_rgb(bgra: &Vec<u8>) -> (r: Vec<u8>)
    ensures
        r@ == rgb_of_bgra(bgra@),
{
    let n = bgra.len();
    let pixels = n / 4;
    let mut r: Vec<u8> = Vec::new();
    let mut p: usize = 0;
    while p < pixels
        invariant
            n == bgra@.len(),
            pixels == bgra@.len() / 4,
            p <= pixels,
            r@.len() == 3 * p,
            forall|i: int| 0 <= i < r@.len() ==> r@[i] == rgb_of_bgra(bgra@)[i],
        decreases pixels - p,
    {
        proof {
            vstd::arithmetic::div_mod::lemma_fundamental_div_mod(bgra@.len() as int, 4);
            assert(4 * pixels <= bgra@.len());
            assert(4 * p + 3 < 4 * pixels) by (nonlinear_arith)
                requires
                    p < pixels,
                    p >= 0,
            ;
        }
        r.push(bgra[4 * p + 2]);
        r.push(bgra[4 * p + 1]);
        r.push(bgra[4 * p]);
        assert forall|i: int| 3 * p <= i < 3 * p + 3 implies r@[i] == rgb_of_bgra(bgra@)[i] by {
            assert(i / 3 == p && i % 3 == i - 3 * p) by (nonlinear_arith)
                requires 3 * p <= i < 3 * p + 3, p >= 0;
            assert(rgb_of_bgra(bgra@)[i] == bgra@[4 * p + 2 - (i - 3 * p)]);
        }
        p = p + 1;
    }
    assert(r@ =~= rgb_of_bgra(bgra@));
    r
}

/// The screen capture source of one session: opened once at mode-resolution
/// time; the capturer's dimensions and the throttle state live here.
pub struct DesktopStreamer {
    pub screen_id: u32,
    /// Target cadence in frames per second; always at least one.
    pub frame_rate: u32,
    pub width: u32,
    pub height: u32,
    /// When the last successful capture happened, on the caller's monotonic
    /// millisecond clock.
    pub last_frame_ms: u64,
}

impl DesktopStreamer {
    /// The throttle is meaningful only for a positive frame rate.
    pub open spec fn wf(&self) -> bool {
        self.frame_rate >= 1
    }

    /// Milliseconds between frames at the target cadence.
    pub open spec fn interval_ms(&self) -> int {
        1000int / (self.frame_rate as int)
    }

    /// A frame is due once a full interval has passed since the last
    /// successful capture.
    pub open spec fn spec_due(&self, now_ms: u64) -> bool {
        now_ms - self.last_frame_ms >= self.interval_ms()
    }

    /// A source for `screen_id` with the capturer's reported dimensions,
    /// with the cadence clock starting at `now_ms`.
    pub fn new(screen_id: u32, frame_rate: u32, width: u32, height: u32, now_ms: u64) -> (r: Self)
        requires
            frame_rate >= 1,
        ensures
            r.wf(),
            r == (DesktopStreamer { screen_id, frame_rate, width, height, last_frame_ms: now_ms }),
    {
        DesktopStreamer { screen_id, frame_rate, width, height, last_frame_ms: now_ms }
    }

    /// Whether a capture attempt is due at `now_ms`.
    pub fn frame_due(&self, now_ms: u64) -> (r: bool)
        requires
            self.wf(),
            now_ms >= self.last_frame_ms,
        ensures
            r == self.spec_due(now_ms),
    {
        let interval: u64 = 1000 / (self.frame_rate as u64);
        now_ms - self.last_frame_ms >= interval
    }

    /// The source's width and height in pixels.
    pub fn get_dimensions(&self) -> (r: (u32, u32))
        ensures
            r == (self.width, self.height),
    {
        (self.width, self.height)
    }

    /// One capture poll: returns no frame before the cadence interval has
    /// passed or while the primitive is not ready (the cadence clock then
    /// stands still), the converted RGB frame on success (the clock advances
    /// to `now_ms`), and a fatal error if the primitive failed.
    pub fn capture_frame(&mut self, now_ms: u64, poll: ScreenPoll) -> (r: Result<
        Option<Vec<u8>>,
        CaptureError,
    >)
        requires
            old(self).wf(),
            now_ms >= old(self).last_frame_ms,
        ensures
            final(self).wf(),
            final(self).screen_id == old(self).screen_id,
            final(self).frame_rate == old(self).frame_rate,
            final(self).width == old(self).width,
            final(self).height == old(self).height,
            !old(self).spec_due(now_ms) ==> (r matches Ok(f) && f is None
                && *final(self) == *old(self)),
            old(self).spec_due(now_ms) ==> (poll matches ScreenPoll::Frame(bgra)
                ==> (r matches Ok(f) && f matches Some(rgb) && rgb@ == rgb_of_bgra(bgra@)
                && final(self).last_frame_ms == now_ms)),
            old(self).spec_due(now_ms) && poll is NotReady ==> (r matches Ok(f) && f is None
                && *final(self) == *old(self)),
            old(self).spec_due(now_ms) && poll is Failed ==> r == Result::<
                Option<Vec<u8>>,
                CaptureError,
            >::Err(CaptureError::Failed) && *final(self) == *old(self),
    {
        if !self.frame_due(now_ms) {
            return Ok(None);
        }
        match poll {
            ScreenPoll::Frame(bgra) => {
                self.last_frame_ms = now_ms;
                Ok(Some(bgra_to_rgb(&bgra)))
            },
            ScreenPoll::NotReady => Ok(None),
            ScreenPoll::Failed => Err(CaptureError::Failed),
        }
    }
}

} // verus!
