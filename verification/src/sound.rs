//! Short cues on entering and leaving capture.
//!
//! The cues are played by the application (MCI, from its own thread, opened once
//! in advance). The exit cue is the start cue reversed in time: the decoded
//! samples have the silence the mp3 coder adds cut from both ends, then their
//! frames are reversed (frames, not samples, so that stereo channels keep their
//! places). This module decides which cue a press plays and does the integer
//! work on the samples.
use vstd::prelude::*;

verus! {

/// Which cue to play.
#[derive(Clone, Copy, PartialEq, Eq, Debug, Structural)]
pub enum Cue {
    Start,
    Stop,
}

/// Whether capture is under way, and the cues asked for and not yet played.
pub struct Cues {
    active: bool,
    pending: Vec<Cue>,
}

impl Cues {
    pub closed spec fn is_active(&self) -> bool {
        self.active
    }

    pub closed spec fn pending_spec(&self) -> Seq<Cue> {
        self.pending@
    }

    /// Not capturing, nothing asked for.
    pub fn new() -> (r: Self)
        ensures
            !r.is_active(),
            r.pending_spec() == Seq::<Cue>::empty(),
    {
        Cues { active: false, pending: Vec::new() }
    }

    /// The cues to play, oldest first; none remain.
    pub fn take(&mut self) -> (r: Vec<Cue>)
        ensures
            r@ == old(self).pending_spec(),
            final(self).pending_spec() == Seq::<Cue>::empty(),
            final(self).is_active() == old(self).is_active(),
    {
        let mut r = Vec::new();
        std::mem::swap(&mut r, &mut self.pending);
        r
    }
}

/// Whether capture is under way (the application says so every frame).
pub fn set_active(cues: &mut Cues, on: bool)
    ensures
        final(cues).is_active() == on,
        final(cues).pending_spec() == old(cues).pending_spec(),
{
    cues.active = on;
}

/// A press of the hotkey: the start cue, unless capture is already under way
/// (then the press means exit, and the exit cue is played by [`play_exit`]).
pub fn play_enter(cues: &mut Cues)
    ensures
        final(cues).is_active() == old(cues).is_active(),
        final(cues).pending_spec() == if old(cues).is_active() {
            old(cues).pending_spec()
        } else {
            old(cues).pending_spec().push(Cue::Start)
        },
{
    if !cues.active {
        cues.pending.push(Cue::Start);
    }
}

/// Capture ended, whatever ended it: the exit cue, once per exit.
pub fn play_exit(cues: &mut Cues)
    ensures
        final(cues).is_active() == old(cues).is_active(),
        final(cues).pending_spec() == old(cues).pending_spec().push(Cue::Stop),
{
    cues.pending.push(Cue::Stop);
}

pub open spec fn abs(x: i16) -> int {
    if x < 0 {
        -(x as int)
    } else {
        x as int
    }
}

/// The largest amplitude among the first `n` samples (0 for none).
pub open spec fn peak_of(s: Seq<i16>, n: int) -> int
    decreases n,
{
    if n <= 0 {
        0
    } else {
        let rest = peak_of(s, n - 1);
        if abs(s[n - 1]) > rest {
            abs(s[n - 1])
        } else {
            rest
        }
    }
}

/// The largest amplitude of the samples.
pub fn peak(samples: &[i16]) -> (r: i32)
    ensures
        r == peak_of(samples@, samples@.len() as int),
        forall|i: int| 0 <= i < samples@.len() ==> abs(#[trigger] samples@[i]) <= r,
{
    let mut best: i32 = 0;
    let mut i: usize = 0;
    while i < samples.len()
        invariant
            i <= samples.len(),
            best == peak_of(samples@, i as int),
            forall|j: int| 0 <= j < i ==> abs(#[trigger] samples@[j]) <= best,
        decreases samples.len() - i,
    {
        let x = samples[i] as i32;
        let a = if x < 0 { -x } else { x };
        if a > best {
            best = a;
        }
        i += 1;
    }
    best
}

/// Below this amplitude a frame is silence (about −48 dB of full scale).
pub const SILENCE: i16 = 128;

/// `i16::saturating_abs`.
pub open spec fn sat_abs(x: i16) -> int {
    if x == i16::MIN {
        i16::MAX as int
    } else {
        abs(x)
    }
}

/// Frame `f` (of `ch` channels) has a sample whose amplitude reaches `SILENCE`.
pub open spec fn loud(s: Seq<i16>, ch: int, f: int) -> bool {
    exists|c: int| 0 <= c < ch && sat_abs(#[trigger] s[f * ch + c]) >= SILENCE
}

/// The first loud frame from `f` on, or `frames` when there is none.
pub open spec fn first_loud(s: Seq<i16>, ch: int, frames: int, f: int) -> int
    decreases frames - f,
{
    if f >= frames || f < 0 {
        frames
    } else if loud(s, ch, f) {
        f
    } else {
        first_loud(s, ch, frames, f + 1)
    }
}

/// The last loud frame below `f`, or -1 when there is none.
pub open spec fn last_loud(s: Seq<i16>, ch: int, f: int) -> int
    decreases f,
{
    if f <= 0 {
        -1
    } else if loud(s, ch, f - 1) {
        f - 1
    } else {
        last_loud(s, ch, f - 1)
    }
}

/// Silence cut from both ends, by whole frames: from the first loud frame to the
/// last one. Silence throughout is kept as it is.
pub open spec fn spec_trim_silence(s: Seq<i16>, ch: int) -> Seq<i16> {
    let frames = (s.len() as int) / ch;
    let first = first_loud(s, ch, frames, 0);
    if first >= frames {
        s
    } else {
        s.subrange(first * ch, (last_loud(s, ch, frames) + 1) * ch)
    }
}

proof fn lemma_frame_in_bounds(f: int, c: int, ch: int, frames: int, len: int)
    requires
        0 <= f < frames,
        0 <= c < ch,
        frames == len / ch,
        ch > 0,
        len >= 0,
    ensures
        0 <= f * ch + c < len,
        f * ch + ch <= len,
        (f + 1) * ch == f * ch + ch,
{
    assert(frames * ch <= len) by (nonlinear_arith)
        requires
            frames == len / ch,
            ch > 0,
            len >= 0,
    ;
    assert(f * ch + ch <= frames * ch) by (nonlinear_arith)
        requires
            f < frames,
            ch > 0,
    ;
    assert((f + 1) * ch == f * ch + ch) by (nonlinear_arith);
    assert(0 <= f * ch) by (nonlinear_arith)
        requires
            f >= 0,
            ch > 0,
    ;
}

proof fn lemma_index_before(g: int, k: int, f: int, ch: int)
    requires
        0 <= g < f,
        0 <= k < ch,
    ensures
        0 <= g * ch + k < f * ch,
{
    assert(g * ch + k < f * ch) by (nonlinear_arith)
        requires
            0 <= g < f,
            0 <= k < ch,
    ;
    assert(0 <= g * ch) by (nonlinear_arith)
        requires
            0 <= g,
            0 <= k < ch,
    ;
}

fn frame_loud(s: &[i16], ch: usize, f: usize, frames: usize) -> (r: bool)
    requires
        ch > 0,
        f < frames,
        frames == (s@.len() as int) / (ch as int),
    ensures
        r == loud(s@, ch as int, f as int),
{
    proof {
        lemma_frame_in_bounds(f as int, 0, ch as int, frames as int, s@.len() as int);
        assert(f * ch < s@.len());
    }
    let n = s.len();
    assert(f * ch < n);
    let base = f * ch;
    let mut c: usize = 0;
    while c < ch
        invariant
            c <= ch,
            ch > 0,
            f < frames,
            frames == (s@.len() as int) / (ch as int),
            base == f * ch,
            n == s@.len(),
            forall|k: int| 0 <= k < c ==> sat_abs(#[trigger] s@[f * ch + k]) < SILENCE,
        decreases ch - c,
    {
        proof {
            lemma_frame_in_bounds(f as int, c as int, ch as int, frames as int, s@.len() as int);
        }
        assert(f * ch + c < s@.len());
        let x = s[base + c];
        let a: i16 = if x == i16::MIN { i16::MAX } else if x < 0 { -x } else { x };
        if a >= SILENCE {
            assert(sat_abs(s@[f * ch + c]) >= SILENCE);
            return true;
        }
        c += 1;
    }
    false
}

/// Cut the silence the coder adds from both ends of a sound of `channels`
/// interleaved channels.
pub fn trim_silence(samples: &mut Vec<i16>, channels: usize)
    requires
        channels > 0,
    ensures
        final(samples)@ == spec_trim_silence(old(samples)@, channels as int),
{
    let frames = samples.len() / channels;
    let ghost s = samples@;
    let ghost ch = channels as int;
    let mut first: usize = 0;
    while first < frames && !frame_loud(samples, channels, first, frames)
        invariant
            first <= frames,
            frames == (s.len() as int) / ch,
            samples@ == s,
            ch == channels,
            channels > 0,
            first_loud(s, ch, frames as int, 0) == first_loud(s, ch, frames as int, first as int),
        decreases frames - first,
    {
        first += 1;
    }
    if first >= frames {
        return;
    }
    let mut last: usize = frames;
    while last > 0 && !frame_loud(samples, channels, last - 1, frames)
        invariant
            last <= frames,
            frames == (s.len() as int) / ch,
            samples@ == s,
            ch == channels,
            channels > 0,
            last_loud(s, ch, frames as int) == last_loud(s, ch, last as int),
        decreases last,
    {
        last -= 1;
    }
    proof {
        if last == 0 {
            assert(loud(s, ch, first as int));
            assert(last_loud(s, ch, 0) == -1);
            lemma_last_loud_at_least(s, ch, frames as int, first as int);
        }
        lemma_frame_in_bounds((last - 1) as int, 0, ch, frames as int, s.len() as int);
        lemma_frame_in_bounds(first as int, 0, ch, frames as int, s.len() as int);
    }
    let lo = first * channels;
    let hi = (last - 1) * channels + channels;
    let mut out: Vec<i16> = Vec::new();
    let mut k = lo;
    proof {
        lemma_last_loud_at_least(s, ch, frames as int, first as int);
        assert(lo <= hi) by (nonlinear_arith)
            requires
                first <= last - 1,
                lo == first * ch,
                hi == (last - 1) * ch + ch,
                ch > 0,
        ;
    }
    while k < hi
        invariant
            lo <= k <= hi <= s.len(),
            samples@ == s,
            out@ == s.subrange(lo as int, k as int),
        decreases hi - k,
    {
        out.push(samples[k]);
        k += 1;
        assert(out@ =~= s.subrange(lo as int, k as int));
    }
    *samples = out;
}

/// Some frame at or after `f` is loud when frame `f` is, so the last loud frame
/// is at least `f`.
proof fn lemma_last_loud_at_least(s: Seq<i16>, ch: int, n: int, f: int)
    requires
        0 <= f < n,
        loud(s, ch, f),
    ensures
        f <= last_loud(s, ch, n) < n,
    decreases n,
{
    if n - 1 != f && !loud(s, ch, n - 1) {
        lemma_last_loud_at_least(s, ch, n - 1, f);
    }
}

/// `r` is `s` with its whole frames (of `ch` channels) in reverse order; samples
/// past the last whole frame stay in place.
pub open spec fn is_frame_reversal(r: Seq<i16>, s: Seq<i16>, ch: int) -> bool {
    let frames = (s.len() as int) / ch;
    &&& r.len() == s.len()
    &&& forall|f: int, c: int|
        0 <= f < frames && 0 <= c < ch ==> #[trigger] r[f * ch + c] == s[(frames - 1 - f) * ch + c]
    &&& forall|i: int| frames * ch <= i < s.len() ==> #[trigger] r[i] == s[i]
}

/// Reverse a sound in time, frame by frame, keeping each frame's channels in order.
pub fn reverse_frames(samples: &mut Vec<i16>, channels: usize)
    requires
        channels > 0,
    ensures
        is_frame_reversal(final(samples)@, old(samples)@, channels as int),
{
    let ghost s = samples@;
    let ghost ch = channels as int;
    let len = samples.len();
    let frames = len / channels;
    proof {
        assert(frames * ch <= len) by (nonlinear_arith)
            requires
                frames == (len as int) / ch,
                ch > 0,
        ;
    }
    let mut out: Vec<i16> = Vec::new();
    let mut f: usize = 0;
    while f < frames
        invariant
            f <= frames,
            frames == (s.len() as int) / ch,
            len == s.len(),
            samples@ == s,
            ch == channels,
            channels > 0,
            frames * ch <= len,
            out@.len() == f * ch,
            forall|g: int, c: int|
                0 <= g < f && 0 <= c < ch ==> #[trigger] out@[g * ch + c] == s[(frames - 1 - g) * ch + c],
        decreases frames - f,
    {
        let src = frames - 1 - f;
        proof {
            lemma_frame_in_bounds(src as int, 0, ch, frames as int, len as int);
            lemma_frame_in_bounds(f as int, 0, ch, frames as int, len as int);
        }
        let mut c: usize = 0;
        while c < channels
            invariant
                c <= channels,
                f < frames,
                src == frames - 1 - f,
                frames == (s.len() as int) / ch,
                src * ch + ch <= len,
                len == s.len(),
                samples@ == s,
                ch == channels,
                channels > 0,
                out@.len() == f * ch + c,
                forall|g: int, k: int|
                    0 <= g < f && 0 <= k < ch ==> #[trigger] out@[g * ch + k] == s[(frames - 1 - g) * ch + k],
                forall|k: int| 0 <= k < c ==> #[trigger] out@[f * ch + k] == s[src * ch + k],
            decreases channels - c,
        {
            let ghost before = out@;
            out.push(samples[src * channels + c]);
            proof {
                assert forall|g: int, k: int| 0 <= g < f && 0 <= k < ch implies #[trigger] out@[g
                    * ch + k] == s[(frames - 1 - g) * ch + k] by {
                    lemma_index_before(g, k, f as int, ch);
                    assert(out@[g * ch + k] == before[g * ch + k]);
                }
            }
            c += 1;
        }
        proof {
            assert forall|g: int, k: int| 0 <= g < f + 1 && 0 <= k < ch implies #[trigger] out@[g * ch
                + k] == s[(frames - 1 - g) * ch + k] by {
                if g == f {
                } else {
                }
            }
            assert((f + 1) * ch == f * ch + ch) by (nonlinear_arith);
        }
        f += 1;
    }
    let mut i = frames * channels;
    while i < len
        invariant
            frames * ch <= i <= len,
            len == s.len(),
            samples@ == s,
            ch == channels,
            frames == (s.len() as int) / ch,
            out@.len() == i,
            forall|g: int, c: int|
                0 <= g < frames && 0 <= c < ch ==> #[trigger] out@[g * ch + c] == s[(frames - 1 - g) * ch + c],
            forall|j: int| frames * ch <= j < i ==> #[trigger] out@[j] == s[j],
        decreases len - i,
    {
        let ghost before = out@;
        out.push(samples[i]);
        proof {
            assert forall|g: int, c: int| 0 <= g < frames && 0 <= c < ch implies #[trigger] out@[g
                * ch + c] == s[(frames - 1 - g) * ch + c] by {
                lemma_index_before(g, c, frames as int, ch);
                assert(out@[g * ch + c] == before[g * ch + c]);
            }
        }
        i += 1;
    }
    *samples = out;
}

/// Reversing a sound twice gives it back.
pub proof fn law_reverse_twice(s: Seq<i16>, r1: Seq<i16>, r2: Seq<i16>, ch: int)
    requires
        ch > 0,
        is_frame_reversal(r1, s, ch),
        is_frame_reversal(r2, r1, ch),
    ensures
        r2 == s,
{
    let frames = (s.len() as int) / ch;
    assert forall|i: int| 0 <= i < s.len() implies r2[i] == s[i] by {
        if i < frames * ch {
            let f = i / ch;
            let c = i % ch;
            vstd::arithmetic::div_mod::lemma_fundamental_div_mod(i, ch);
            assert(0 <= c < ch);
            assert(0 <= f < frames) by (nonlinear_arith)
                requires
                    0 <= i < frames * ch,
                    f == i / ch,
                    ch > 0,
            ;
            assert(i == f * ch + c) by (nonlinear_arith)
                requires
                    i == ch * f + c,
            ;
            let g = frames - 1 - f;
            assert(0 <= g < frames);
            assert(r2[f * ch + c] == r1[g * ch + c]);
            assert(r1[g * ch + c] == s[(frames - 1 - g) * ch + c]);
        } else {
            assert(r2[i] == r1[i]);
        }
    }
    assert(r2 =~= s);
}

} // verus!
