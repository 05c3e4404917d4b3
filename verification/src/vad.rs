//! Speech/silence marking of a recording, frame by frame.
//!
//! Each 20 ms frame is marked speech or silence by a detector with hysteresis: speech
//! begins only after [`RISE`] frames in a row above the switch-on threshold and
//! "rings" for [`HANG`] frames after the energy drops below the switch-off
//! threshold, so that the pauses between words do not split a phrase. The energy
//! and the adaptive thresholds are measured outside; here are the detector and the
//! reading of the marks.
use vstd::prelude::*;

verus! {

/// Frames in a row above the switch-on threshold that start speech (60 ms).
pub const RISE: usize = 3;
/// Frames speech keeps "ringing" after the energy drops (300 ms).
pub const HANG: usize = 15;

/// The speech detector: whether speech is on, how many frames in a row were loud
/// enough to start it, and how many frames of ringing are left.
#[derive(Clone, Copy, Debug, PartialEq, Eq, Structural)]
pub struct SpeechGate {
    pub in_speech: bool,
    pub rise: usize,
    pub hang: usize,
}

/// One frame through the detector: `above_on` — the frame reaches the switch-on
/// threshold, `above_off` — it reaches the switch-off threshold.
pub open spec fn gate_next(g: SpeechGate, above_on: bool, above_off: bool) -> SpeechGate {
    if g.in_speech {
        if above_off {
            SpeechGate { in_speech: true, rise: g.rise, hang: HANG }
        } else if g.hang > 0 {
            SpeechGate { in_speech: true, rise: g.rise, hang: (g.hang - 1) as usize }
        } else {
            SpeechGate { in_speech: false, rise: g.rise, hang: g.hang }
        }
    } else if above_on {
        if g.rise + 1 >= RISE {
            SpeechGate { in_speech: true, rise: (g.rise + 1) as usize, hang: HANG }
        } else {
            SpeechGate { in_speech: false, rise: (g.rise + 1) as usize, hang: g.hang }
        }
    } else {
        SpeechGate { in_speech: false, rise: 0, hang: g.hang }
    }
}

/// The detector's bound: ringing never exceeds [`HANG`].
pub open spec fn gate_wf(g: SpeechGate) -> bool {
    g.hang <= HANG
}

impl SpeechGate {
    /// A detector in silence.
    pub fn new() -> (r: SpeechGate)
        ensures
            r == (SpeechGate { in_speech: false, rise: 0, hang: 0 }),
            gate_wf(r),
    {
        SpeechGate { in_speech: false, rise: 0, hang: 0 }
    }

    /// Passes one frame through the detector and returns its mark (speech or not).
    ///
    /// The rise counter is not reset when speech ends, only by a frame below the
    /// switch-on threshold; it counts at most the frames fed so far.
    pub fn next(&mut self, above_on: bool, above_off: bool) -> (speech: bool)
        requires
            gate_wf(*old(self)),
            old(self).rise < usize::MAX,
        ensures
            *final(self) == gate_next(*old(self), above_on, above_off),
            gate_wf(*final(self)),
            speech == final(self).in_speech,
    {
        if self.in_speech {
            if above_off {
                self.hang = HANG;
            } else if self.hang > 0 {
                self.hang -= 1;
            } else {
                self.in_speech = false;
            }
        } else if above_on {
            self.rise += 1;
            if self.rise >= RISE {
                self.in_speech = true;
                self.hang = HANG;
            }
        } else {
            self.rise = 0;
        }
        self.in_speech
    }
}

/// Law: from silence, a frame below the switch-on threshold keeps the detector silent
/// and starts the count anew, and a loud frame starts speech exactly when it
/// completes [`RISE`] loud frames in a row. From a fresh count, the first
/// `RISE - 1` loud frames do not start speech.
pub proof fn law_speech_needs_rise(g: SpeechGate, above_off: bool)
    requires
        gate_wf(g),
        !g.in_speech,
    ensures
        !gate_next(g, false, above_off).in_speech,
        gate_next(g, false, above_off).rise == 0,
        gate_next(g, true, above_off).in_speech <==> g.rise + 1 >= RISE,
        g.rise == 0 ==> !gate_next(g, true, above_off).in_speech && !gate_next(
            gate_next(g, true, above_off),
            true,
            above_off,
        ).in_speech,
{
}

/// Law: once on, speech lasts at least [`HANG`] more quiet frames: a quiet frame
/// only ends speech when no ringing is left.
pub proof fn law_speech_hangs(g: SpeechGate, above_on: bool, above_off: bool)
    requires
        gate_wf(g),
        g.in_speech,
    ensures
        above_off ==> gate_next(g, above_on, above_off).in_speech && gate_next(
            g,
            above_on,
            above_off,
        ).hang == HANG,
        !gate_next(g, above_on, above_off).in_speech ==> !above_off && g.hang == 0,
{
}

/// What a stretch of the recording holds (all in samples, relative to its start).
#[derive(Clone, Copy, Debug, PartialEq, Eq, Structural)]
pub struct Segment {
    pub has_speech: bool,
    /// Where speech ends (only silence follows).
    pub speech_end: usize,
    /// Length of the closing silence.
    pub silence: usize,
    /// Samples analysed in all.
    pub analysed: usize,
    /// Samples of speech in the stretch, wherever they lie.
    pub speech: usize,
}

/// Number of silent frames at the end of the marks.
pub open spec fn silent_tail(f: Seq<bool>) -> nat
    decreases f.len(),
{
    if f.len() == 0 || f.last() {
        0
    } else {
        1 + silent_tail(f.drop_last())
    }
}

/// Number of speech frames among the marks.
pub open spec fn speech_count(f: Seq<bool>) -> nat
    decreases f.len(),
{
    if f.len() == 0 {
        0
    } else {
        speech_count(f.drop_last()) + if f.last() {
            1nat
        } else {
            0nat
        }
    }
}

proof fn lemma_silent_tail_bound(f: Seq<bool>)
    ensures
        silent_tail(f) <= f.len(),
        silent_tail(f) < f.len() ==> f[f.len() - silent_tail(f) - 1],
        speech_count(f) <= f.len(),
        speech_count(f) <= f.len() - silent_tail(f),
        speech_count(f) == 0 <==> silent_tail(f) == f.len(),
    decreases f.len(),
{
    if f.len() > 0 {
        lemma_silent_tail_bound(f.drop_last());
        if !f.last() {
            let g = f.drop_last();
            if silent_tail(g) < g.len() {
                assert(f[f.len() - silent_tail(f) - 1] == g[g.len() - silent_tail(g) - 1]);
            }
        }
    }
}

/// The stretch of marks starting at sample `from`.
pub open spec fn marks_from(flags: Seq<bool>, frame: nat, from: nat) -> Seq<bool> {
    let f0 = if from / frame <= flags.len() {
        (from / frame) as int
    } else {
        flags.len() as int
    };
    flags.skip(f0)
}

/// Reading of the marks from sample `from` on, in samples.
pub open spec fn spec_segment(flags: Seq<bool>, frame: nat, from: nat) -> Segment {
    let f = marks_from(flags, frame, from);
    let tail = silent_tail(f);
    Segment {
        has_speech: f.len() > tail,
        speech_end: ((f.len() - tail) * frame) as usize,
        silence: (tail * frame) as usize,
        analysed: (f.len() * frame) as usize,
        speech: (speech_count(f) * frame) as usize,
    }
}

/// Reads the marks of the recording from sample `from` on: whether there is
/// speech, where it ends, how long the closing silence is, how much is analysed.
pub fn segment(flags: &[bool], frame: usize, from: usize) -> (r: Segment)
    requires
        frame > 0,
        flags.len() * frame <= usize::MAX,
    ensures
        r == spec_segment(flags@, frame as nat, from as nat),
        r.speech_end + r.silence == r.analysed,
        r.speech <= r.speech_end,
        r.has_speech <==> r.speech > 0,
        r.has_speech <==> r.speech_end > 0,
{
    let f0 = if from / frame <= flags.len() {
        from / frame
    } else {
        flags.len()
    };
    let ghost f = flags@.skip(f0 as int);
    let n = flags.len() - f0;
    let mut tail: usize = 0;
    assert(f.take(f.len() as int) =~= f);
    while tail < n && !flags[flags.len() - 1 - tail]
        invariant
            n == f.len(),
            f == flags@.skip(f0 as int),
            f0 + n == flags.len(),
            tail <= n,
            forall|j: int| f.len() - tail <= j < f.len() ==> !f[j],
            silent_tail(f) == tail + silent_tail(f.take(f.len() - tail)),
        decreases n - tail,
    {
        let ghost g = f.take(f.len() - tail);
        assert(g.last() == flags@[flags.len() - 1 - tail]);
        assert(g.drop_last() =~= f.take(f.len() - tail - 1));
        tail += 1;
    }
    proof {
        let g = f.take(f.len() - tail);
        if tail < n {
            assert(g.last() == flags@[flags.len() - 1 - tail]);
        }
        assert(silent_tail(g) == 0);
    }
    let mut count: usize = 0;
    let mut i: usize = 0;
    while i < n
        invariant
            n == f.len(),
            f == flags@.skip(f0 as int),
            f0 + n == flags.len(),
            i <= n,
            count == speech_count(f.take(i as int)),
            count <= i,
        decreases n - i,
    {
        assert(f.take(i + 1).drop_last() =~= f.take(i as int));
        if flags[f0 + i] {
            count += 1;
        }
        i += 1;
    }
    assert(f.take(n as int) =~= f);
    proof {
        lemma_silent_tail_bound(f);
        assert(n * frame <= flags.len() * frame) by (nonlinear_arith)
            requires
                n <= flags.len(),
        ;
        assert((n - tail) * frame <= n * frame) by (nonlinear_arith)
            requires
                tail <= n,
        ;
        assert(count * frame <= (n - tail) * frame) by (nonlinear_arith)
            requires
                count <= n - tail,
        ;
        assert(tail * frame <= n * frame) by (nonlinear_arith)
            requires
                tail <= n,
        ;
        assert((n - tail) * frame + tail * frame == n * frame) by (nonlinear_arith);
        assert(count > 0 ==> count * frame > 0) by (nonlinear_arith)
            requires
                frame > 0,
        ;
        assert(n - tail > 0 ==> (n - tail) * frame > 0) by (nonlinear_arith)
            requires
                frame > 0,
        ;
    }
    Segment {
        has_speech: n > tail,
        speech_end: (n - tail) * frame,
        silence: tail * frame,
        analysed: n * frame,
        speech: count * frame,
    }
}

/// Runs of speech frames, as (first frame, frame after the last), in order.
pub open spec fn speech_runs(f: Seq<bool>) -> Seq<(nat, nat)>
    decreases f.len(),
{
    if f.len() == 0 {
        seq![]
    } else {
        let r = speech_runs(f.drop_last());
        let n = (f.len() - 1) as nat;
        if !f.last() {
            r
        } else if n > 0 && f[n - 1] {
            r.update(r.len() - 1, (r.last().0, f.len()))
        } else {
            r.push((n, f.len()))
        }
    }
}

/// Runs are non-empty, in order, and separated by silence.
pub open spec fn runs_wf(r: Seq<(nat, nat)>, len: nat) -> bool {
    &&& forall|i: int| 0 <= i < r.len() ==> (#[trigger] r[i]).0 < r[i].1 <= len
    &&& forall|i: int| 0 <= i < r.len() - 1 ==> (#[trigger] r[i]).1 < r[i + 1].0
}

/// Law: the speech runs are non-empty, ordered, apart from each other, and the
/// last one ends at the end of the marks exactly when the marks end in speech.
pub proof fn law_speech_runs_ordered(f: Seq<bool>)
    ensures
        runs_wf(speech_runs(f), f.len()),
        f.len() > 0 && f.last() ==> speech_runs(f).len() > 0 && speech_runs(f).last().1 == f.len(),
        speech_runs(f).len() > 0 ==> speech_runs(f).last().1 <= f.len(),
        f.len() > 0 && !f.last() ==> speech_runs(f).len() == 0 || speech_runs(f).last().1 < f.len(),
    decreases f.len(),
{
    if f.len() > 0 {
        let g = f.drop_last();
        law_speech_runs_ordered(g);
        let r = speech_runs(g);
        let n = (f.len() - 1) as nat;
        if f.last() && n > 0 && f[n - 1] {
            assert(g.last() == f[n - 1]);
            let r2 = r.update(r.len() - 1, (r.last().0, f.len()));
            assert forall|i: int| 0 <= i < r2.len() - 1 implies (#[trigger] r2[i]).1 < r2[i + 1].0 by {
                assert(r2[i] == r[i]);
                if i + 1 < r.len() - 1 {
                    assert(r2[i + 1] == r[i + 1]);
                }
            }
        } else if f.last() {
            if n > 0 {
                assert(g.last() == f[n - 1]);
            }
        }
    }
}

/// Speech runs in samples, for inspecting the marks by eye.
pub fn spans(flags: &[bool], frame: usize) -> (r: Vec<(usize, usize)>)
    requires
        flags.len() * frame <= usize::MAX,
    ensures
        r@.len() == speech_runs(flags@).len(),
        forall|i: int|
            0 <= i < r@.len() ==> (#[trigger] r@[i]).0 == speech_runs(flags@)[i].0 * frame
                && r@[i].1 == speech_runs(flags@)[i].1 * frame,
{
    let mut out: Vec<(usize, usize)> = Vec::new();
    let mut start: Option<usize> = None;
    let mut i: usize = 0;
    while i < flags.len()
        invariant
            i <= flags.len(),
            flags.len() * frame <= usize::MAX,
            start is Some <==> (i > 0 && flags@[i - 1]),
            start matches Some(a) ==> a < i,
            ({
                let runs = speech_runs(flags@.take(i as int));
                &&& runs.len() == out@.len() + if start is Some { 1int } else { 0int }
                &&& forall|k: int| 0 <= k < out@.len() ==> (#[trigger] out@[k]).0 == runs[k].0 * frame
                    && out@[k].1 == runs[k].1 * frame
                &&& start matches Some(a) ==> runs.last() == (a as nat, i as nat)
            }),
            forall|k: int| 0 <= k < out@.len() ==> out@[k].1 <= i * frame,
        decreases flags.len() - i,
    {
        let ghost pre = flags@.take(i as int);
        let ghost post = flags@.take(i + 1);
        assert(post.drop_last() =~= pre);
        if i > 0 {
            assert(post[i - 1] == flags@[i - 1]);
        }
        proof {
            assert(i * frame <= flags.len() * frame) by (nonlinear_arith)
                requires
                    i <= flags.len(),
            ;
            assert(i * frame <= (i + 1) * frame) by (nonlinear_arith);
        }
        match (flags[i], start) {
            (true, None) => {
                start = Some(i);
            },
            (false, Some(a)) => {
                proof {
                    assert(a * frame <= i * frame) by (nonlinear_arith)
                        requires
                            a <= i,
                    ;
                    law_speech_runs_ordered(pre);
                }
                out.push((a * frame, i * frame));
                start = None;
            },
            _ => {},
        }
        i += 1;
    }
    assert(flags@.take(flags.len() as int) =~= flags@);
    if let Some(a) = start {
        proof {
            law_speech_runs_ordered(flags@);
            assert(a * frame <= flags.len() * frame) by (nonlinear_arith)
                requires
                    a <= flags.len(),
            ;
        }
        out.push((a * frame, flags.len() * frame));
    }
    out
}

} // verus!
