//! Streaming dictation: words appear while the user is still talking and are
//! corrected in place.
//!
//! The current phrase is a draft. Each new recognition of it is compared with
//! what was already inserted: the common prefix stays, the rest is erased with
//! Backspace and typed anew. At a pause the phrase is committed and never
//! touched again; only the unfinished phrase may be rewritten, and only while
//! the user has not touched the keyboard or mouse.
use vstd::prelude::*;
use crate::text::{alphanumeric, char_lower, char_lowercase, is_alphanumeric, white_space};
use crate::words::{all_words, is_word, join_with_spaces, join_words, split_words, views, words_of, lemma_words_of_are_words, lemma_join_shape, lemma_words_of_join};
use crate::text::{chars_of, seq_eq, string_of, trim_start};
use crate::vad::Segment;

verus! {

/// How many of the last words of a phrase may still be rewritten.
pub const TAIL_WORDS: usize = 4;
/// How far (in words) a new hypothesis may shift against the shown one when
/// looking for the place to splice.
pub const WORD_SHIFT: usize = 3;
/// Largest single correction, in characters.
pub const MAX_REWRITE: usize = 120;

/// `ё` and `е` are the same letter for comparison.
pub open spec fn fold_yo(c: char) -> char {
    if c == 'ё' {
        'е'
    } else {
        c
    }
}

/// The letters and digits of a word, lowercased, with `ё` folded to `е`.
pub open spec fn word_core(s: Seq<char>) -> Seq<char>
    decreases s.len(),
{
    if s.len() == 0 {
        seq![]
    } else {
        word_core(s.drop_last()) + (if alphanumeric(s.last()) {
            char_lower(s.last()).map_values(|c: char| fold_yo(c))
        } else {
            seq![]
        })
    }
}

/// Two words are "the same in substance": equal cores, or, when a core is empty
/// (pure punctuation), equal as written.
pub open spec fn spec_same_word(a: Seq<char>, b: Seq<char>) -> bool {
    let ca = word_core(a);
    let cb = word_core(b);
    if ca.len() == 0 || cb.len() == 0 {
        a == b
    } else {
        ca == cb
    }
}

fn core_of(s: &[char]) -> (r: Vec<char>)
    ensures
        r@ == word_core(s@),
{
    let mut r: Vec<char> = Vec::new();
    let mut i: usize = 0;
    while i < s.len()
        invariant
            i <= s.len(),
            r@ == word_core(s@.take(i as int)),
        decreases s.len() - i,
    {
        let ghost pre = s@.take(i as int);
        let ghost post = s@.take(i + 1);
        assert(post.drop_last() =~= pre);
        let c = s[i];
        if is_alphanumeric(c) {
            let low = char_lowercase(c);
            let ghost base = r@;
            let mut k: usize = 0;
            while k < low.len()
                invariant
                    k <= low.len(),
                    low@ == char_lower(c),
                    r@ == base + low@.take(k as int).map_values(|x: char| fold_yo(x)),
                decreases low.len() - k,
            {
                let x = low[k];
                r.push(if x == 'ё' { 'е' } else { x });
                k += 1;
                assert(low@.take(k as int).map_values(|x: char| fold_yo(x)) =~= low@.take(
                    k - 1,
                ).map_values(|x: char| fold_yo(x)).push(fold_yo(x)));
                assert(r@ =~= base + low@.take(k as int).map_values(|x: char| fold_yo(x)));
            }
            assert(low@.take(low.len() as int) =~= low@);
        } else {
            assert(word_core(post) =~= word_core(pre));
        }
        i += 1;
    }
    assert(s@.take(s.len() as int) =~= s@);
    r
}

/// Whether two words are the same in substance (see [`spec_same_word`]).
pub fn same_word(a: &[char], b: &[char]) -> (r: bool)
    ensures
        r == spec_same_word(a@, b@),
{
    let ca = core_of(a);
    let cb = core_of(b);
    if ca.len() == 0 || cb.len() == 0 {
        crate::text::seq_eq(a, b)
    } else {
        crate::text::seq_eq(&ca, &cb)
    }
}

/// The `k`-th place looked at for the anchor word: the expected place first, then
/// outward, one step right and one step left at a time (left saturating at zero).
pub open spec fn candidate(want: int, k: int) -> int {
    if k % 2 == 0 {
        want + k / 2
    } else if want >= k / 2 {
        want - k / 2
    } else {
        0
    }
}

pub open spec fn anchor_hit(fresh: Seq<Seq<char>>, anchor: Seq<char>, i: int) -> bool {
    0 <= i < fresh.len() && spec_same_word(fresh[i], anchor)
}

/// The first candidate place, from the `k`-th on, where the anchor word is found.
pub open spec fn first_hit(fresh: Seq<Seq<char>>, anchor: Seq<char>, want: int, k: int) -> Option<
    int,
>
    decreases 2 * WORD_SHIFT + 2 - k,
{
    if k >= 2 * WORD_SHIFT + 2 {
        None
    } else if anchor_hit(fresh, anchor, candidate(want, k)) {
        Some(candidate(want, k))
    } else {
        first_hit(fresh, anchor, want, k + 1)
    }
}

/// Where the not yet frozen tail of the phrase begins in a new hypothesis: just
/// after the last frozen word, found near its expected place; everything when
/// nothing is frozen; nowhere when the anchor is not found.
pub open spec fn spec_tail_start(frozen: Seq<Seq<char>>, fresh: Seq<Seq<char>>) -> Option<int> {
    if frozen.len() == 0 {
        Some(0)
    } else {
        match first_hit(fresh, frozen.last(), frozen.len() - 1, 0) {
            Some(i) => Some(i + 1),
            None => None,
        }
    }
}

/// [`spec_tail_start`] over the first `frozen` shown words.
fn tail_start(words: &Vec<Vec<char>>, frozen: usize, fresh: &Vec<Vec<char>>) -> (r: Option<usize>)
    requires
        frozen <= words.len(),
    ensures
        r matches Some(t) ==> spec_tail_start(views(words@).take(frozen as int), views(fresh@))
            == Some(t as int),
        r is None ==> spec_tail_start(views(words@).take(frozen as int), views(fresh@)) is None,
{
    let ghost fz = views(words@).take(frozen as int);
    let ghost fr = views(fresh@);
    if frozen == 0 {
        return Some(0);
    }
    let anchor = &words[frozen - 1];
    assert(fz.last() == anchor@);
    let want = frozen - 1;
    let mut k: usize = 0;
    while k < 2 * WORD_SHIFT + 2
        invariant
            want == frozen - 1,
            1 <= frozen <= words.len(),
            fz.len() == frozen,
            fz == views(words@).take(frozen as int),
            anchor@ == fz.last(),
            fr == views(fresh@),
            k <= 2 * WORD_SHIFT + 2,
            first_hit(fr, fz.last(), want as int, 0) == first_hit(fr, fz.last(), want as int, k as int),
        decreases 2 * WORD_SHIFT + 2 - k,
    {
        let d = k / 2;
        if k % 2 == 0 {
            if d < fresh.len() && want < fresh.len() - d {
                let i = want + d;
                assert(i as int == candidate(want as int, k as int));
                if same_word(&fresh[i], anchor) {
                    assert(anchor_hit(fr, fz.last(), i as int));
                    assert(first_hit(fr, fz.last(), want as int, k as int) == Some(i as int));
                    return Some(i + 1);
                }
            } else {
                assert(!anchor_hit(fr, fz.last(), candidate(want as int, k as int)));
            }
        } else {
            let i = if want >= d {
                want - d
            } else {
                0
            };
            assert(i as int == candidate(want as int, k as int));
            if i < fresh.len() && same_word(&fresh[i], anchor) {
                assert(anchor_hit(fr, fz.last(), i as int));
                assert(first_hit(fr, fz.last(), want as int, k as int) == Some(i as int));
                return Some(i + 1);
            }
        }
        k += 1;
    }
    None
}

/// Length of the longest common prefix of two texts.
pub open spec fn common_prefix_len(a: Seq<char>, b: Seq<char>) -> nat
    decreases a.len(),
{
    if a.len() == 0 || b.len() == 0 || a[0] != b[0] {
        0
    } else {
        1 + common_prefix_len(a.drop_first(), b.drop_first())
    }
}

/// The common prefix is shared by both texts and cannot be extended.
pub proof fn lemma_common_prefix(a: Seq<char>, b: Seq<char>)
    ensures
        common_prefix_len(a, b) <= a.len(),
        common_prefix_len(a, b) <= b.len(),
        a.take(common_prefix_len(a, b) as int) == b.take(common_prefix_len(a, b) as int),
        common_prefix_len(a, b) < a.len() && common_prefix_len(a, b) < b.len() ==> a[common_prefix_len(a, b) as int] != b[common_prefix_len(a, b) as int],
    decreases a.len(),
{
    if a.len() == 0 || b.len() == 0 || a[0] != b[0] {
        assert(a.take(0) =~= b.take(0));
    } else {
        lemma_common_prefix(a.drop_first(), b.drop_first());
        let k = common_prefix_len(a.drop_first(), b.drop_first()) as int;
        assert forall|j: int| 0 <= j < k + 1 implies #[trigger] a.take(k + 1)[j] == b.take(k + 1)[j] by {
            if j > 0 {
                assert(a.drop_first().take(k)[j - 1] == b.drop_first().take(k)[j - 1]);
            }
        }
        assert(a.take(k + 1) =~= b.take(k + 1));
    }
}

proof fn lemma_common_prefix_step(a: Seq<char>, b: Seq<char>, i: int)
    requires
        0 <= i <= a.len(),
        i <= b.len(),
        a.take(i) == b.take(i),
    ensures
        common_prefix_len(a, b) == i + common_prefix_len(a.skip(i), b.skip(i)),
    decreases i,
{
    if i > 0 {
        assert(a[0] == a.take(i)[0]);
        assert(b[0] == b.take(i)[0]);
        assert(a.drop_first().take(i - 1) =~= b.drop_first().take(i - 1)) by {
            assert forall|j: int| 0 <= j < i - 1 implies #[trigger] a.drop_first().take(i - 1)[j]
                == b.drop_first().take(i - 1)[j] by {
                assert(a.take(i)[j + 1] == b.take(i)[j + 1]);
                assert(a.drop_first().take(i - 1)[j] == a.take(i)[j + 1]);
                assert(b.drop_first().take(i - 1)[j] == b.take(i)[j + 1]);
            }
        }
        lemma_common_prefix_step(a.drop_first(), b.drop_first(), i - 1);
        assert(a.drop_first().skip(i - 1) =~= a.skip(i));
        assert(b.drop_first().skip(i - 1) =~= b.skip(i));
    } else {
        assert(a.skip(0) =~= a);
        assert(b.skip(0) =~= b);
    }
}

/// How many leading characters two texts share.
pub fn common_prefix(a: &str, b: &str) -> (r: usize)
    ensures
        r == common_prefix_len(a@, b@),
{
    let x = crate::text::chars_of(a);
    let y = crate::text::chars_of(b);
    common_prefix_chars(&x, &y)
}

fn common_prefix_chars(a: &[char], b: &[char]) -> (r: usize)
    ensures
        r == common_prefix_len(a@, b@),
{
    let mut i: usize = 0;
    while i < a.len() && i < b.len() && a[i] == b[i]
        invariant
            i <= a.len(),
            i <= b.len(),
            a@.take(i as int) == b@.take(i as int),
        decreases a.len() - i,
    {
        assert(a@.take(i + 1) =~= a@.take(i as int).push(a@[i as int]));
        assert(b@.take(i + 1) =~= b@.take(i as int).push(b@[i as int]));
        i += 1;
    }
    proof {
        lemma_common_prefix_step(a@, b@, i as int);
        let (sa, sb) = (a@.skip(i as int), b@.skip(i as int));
        if sa.len() > 0 && sb.len() > 0 {
            assert(sa[0] == a@[i as int]);
            assert(sb[0] == b@[i as int]);
        }
    }
    i
}


/// What a [`Target`] holds, as plain sequences.
pub struct TargetView {
    /// Text is typed into the target window (`false` only simulates).
    pub insert: bool,
    /// Earlier phrases were committed: the next one starts with a space.
    pub prior: bool,
    /// Exactly what is inserted for the current phrase.
    pub shown: Seq<char>,
    /// The same, as words.
    pub words: Seq<Seq<char>>,
    /// The whole committed text of the session.
    pub full: Seq<char>,
    /// Size of the last correction: characters erased, characters typed.
    pub last_edit: (nat, nat),
}

/// The draft of the current phrase in the target window: knows what is written
/// there now and brings it to a new version with the smallest correction.
pub struct Target {
    insert: bool,
    prior: bool,
    shown: Vec<char>,
    words: Vec<Vec<char>>,
    full: Vec<char>,
    last_edit: (usize, usize),
}

impl View for Target {
    type V = TargetView;

    closed spec fn view(&self) -> TargetView {
        TargetView {
            insert: self.insert,
            prior: self.prior,
            shown: self.shown@,
            words: views(self.words@),
            full: self.full@,
            last_edit: (self.last_edit.0 as nat, self.last_edit.1 as nat),
        }
    }
}

/// The text of a phrase as inserted: its words joined by spaces, after a space
/// when an earlier phrase precedes it.
pub open spec fn render(prior: bool, words: Seq<Seq<char>>) -> Seq<char> {
    if prior {
        seq![' '] + join_words(words)
    } else {
        join_words(words)
    }
}

/// How many leading words of a phrase are frozen.
pub open spec fn frozen_count(n: nat) -> nat {
    if n >= TAIL_WORDS {
        (n - TAIL_WORDS) as nat
    } else {
        0
    }
}

/// The correction would start with a space after kept text: it then starts one
/// character earlier, so that the space is inside the insertion.
pub open spec fn shifted(want: Seq<char>, keep: nat) -> bool {
    keep > 0 && keep < want.len() && want[keep as int] == ' '
}

/// What an update decides for a hypothesis.
pub enum Plan {
    /// The hypothesis has no words.
    NoWords,
    /// The last frozen word was not found near its place.
    NoAnchor,
    /// The text would not change.
    Same,
    /// The correction would erase more than [`MAX_REWRITE`] characters.
    TooLarge { back: nat },
    /// Erase `back` characters and type `add`; the phrase becomes `want`.
    Write { back: nat, add: Seq<char>, want: Seq<char>, next: Seq<Seq<char>> },
}

pub open spec fn plan(t: TargetView, phrase: Seq<char>) -> Plan {
    let fresh = words_of(phrase);
    if fresh.len() == 0 {
        Plan::NoWords
    } else {
        let frozen = frozen_count(t.words.len());
        match spec_tail_start(t.words.take(frozen as int), fresh) {
            None => Plan::NoAnchor,
            Some(tail) => {
                let next = t.words.take(frozen as int) + fresh.skip(tail);
                let want = render(t.prior, next);
                if want == t.shown {
                    Plan::Same
                } else {
                    let keep = common_prefix_len(t.shown, want);
                    let back: nat = if shifted(want, keep) {
                        (t.shown.len() - keep + 1) as nat
                    } else {
                        (t.shown.len() - keep) as nat
                    };
                    let add = if shifted(want, keep) {
                        want.skip(keep - 1)
                    } else {
                        want.skip(keep as int)
                    };
                    if back > MAX_REWRITE {
                        Plan::TooLarge { back }
                    } else {
                        Plan::Write { back, add, want, next }
                    }
                }
            },
        }
    }
}

/// The phrase is over: it joins the committed text and is never touched again.
pub open spec fn committed(t: TargetView) -> TargetView {
    if t.shown.len() == 0 {
        t
    } else {
        TargetView {
            insert: t.insert,
            prior: true,
            shown: seq![],
            words: seq![],
            full: t.full + t.shown,
            last_edit: t.last_edit,
        }
    }
}

/// The user touched the input while a correction needs to erase: the phrase is
/// committed as it stands instead.
pub open spec fn interrupts(t: TargetView, back: nat, touched: bool) -> bool {
    t.insert && back > 0 && touched
}

/// The state after an update with the hypothesis `phrase`.
pub open spec fn after_update(t: TargetView, phrase: Seq<char>, touched: bool) -> TargetView {
    match plan(t, phrase) {
        Plan::Write { back, add, want, next } => {
            if interrupts(t, back, touched) {
                committed(t)
            } else {
                TargetView {
                    insert: t.insert,
                    prior: t.prior,
                    shown: want,
                    words: next,
                    full: t.full,
                    last_edit: (back, add.len()),
                }
            }
        },
        _ => t,
    }
}

/// Outcome of an update, for the caller to act on.
pub enum Update {
    /// The hypothesis had no words; nothing changed.
    NoWords,
    /// The hypothesis did not line up with the frozen start of the phrase.
    NoAnchor,
    /// The text is already as recognised.
    Unchanged,
    /// The correction would erase `back` characters, more than allowed.
    TooLarge { back: usize },
    /// The user touched the input: the phrase was committed as it is.
    Interrupted,
    /// Erase `back` characters before the caret, then type `add`.
    Edit { back: usize, add: String },
}

pub open spec fn update_matches(r: Update, p: Plan, t: TargetView, touched: bool) -> bool {
    match p {
        Plan::NoWords => r is NoWords,
        Plan::NoAnchor => r is NoAnchor,
        Plan::Same => r is Unchanged,
        Plan::TooLarge { back } => r matches Update::TooLarge { back: b } && b == back,
        Plan::Write { back, add, .. } => if interrupts(t, back, touched) {
            r is Interrupted
        } else {
            r matches Update::Edit { back: b, add: a } && b == back && a@ == add
        },
    }
}

/// A well-formed draft: its words are proper words, and what is shown is exactly
/// their rendering (nothing is shown when there are no words).
pub open spec fn target_wf(t: TargetView) -> bool {
    &&& all_words(t.words)
    &&& t.words.len() == 0 ==> t.shown.len() == 0
    &&& t.words.len() > 0 ==> t.shown == render(t.prior, t.words)
}

fn copy_chars(v: &[char]) -> (r: Vec<char>)
    ensures
        r@ == v@,
{
    let mut r: Vec<char> = Vec::new();
    let mut i: usize = 0;
    while i < v.len()
        invariant
            i <= v.len(),
            r@ == v@.take(i as int),
        decreases v.len() - i,
    {
        r.push(v[i]);
        i += 1;
        assert(r@ =~= v@.take(i as int));
    }
    assert(v@.take(v.len() as int) =~= v@);
    r
}

/// Appends copies of `ws[from..to]` to `out`.
fn copy_words(ws: &Vec<Vec<char>>, from: usize, to: usize, out: &mut Vec<Vec<char>>)
    requires
        from <= to <= ws.len(),
    ensures
        views(final(out)@) == views(old(out)@) + views(ws@).subrange(from as int, to as int),
{
    let ghost base = views(out@);
    let mut i = from;
    while i < to
        invariant
            from <= i <= to <= ws.len(),
            views(out@) == base + views(ws@).subrange(from as int, i as int),
        decreases to - i,
    {
        let w = copy_chars(&ws[i]);
        let ghost o = out@;
        out.push(w);
        assert(views(out@) =~= views(o).push(w@));
        i += 1;
        assert(views(ws@).subrange(from as int, i as int) =~= views(ws@).subrange(
            from as int,
            i - 1,
        ).push(ws@[i - 1]@));
    }
}

impl Target {
    /// Well-formed: the view satisfies [`target_wf`].
    pub open spec fn wf(&self) -> bool {
        target_wf(self@)
    }

    /// A fresh draft: nothing shown, nothing committed.
    pub fn new(insert: bool) -> (r: Target)
        ensures
            r.wf(),
            r@.insert == insert,
            !r@.prior,
            r@.shown.len() == 0,
            r@.words.len() == 0,
            r@.full.len() == 0,
            r@.last_edit == (0nat, 0nat),
    {
        let r = Target {
            insert,
            prior: false,
            shown: Vec::new(),
            words: Vec::new(),
            full: Vec::new(),
            last_edit: (0, 0),
        };
        assert(views(r.words@) =~= Seq::<Seq<char>>::empty());
        r
    }

    /// Size of the last correction: characters erased, characters typed.
    pub fn last_edit(&self) -> (r: (usize, usize))
        ensures
            r.0 as nat == self@.last_edit.0,
            r.1 as nat == self@.last_edit.1,
    {
        self.last_edit
    }

    /// Forget the size of the last correction.
    pub fn clear_last_edit(&mut self)
        requires
            old(self).wf(),
        ensures
            final(self).wf(),
            final(self)@ == (TargetView { last_edit: (0nat, 0nat), ..old(self)@ }),
    {
        self.last_edit = (0, 0);
    }

    /// What is shown for the current phrase.
    pub fn shown(&self) -> (r: String)
        ensures
            r@ == self@.shown,
    {
        string_of(&self.shown)
    }

    /// The whole text of the session: committed phrases and the current draft.
    pub fn session_text(&self) -> (r: String)
        ensures
            r@ == self@.full + self@.shown,
    {
        let mut v = copy_chars(&self.full);
        let mut i: usize = 0;
        let ghost base = v@;
        while i < self.shown.len()
            invariant
                i <= self.shown.len(),
                v@ == base + self.shown@.take(i as int),
            decreases self.shown.len() - i,
        {
            v.push(self.shown[i]);
            i += 1;
            assert(v@ =~= base + self.shown@.take(i as int));
        }
        assert(self.shown@.take(self.shown.len() as int) =~= self.shown@);
        string_of(&v)
    }

    /// The current draft without its leading whitespace (for the log).
    pub fn draft(&self) -> (r: String)
        ensures
            r@ == trim_start(self@.shown),
    {
        let mut i: usize = 0;
        assert(self.shown@.skip(0) =~= self.shown@);
        while i < self.shown.len() && crate::text::is_whitespace(self.shown[i])
            invariant
                i <= self.shown.len(),
                trim_start(self.shown@) == trim_start(self.shown@.skip(i as int)),
            decreases self.shown.len() - i,
        {
            assert(self.shown@.skip(i as int).drop_first() =~= self.shown@.skip(i + 1));
            assert(self.shown@.skip(i as int)[0] == self.shown@[i as int]);
            i += 1;
        }
        let rest = &self.shown;
        let mut out: Vec<char> = Vec::new();
        let mut k = i;
        while k < rest.len()
            invariant
                i <= k <= rest.len(),
                rest@ == self.shown@,
                out@ == self.shown@.subrange(i as int, k as int),
            decreases rest.len() - k,
        {
            out.push(rest[k]);
            k += 1;
            assert(out@ =~= self.shown@.subrange(i as int, k as int));
        }
        assert(self.shown@.subrange(i as int, self.shown.len() as int) =~= self.shown@.skip(i as int));
        let ghost t = self.shown@.skip(i as int);
        assert(t.len() == 0 || !white_space(t[0]));
        string_of(&out)
    }

    /// The phrase is over: it is no longer touched.
    pub fn commit(&mut self)
        requires
            old(self).wf(),
        ensures
            final(self).wf(),
            final(self)@ == committed(old(self)@),
    {
        if self.shown.len() == 0 {
            return;
        }
        let mut full = copy_chars(&self.full);
        let ghost old_full = self.full@;
        let mut i: usize = 0;
        while i < self.shown.len()
            invariant
                i <= self.shown.len(),
                full@ == old_full + self.shown@.take(i as int),
            decreases self.shown.len() - i,
        {
            let c = self.shown[i];
            full.push(c);
            i += 1;
            assert(full@ =~= old_full + self.shown@.take(i as int));
        }
        assert(self.shown@.take(self.shown.len() as int) =~= self.shown@);
        self.full = full;
        self.shown = Vec::new();
        self.words = Vec::new();
        self.prior = true;
        assert(views(self.words@) =~= Seq::<Seq<char>>::empty());
        assert(self.shown@ =~= Seq::<char>::empty());
    }
}

proof fn lemma_first_hit_range(fresh: Seq<Seq<char>>, anchor: Seq<char>, want: int, k: int)
    ensures
        first_hit(fresh, anchor, want, k) matches Some(i) ==> 0 <= i < fresh.len(),
    decreases 2 * WORD_SHIFT + 2 - k,
{
    if k < 2 * WORD_SHIFT + 2 && !anchor_hit(fresh, anchor, candidate(want, k)) {
        lemma_first_hit_range(fresh, anchor, want, k + 1);
    }
}

/// The tail found for a hypothesis lies within it.
proof fn lemma_tail_range(frozen: Seq<Seq<char>>, fresh: Seq<Seq<char>>)
    ensures
        spec_tail_start(frozen, fresh) matches Some(t) ==> 0 <= t <= fresh.len(),
{
    if frozen.len() > 0 {
        lemma_first_hit_range(fresh, frozen.last(), frozen.len() - 1, 0);
    }
}

/// The words a planned correction leads to are proper words, and there is at least one.
proof fn lemma_plan_next_words(t: TargetView, phrase: Seq<char>)
    requires
        target_wf(t),
    ensures
        plan(t, phrase) matches Plan::Write { next, want, .. } ==> all_words(next) && next.len()
            > 0 && want == render(t.prior, next),
{
    let fresh = words_of(phrase);
    let frozen = frozen_count(t.words.len());
    lemma_words_of_are_words(phrase);
    lemma_tail_range(t.words.take(frozen as int), fresh);
    if let Some(tail) = spec_tail_start(t.words.take(frozen as int), fresh) {
        if fresh.len() > 0 {
            let next = t.words.take(frozen as int) + fresh.skip(tail);
            assert forall|i: int| 0 <= i < next.len() implies is_word(#[trigger] next[i]) by {
                if i < frozen {
                    assert(next[i] == t.words[i]);
                } else {
                    assert(next[i] == fresh[tail + i - frozen]);
                }
            }
            if frozen == 0 {
                assert(tail == 0);
                assert(next.len() == fresh.len());
            }
        }
    }
}

impl Target {
    /// Brings the inserted draft to a new version of the phrase.
    ///
    /// The first words of the phrase stay frozen; the hypothesis is spliced in
    /// after the last frozen word, found near its place. The correction keeps the
    /// longest common prefix and never begins with a space after kept text. When
    /// `touched` (the user typed or clicked since the last insertion) and text would
    /// have to be erased, the phrase is committed as it stands instead.
    pub fn update(&mut self, phrase: &str, touched: bool) -> (r: Update)
        requires
            old(self).wf(),
        ensures
            final(self).wf(),
            final(self)@ == after_update(old(self)@, phrase@, touched),
            update_matches(r, plan(old(self)@, phrase@), old(self)@, touched),
    {
        let ghost t = self@;
        proof {
            lemma_plan_next_words(t, phrase@);
        }
        let p = chars_of(phrase);
        let fresh = split_words(&p);
        if fresh.len() == 0 {
            return Update::NoWords;
        }
        let frozen = if self.words.len() >= TAIL_WORDS {
            self.words.len() - TAIL_WORDS
        } else {
            0
        };
        assert(frozen as nat == frozen_count(t.words.len()));
        let tail = match tail_start(&self.words, frozen, &fresh) {
            Some(x) => x,
            None => {
                return Update::NoAnchor;
            },
        };
        proof {
            lemma_tail_range(t.words.take(frozen as int), views(fresh@));
        }
        let mut next: Vec<Vec<char>> = Vec::new();
        copy_words(&self.words, 0, frozen, &mut next);
        copy_words(&fresh, tail, fresh.len(), &mut next);
        let ghost nx = views(next@);
        assert(nx =~= t.words.take(frozen as int) + views(fresh@).skip(tail as int));
        let body = join_with_spaces(&next);
        let want: Vec<char> = if self.prior {
            let mut w: Vec<char> = Vec::new();
            w.push(' ');
            let mut k: usize = 0;
            while k < body.len()
                invariant
                    k <= body.len(),
                    w@ == seq![' '] + body@.take(k as int),
                decreases body.len() - k,
            {
                w.push(body[k]);
                k += 1;
                assert(w@ =~= seq![' '] + body@.take(k as int));
            }
            assert(body@.take(body.len() as int) =~= body@);
            w
        } else {
            body
        };
        assert(want@ == render(t.prior, nx));
        if seq_eq(&want, &self.shown) {
            return Update::Unchanged;
        }
        let keep = common_prefix_chars(&self.shown, &want);
        proof {
            lemma_common_prefix(t.shown, want@);
        }
        let shift = keep > 0 && keep < want.len() && want[keep] == ' ';
        assert(shift == shifted(want@, keep as nat));
        let back = if shift {
            self.shown.len() - keep + 1
        } else {
            self.shown.len() - keep
        };
        let start = if shift {
            keep - 1
        } else {
            keep
        };
        if back > MAX_REWRITE {
            return Update::TooLarge { back };
        }
        let mut add: Vec<char> = Vec::new();
        let mut k = start;
        while k < want.len()
            invariant
                start <= k <= want.len(),
                add@ == want@.subrange(start as int, k as int),
            decreases want.len() - k,
        {
            add.push(want[k]);
            k += 1;
            assert(add@ =~= want@.subrange(start as int, k as int));
        }
        assert(add@ =~= want@.skip(start as int));
        if self.insert && back > 0 && touched {
            self.commit();
            return Update::Interrupted;
        }
        let n = add.len();
        self.shown = want;
        self.words = next;
        self.last_edit = (back, n);
        Update::Edit { back, add: string_of(&add) }
    }
}

/// The rendering of a phrase never holds two spaces in a row.
proof fn lemma_render_single_spaces(prior: bool, ws: Seq<Seq<char>>)
    requires
        all_words(ws),
        ws.len() > 0,
    ensures
        forall|j: int|
            0 <= j < render(prior, ws).len() - 1 && #[trigger] render(prior, ws)[j] == ' '
                ==> render(prior, ws)[j + 1] != ' ',
{
    lemma_join_shape(ws);
    let jw = join_words(ws);
    if prior {
        let r = render(prior, ws);
        assert forall|j: int| 0 <= j < r.len() - 1 && #[trigger] r[j] == ' ' implies r[j + 1]
            != ' ' by {
            if j == 0 {
                assert(r[1] == jw[0]);
            } else {
                assert(r[j] == jw[j - 1]);
                assert(r[j + 1] == jw[j]);
            }
        }
    }
}

/// Law: a correction reproduces the new draft. Erasing `back` characters of what
/// is shown and typing `add` yields exactly the new phrase; erasing never reaches
/// into earlier committed text, so the whole session text becomes the committed
/// text followed by the new phrase.
pub proof fn law_correction_yields_draft(t: TargetView, phrase: Seq<char>)
    requires
        target_wf(t),
    ensures
        plan(t, phrase) matches Plan::Write { back, add, want, .. } ==> {
            &&& back <= t.shown.len()
            &&& t.shown.take(t.shown.len() - back) + add == want
            &&& (t.full + t.shown).take(t.full.len() + t.shown.len() - back) + add == t.full
                + want
        },
{
    if let Plan::Write { back, add, want, next } = plan(t, phrase) {
        let keep = common_prefix_len(t.shown, want);
        lemma_common_prefix(t.shown, want);
        if shifted(want, keep) {
            assert(t.shown.take(keep - 1) =~= want.take(keep - 1)) by {
                assert forall|j: int| 0 <= j < keep - 1 implies #[trigger] t.shown.take(keep - 1)[j]
                    == want.take(keep - 1)[j] by {
                    assert(t.shown.take(keep as int)[j] == want.take(keep as int)[j]);
                }
            }
            assert(t.shown.take(keep - 1) + want.skip(keep - 1) =~= want);
        } else {
            assert(t.shown.take(keep as int) + want.skip(keep as int) =~= want);
        }
        let tt = t.shown.take(t.shown.len() - back);
        assert((t.full + t.shown).take(t.full.len() + t.shown.len() - back) =~= t.full + tt);
        assert(t.full + tt + add =~= t.full + (tt + add));
    }
}

/// Law: a correction never begins with a space after text it keeps. An insertion
/// that begins with a space erases the whole shown phrase.
pub proof fn law_no_leading_space_after_kept_text(t: TargetView, phrase: Seq<char>)
    requires
        target_wf(t),
    ensures
        plan(t, phrase) matches Plan::Write { back, add, .. } ==> (add.len() > 0 && add[0]
            == ' ' ==> back == t.shown.len()),
{
    lemma_plan_next_words(t, phrase);
    if let Plan::Write { back, add, want, next } = plan(t, phrase) {
        let keep = common_prefix_len(t.shown, want);
        lemma_common_prefix(t.shown, want);
        lemma_render_single_spaces(t.prior, next);
        if shifted(want, keep) {
            assert(add[0] == want[keep - 1]);
            if want[keep - 1] == ' ' {
                assert(want[keep - 1 + 1] != ' ');
            }
        } else if add.len() > 0 {
            assert(add[0] == want[keep as int]);
        }
    }
}

/// Law: the frozen start of a phrase is never rewritten, and no correction erases
/// more than [`MAX_REWRITE`] characters.
pub proof fn law_frozen_words_kept(t: TargetView, phrase: Seq<char>, touched: bool)
    requires
        target_wf(t),
    ensures
        plan(t, phrase) matches Plan::Write { back, next, .. } ==> back <= MAX_REWRITE && next.take(
            frozen_count(t.words.len()) as int,
        ) == t.words.take(frozen_count(t.words.len()) as int),
        !(plan(t, phrase) is Write) ==> after_update(t, phrase, touched) == t,
{
    if let Plan::Write { back, add, want, next } = plan(t, phrase) {
        let f = frozen_count(t.words.len()) as int;
        assert(next.take(f) =~= t.words.take(f));
    }
}

/// Law: committed text is never rewritten. An update keeps the session text's
/// committed part as a prefix of the new one, and committing a phrase keeps the
/// whole session text as it is.
pub proof fn law_committed_text_stays(t: TargetView, phrase: Seq<char>, touched: bool)
    requires
        target_wf(t),
    ensures
        after_update(t, phrase, touched).full.take(t.full.len() as int) == t.full,
        committed(t).full + committed(t).shown == t.full + t.shown,
        committed(t).shown.len() == 0,
{
    assert((t.full + t.shown).take(t.full.len() as int) =~= t.full);
    assert(t.full.take(t.full.len() as int) =~= t.full);
    assert(committed(t).full + committed(t).shown =~= t.full + t.shown);
}

/// The state a simulation starts from.
pub open spec fn sim_start() -> TargetView {
    TargetView {
        insert: false,
        prior: false,
        shown: seq![],
        words: seq![],
        full: seq![],
        last_edit: (0, 0),
    }
}

/// The state after feeding the drafts one by one, each time forgetting the size
/// of the previous correction.
pub open spec fn sim_state(drafts: Seq<Seq<char>>) -> TargetView
    decreases drafts.len(),
{
    if drafts.len() == 0 {
        sim_start()
    } else {
        let prev = sim_state(drafts.drop_last());
        after_update(
            TargetView { last_edit: (0, 0), ..prev },
            drafts.last(),
            false,
        )
    }
}

pub open spec fn string_views(v: Seq<String>) -> Seq<Seq<char>> {
    v.map_values(|s: String| s@)
}

/// Runs a sequence of drafts through the correction logic without typing:
/// for each draft, the characters that would be erased and typed and the
/// resulting phrase. Shows in numbers whether text is rewritten wholesale.
pub fn simulate(drafts: &[String]) -> (out: Vec<(usize, usize, String)>)
    ensures
        out.len() == drafts.len(),
        forall|i: int|
            0 <= i < drafts.len() ==> {
                let st = sim_state(string_views(drafts@).take(i + 1));
                &&& (#[trigger] out[i]).0 as nat == st.last_edit.0
                &&& out[i].1 as nat == st.last_edit.1
                &&& out[i].2@ == st.shown
            },
{
    let mut target = Target::new(false);
    let mut out: Vec<(usize, usize, String)> = Vec::new();
    let mut i: usize = 0;
    assert(target@.shown =~= sim_start().shown);
    assert(target@.words =~= sim_start().words);
    assert(target@.full =~= sim_start().full);
    assert(target@ == sim_start());
    assert(string_views(drafts@).take(0) =~= Seq::<Seq<char>>::empty());
    while i < drafts.len()
        invariant
            i <= drafts.len(),
            target.wf(),
            target@ == sim_state(string_views(drafts@).take(i as int)),
            out.len() == i,
            forall|j: int|
                0 <= j < i ==> {
                    let st = sim_state(string_views(drafts@).take(j + 1));
                    &&& (#[trigger] out[j]).0 as nat == st.last_edit.0
                    &&& out[j].1 as nat == st.last_edit.1
                    &&& out[j].2@ == st.shown
                },
        decreases drafts.len() - i,
    {
        let ghost pre = string_views(drafts@).take(i as int);
        let ghost post = string_views(drafts@).take(i + 1);
        assert(post.drop_last() =~= pre);
        assert(post.last() == drafts@[i as int]@);
        target.clear_last_edit();
        let _ = target.update(&drafts[i], false);
        let e = target.last_edit();
        let shown = target.shown();
        out.push((e.0, e.1, shown));
        i += 1;
    }
    out
}

/// Silence that ends a phrase, in ms (beyond the 300 ms ringing of the speech detector).
pub const PAUSE_MS: u64 = 500;
/// Least speech worth a draft recognition, in ms.
pub const MIN_SPEECH_MS: u64 = 700;
/// Least speech that counts as a phrase rather than a stray sound, in ms.
pub const MIN_PHRASE_MS: u64 = 400;
/// Longest phrase, in ms.
pub const MAX_PHRASE_MS: u64 = 12000;
/// Silence that ends the whole dictation, in ms.
pub const IDLE_LIMIT_MS: u64 = 10000;
/// Silence kept in the window in case speech already began, in ms.
pub const PREROLL_MS: usize = 400;
/// Where to look for a pause between words when a phrase hits the length limit, in ms.
pub const GAP_SEARCH_MS: usize = 1500;

/// `n` samples at `rate` Hz last at least `ms` milliseconds.
pub open spec fn lasts(n: nat, rate: nat, ms: nat) -> bool {
    n * 1000 >= ms * rate
}

/// `n` samples at `rate` Hz last longer than `ms` milliseconds.
pub open spec fn longer(n: nat, rate: nat, ms: nat) -> bool {
    n * 1000 > ms * rate
}

fn lasts_at_least(n: usize, rate: usize, ms: u64) -> (r: bool)
    ensures
        r == lasts(n as nat, rate as nat, ms as nat),
{
    proof {
        assert((ms as nat) * (rate as nat) <= u64::MAX as nat * u64::MAX as nat) by (nonlinear_arith)
            requires
                ms <= u64::MAX,
                rate <= u64::MAX,
        ;
    }
    (n as u128) * 1000 >= (ms as u128) * (rate as u128)
}

fn lasts_longer(n: usize, rate: usize, ms: u64) -> (r: bool)
    ensures
        r == longer(n as nat, rate as nat, ms as nat),
{
    proof {
        assert((ms as nat) * (rate as nat) <= u64::MAX as nat * u64::MAX as nat) by (nonlinear_arith)
            requires
                ms <= u64::MAX,
                rate <= u64::MAX,
        ;
    }
    (n as u128) * 1000 > (ms as u128) * (rate as u128)
}

/// How much audio goes to recognition: the speech plus half a second of the
/// silence after it, within what was analysed.
pub open spec fn spec_cut_len(seg: Segment, rate: nat) -> nat {
    let c: nat = (seg.speech_end + rate / 2) as nat;
    if c <= seg.analysed {
        c
    } else {
        seg.analysed as nat
    }
}

/// How much audio goes to recognition: the speech plus a short tail of silence,
/// since the speech detector may be off by half a syllable.
pub fn cut_len(seg: &Segment, rate: usize) -> (r: usize)
    ensures
        r == spec_cut_len(*seg, rate as nat),
{
    let c = (seg.speech_end as u128) + (rate as u128) / 2;
    if c <= seg.analysed as u128 {
        c as usize
    } else {
        seg.analysed
    }
}

/// How far the window moves after a phrase without a pause found inside it: up
/// to 300 ms past the speech, within what was analysed.
pub open spec fn spec_advance(seg: Segment, rate: nat) -> nat {
    let a: nat = (seg.speech_end + rate * 3 / 10) as nat;
    if a <= seg.analysed {
        a
    } else {
        seg.analysed as nat
    }
}

/// Samples in `ms` milliseconds at `rate` Hz (whole milliseconds, rounding down).
pub open spec fn ms_samples(ms: nat, rate: nat) -> nat {
    ms * rate / 1000
}

/// Why a phrase ended.
#[derive(Clone, Copy, Debug, PartialEq, Eq, Structural)]
pub enum Reason {
    /// Dictation is stopping.
    Stop,
    /// The phrase hit the length limit and was cut at a pause between words.
    LimitAtGap,
    /// The phrase hit the length limit and no pause was found.
    Limit,
    /// The speaker paused.
    Pause,
}

/// A stretch of the capture buffer: first sample and length.
#[derive(Clone, Copy, Debug, PartialEq, Eq, Structural)]
pub struct Chunk {
    pub start: usize,
    pub len: usize,
}

/// What the streaming loop does next.
#[derive(Clone, Copy, Debug, PartialEq, Eq, Structural)]
pub enum Step {
    /// Leave the loop.
    Finish,
    /// Nothing analysed yet: wait a tick.
    Wait,
    /// Silence lasted too long: from now on the loop is stopping.
    AutoStop,
    /// Keep listening: wait a tick.
    Listen,
    /// Recognise `len` samples from `from` as a draft of the current phrase.
    Draft { from: usize, len: usize },
    /// The phrase ends: recognise `chunk` (start, length) when given, then commit
    /// the draft; `burst` marks speech too short to be a phrase; `finish` leaves
    /// the loop afterwards.
    Boundary { reason: Reason, chunk: Option<Chunk>, burst: bool, finish: bool },
}

/// What the loop sees on one tick.
#[derive(Clone, Copy, Debug, PartialEq, Eq, Structural)]
pub struct Observation {
    /// The user asked to stop.
    pub stop_asked: bool,
    /// The marks of the window from its start on.
    pub seg: Segment,
    /// Samples of silence at the end of the recording, by energy.
    pub quiet: usize,
    /// Capture rate, Hz.
    pub rate: usize,
    /// The time for the next draft has come.
    pub draft_due: bool,
    /// The quietest point in the last [`GAP_SEARCH_MS`] of the window, if any.
    pub gap: Option<usize>,
}

/// State of the streaming loop: where the current phrase starts in the capture
/// buffer, whether the loop stops by itself, whether the tail was drained.
#[derive(Clone, Copy, Debug, PartialEq, Eq, Structural)]
pub struct StreamLoop {
    pub committed: usize,
    pub idle_stop: bool,
    pub drained: bool,
}

/// An observation is consistent: the segment adds up and the pause found lies
/// within it; positions stay within the machine's range.
pub open spec fn observation_wf(l: StreamLoop, o: Observation) -> bool {
    &&& o.seg.speech_end + o.seg.silence == o.seg.analysed
    &&& o.seg.speech <= o.seg.speech_end
    &&& (o.gap matches Some(g) ==> g <= o.seg.analysed)
    &&& l.committed + o.seg.analysed <= usize::MAX
}

/// The loop is stopping: asked to, or by itself after a long silence.
pub open spec fn stopping(l: StreamLoop, o: Observation) -> bool {
    o.stop_asked || l.idle_stop
}

/// The decision for one tick: the next state and what to do.
pub open spec fn spec_step(l: StreamLoop, o: Observation) -> (StreamLoop, Step) {
    let st = stopping(l, o);
    let seg = o.seg;
    let rate = o.rate as nat;
    if seg.analysed == 0 {
        (l, if st { Step::Finish } else { Step::Wait })
    } else if !st && lasts(o.quiet as nat, rate, IDLE_LIMIT_MS as nat) {
        (StreamLoop { idle_stop: true, ..l }, Step::AutoStop)
    } else {
        let paused = lasts(seg.silence as nat, rate, PAUSE_MS as nat);
        let too_long = lasts(seg.analysed as nat, rate, MAX_PHRASE_MS as nat);
        let boundary = st || (seg.has_speech && paused) || too_long;
        if !boundary {
            if !seg.has_speech {
                let keep = ms_samples(PREROLL_MS as nat, rate);
                let c = if longer(seg.analysed as nat, rate, PAUSE_MS as nat) {
                    if seg.analysed >= keep {
                        (l.committed + seg.analysed - keep) as usize
                    } else {
                        l.committed
                    }
                } else {
                    l.committed
                };
                (StreamLoop { committed: c, ..l }, Step::Listen)
            } else if !lasts(seg.speech as nat, rate, MIN_SPEECH_MS as nat) || !o.draft_due {
                (l, Step::Listen)
            } else {
                (l, Step::Draft { from: l.committed, len: spec_cut_len(seg, rate) as usize })
            }
        } else {
            let limit = !st && !paused && too_long;
            let gap: Option<usize> = if limit {
                match o.gap {
                    Some(g) => if g > 0 {
                        Some(g)
                    } else {
                        None
                    },
                    None => None,
                }
            } else {
                None
            };
            let reason = if st {
                Reason::Stop
            } else if limit && gap is Some {
                Reason::LimitAtGap
            } else if limit {
                Reason::Limit
            } else {
                Reason::Pause
            };
            let cut: nat = match gap {
                Some(g) => g as nat,
                None => spec_cut_len(seg, rate),
            };
            let advance: nat = match gap {
                Some(g) => g as nat,
                None => spec_advance(seg, rate),
            };
            let burst = seg.has_speech && !lasts(seg.speech as nat, rate, MIN_PHRASE_MS as nat);
            let chunk = if seg.has_speech && !burst {
                Some(Chunk { start: l.committed, len: cut as usize })
            } else {
                None
            };
            (
                StreamLoop { committed: (l.committed + advance) as usize, ..l },
                Step::Boundary { reason, chunk, burst, finish: st },
            )
        }
    }
}

impl StreamLoop {
    /// A loop at the start of the capture buffer.
    pub fn new() -> (r: StreamLoop)
        ensures
            r == (StreamLoop { committed: 0, idle_stop: false, drained: false }),
    {
        StreamLoop { committed: 0, idle_stop: false, drained: false }
    }

    /// The capture rate changed: the marks start over, and so does the window.
    pub fn reset_window(&mut self)
        ensures
            *final(self) == (StreamLoop { committed: 0, ..*old(self) }),
    {
        self.committed = 0;
    }

    /// Start of a tick: whether to wait once for the capture thread to deliver
    /// the tail of the recording (the first tick of stopping).
    pub fn begin_tick(&mut self, stop_asked: bool) -> (drain: bool)
        ensures
            drain == ((stop_asked || old(self).idle_stop) && !old(self).drained),
            *final(self) == (StreamLoop { drained: old(self).drained || drain, ..*old(self) }),
    {
        let drain = (stop_asked || self.idle_stop) && !self.drained;
        if drain {
            self.drained = true;
        }
        drain
    }

    /// Decides what to do on this tick and moves the window accordingly.
    pub fn step(&mut self, o: &Observation) -> (r: Step)
        requires
            observation_wf(*old(self), *o),
        ensures
            (*final(self), r) == spec_step(*old(self), *o),
    {
        let st = o.stop_asked || self.idle_stop;
        let seg = o.seg;
        let rate = o.rate;
        if seg.analysed == 0 {
            return if st {
                Step::Finish
            } else {
                Step::Wait
            };
        }
        if !st && lasts_at_least(o.quiet, rate, IDLE_LIMIT_MS) {
            self.idle_stop = true;
            return Step::AutoStop;
        }
        let paused = lasts_at_least(seg.silence, rate, PAUSE_MS);
        let too_long = lasts_at_least(seg.analysed, rate, MAX_PHRASE_MS);
        let boundary = st || (seg.has_speech && paused) || too_long;
        if !boundary {
            if !seg.has_speech {
                if lasts_longer(seg.analysed, rate, PAUSE_MS) {
                    let keep = ((PREROLL_MS as u128) * (rate as u128) / 1000) as u128;
                    proof {
                        assert((PREROLL_MS as nat) * (rate as nat) <= 400 * (u64::MAX as nat)) by (nonlinear_arith)
                            requires
                                rate <= u64::MAX,
                        ;
                    }
                    if (seg.analysed as u128) >= keep {
                        self.committed = self.committed + seg.analysed - (keep as usize);
                    }
                }
                return Step::Listen;
            }
            if !lasts_at_least(seg.speech, rate, MIN_SPEECH_MS) || !o.draft_due {
                return Step::Listen;
            }
            return Step::Draft { from: self.committed, len: cut_len(&seg, rate) };
        }
        let limit = !st && !paused && too_long;
        let gap: Option<usize> = if limit {
            match o.gap {
                Some(g) => if g > 0 {
                    Some(g)
                } else {
                    None
                },
                None => None,
            }
        } else {
            None
        };
        let reason = if st {
            Reason::Stop
        } else if limit && gap.is_some() {
            Reason::LimitAtGap
        } else if limit {
            Reason::Limit
        } else {
            Reason::Pause
        };
        let (cut, advance) = match gap {
            Some(g) => (g, g),
            None => {
                let a = (seg.speech_end as u128) + (rate as u128) * 3 / 10;
                let adv = if a <= seg.analysed as u128 {
                    a as usize
                } else {
                    seg.analysed
                };
                (cut_len(&seg, rate), adv)
            },
        };
        let burst = seg.has_speech && !lasts_at_least(seg.speech, rate, MIN_PHRASE_MS);
        let chunk = if seg.has_speech && !burst {
            Some(Chunk { start: self.committed, len: cut })
        } else {
            None
        };
        self.committed = self.committed + advance;
        Step::Boundary { reason, chunk, burst, finish: st }
    }
}

/// The step leaves the loop (at once or after ending the phrase).
pub open spec fn leaves_loop(s: Step) -> bool {
    match s {
        Step::Finish => true,
        Step::Boundary { finish, .. } => finish,
        _ => false,
    }
}

/// Law: a stopping loop ends: any tick either leaves the loop at once or ends the
/// phrase and then leaves; and a long silence switches the loop to stopping.
pub proof fn law_stop_finishes(l: StreamLoop, o: Observation)
    requires
        observation_wf(l, o),
    ensures
        stopping(l, o) ==> leaves_loop(spec_step(l, o).1),
        spec_step(l, o).1 is AutoStop ==> spec_step(l, o).0.idle_stop,
        !stopping(l, o) && o.seg.analysed > 0 && lasts(o.quiet as nat, o.rate as nat, IDLE_LIMIT_MS as nat)
            ==> spec_step(l, o).1 is AutoStop,
{
}

/// Law: the window only moves forward and never past what was analysed; every
/// chunk sent to recognition starts at the window and lies within what was
/// analysed; and a phrase boundary moves the window when the rate is at least 4 Hz.
pub proof fn law_window_moves_forward(l: StreamLoop, o: Observation)
    requires
        observation_wf(l, o),
    ensures
        l.committed <= spec_step(l, o).0.committed <= l.committed + o.seg.analysed,
        spec_step(l, o).1 matches Step::Draft { from, len } ==> from == l.committed && len
            <= o.seg.analysed,
        spec_step(l, o).1 matches Step::Boundary { chunk: Some(c), .. } ==> c.start
            == l.committed && c.len <= o.seg.analysed,
        spec_step(l, o).1 is Boundary && o.rate >= 4 ==> spec_step(l, o).0.committed
            > l.committed,
{
    let rate = o.rate as nat;
    assert(ms_samples(PREROLL_MS as nat, rate) >= 0);
    if o.rate >= 4 {
        assert(rate * 3 / 10 >= 1);
    }
}

/// Law: the tail of the recording is waited for at most once.
pub proof fn law_drain_once(l: StreamLoop, asked: bool)
    requires
        l.drained,
    ensures
        !((asked || l.idle_stop) && !l.drained),
{
}

/// Stock phrases from subtitles that Whisper produces on silence or noise.
pub open spec fn junk_phrases() -> Seq<Seq<char>> {
    seq![
        "субтитры"@,
        "продолжение следует"@,
        "редактор субтитров"@,
        "dimatorzok"@,
        "amara.org"@,
        "subscribe"@,
        "спасибо за просмотр"@,
    ]
}

/// A recognition that must not be inserted: its lowercase holds a stock phrase.
pub open spec fn spec_is_hallucination(text: Seq<char>) -> bool {
    exists|j: int| 0 <= j < junk_phrases().len() && crate::text::contains(
        crate::text::unicode_lowercase(text),
        #[trigger] junk_phrases()[j],
    )
}

pub fn is_hallucination(text: &str) -> (r: bool)
    ensures
        r == spec_is_hallucination(text@),
{
    let low = chars_of(crate::text::lowercase(text).as_str());
    let junk: Vec<&str> = vec![
        "субтитры",
        "продолжение следует",
        "редактор субтитров",
        "dimatorzok",
        "amara.org",
        "subscribe",
        "спасибо за просмотр",
    ];
    assert(junk@.map_values(|s: &str| s@) =~= junk_phrases());
    let mut i: usize = 0;
    while i < junk.len()
        invariant
            i <= junk.len(),
            junk@.map_values(|s: &str| s@) == junk_phrases(),
            low@ == crate::text::unicode_lowercase(text@),
            forall|j: int| 0 <= j < i ==> !crate::text::contains(low@, #[trigger] junk_phrases()[j]),
        decreases junk.len() - i,
    {
        assert(junk_phrases()[i as int] == junk@[i as int]@);
        if crate::text::contains_seq(&low, &chars_of(junk[i])) {
            return true;
        }
        i += 1;
    }
    false
}

/// What a recognition answer contributes: the trimmed text, or nothing when it
/// is empty or a stock phrase.
pub open spec fn spec_clean_hypothesis(text: Seq<char>) -> Seq<char> {
    let c = crate::text::trim(text);
    if c.len() == 0 || spec_is_hallucination(c) {
        seq![]
    } else {
        c
    }
}

pub fn clean_hypothesis(text: &str) -> (r: String)
    ensures
        r@ == spec_clean_hypothesis(text@),
{
    let c = string_of(&crate::text::trim_chars(&chars_of(text)));
    if c.as_str().is_empty() || is_hallucination(c.as_str()) {
        String::new()
    } else {
        c
    }
}

/// The words the phrase would have after splicing in the hypothesis, when the
/// frozen start lines up with it; they are proper words.
proof fn lemma_spliced_words(t: TargetView, phrase: Seq<char>, tail: int)
    requires
        target_wf(t),
        spec_tail_start(t.words.take(frozen_count(t.words.len()) as int), words_of(phrase)) == Some(tail),
    ensures
        0 <= tail <= words_of(phrase).len(),
        all_words(t.words.take(frozen_count(t.words.len()) as int) + words_of(phrase).skip(tail)),
{
    let fresh = words_of(phrase);
    let frozen = frozen_count(t.words.len());
    lemma_words_of_are_words(phrase);
    lemma_tail_range(t.words.take(frozen as int), fresh);
    let next = t.words.take(frozen as int) + fresh.skip(tail);
    assert forall|i: int| 0 <= i < next.len() implies is_word(#[trigger] next[i]) by {
        if i < frozen {
            assert(next[i] == t.words[i]);
        } else {
            assert(next[i] == fresh[tail + i - frozen]);
        }
    }
}

/// Two lists of proper words rendered alike are the same list.
proof fn lemma_render_injective(prior: bool, a: Seq<Seq<char>>, b: Seq<Seq<char>>)
    requires
        all_words(a),
        all_words(b),
        render(prior, a) == render(prior, b),
    ensures
        a == b,
{
    if prior {
        assert(render(prior, a).skip(1) =~= join_words(a));
        assert(render(prior, b).skip(1) =~= join_words(b));
    }
    lemma_words_of_join(a);
    lemma_words_of_join(b);
}

/// Law: a hypothesis is left alone ("the text is already as recognised") only
/// when, spliced after the frozen start, it gives exactly the words already on
/// screen; whenever it gives other words the draft is rewritten to them (or the
/// rewrite is refused as too large), never kept.
pub proof fn law_same_only_when_words_agree(t: TargetView, phrase: Seq<char>)
    requires
        target_wf(t),
    ensures
        ({
            let fresh = words_of(phrase);
            let kept = t.words.take(frozen_count(t.words.len()) as int);
            &&& plan(t, phrase) is Same ==> fresh.len() > 0 && match spec_tail_start(kept, fresh) {
                Some(tail) => kept + fresh.skip(tail) == t.words,
                None => false,
            }
            &&& fresh.len() > 0 ==> match spec_tail_start(kept, fresh) {
                Some(tail) => kept + fresh.skip(tail) != t.words ==> match plan(t, phrase) {
                    Plan::TooLarge { .. } => true,
                    Plan::Write { next, want, .. } => next == kept + fresh.skip(tail) && want
                        == render(t.prior, next),
                    _ => false,
                },
                None => true,
            }
        }),
{
    let fresh = words_of(phrase);
    let kept = t.words.take(frozen_count(t.words.len()) as int);
    if fresh.len() > 0 {
        if let Some(tail) = spec_tail_start(kept, fresh) {
            lemma_spliced_words(t, phrase, tail);
            let next = kept + fresh.skip(tail);
            if render(t.prior, next) == t.shown {
                if t.words.len() > 0 {
                    lemma_render_injective(t.prior, next, t.words);
                } else {
                    if t.prior {
                        assert(render(t.prior, next).len() >= 1);
                    }
                    if next.len() > 0 {
                        lemma_join_shape(next);
                    }
                    assert(next =~= t.words);
                }
            }
        }
    }
}

/// Law: at every phrase boundary, the phrase is sent to recognition exactly when
/// it holds speech lasting at least `MIN_PHRASE_MS`; shorter speech is a burst,
/// skipped; a window without speech sends nothing.
pub proof fn law_boundary_recognises_phrases(l: StreamLoop, o: Observation)
    requires
        observation_wf(l, o),
    ensures
        spec_step(l, o).1 matches Step::Boundary { chunk, burst, .. } ==> {
            &&& (chunk is Some <==> (o.seg.has_speech && o.seg.speech * 1000 >= 400 * o.rate))
            &&& (burst <==> (o.seg.has_speech && o.seg.speech * 1000 < 400 * o.rate))
        },
{
}

/// Law: speech followed by a pause of at least `PAUSE_MS` ends the phrase (when
/// not stopping, not idle for `IDLE_LIMIT_MS`, and under `MAX_PHRASE_MS`): the
/// speech plus half a second of what follows is recognised when it lasts at
/// least `MIN_PHRASE_MS`, and the window moves past the speech and 0.3 s more.
pub proof fn law_pause_ends_phrase(l: StreamLoop, o: Observation)
    requires
        observation_wf(l, o),
        !o.stop_asked,
        !l.idle_stop,
        o.seg.analysed > 0,
        o.quiet * 1000 < 10000 * o.rate,
        o.seg.has_speech,
        o.seg.silence * 1000 >= 500 * o.rate,
        o.seg.analysed * 1000 < 12000 * o.rate,
    ensures
        spec_step(l, o).1 == (Step::Boundary {
            reason: Reason::Pause,
            chunk: if o.seg.speech * 1000 >= 400 * o.rate {
                Some(
                    Chunk {
                        start: l.committed,
                        len: (if o.seg.speech_end + o.rate / 2 <= o.seg.analysed {
                            o.seg.speech_end + o.rate / 2
                        } else {
                            o.seg.analysed as int
                        }) as usize,
                    },
                )
            } else {
                None
            },
            burst: o.seg.speech * 1000 < 400 * o.rate,
            finish: false,
        }),
        spec_step(l, o).0.committed == l.committed + (if o.seg.speech_end + o.rate * 3 / 10
            <= o.seg.analysed {
            o.seg.speech_end + o.rate * 3 / 10
        } else {
            o.seg.analysed as int
        }),
{
}

/// Law: what each kind of tick is for, in terms of the observation alone.
/// - Nothing analysed: leave the loop when stopping, else wait.
/// - Auto-stop exactly when not stopping and the recording has been quiet for
///   at least `IDLE_LIMIT_MS` (10 s).
/// - Otherwise the phrase ends exactly when stopping, or after speech with a
///   pause of at least `PAUSE_MS` (0.5 s), or when the window reaches
///   `MAX_PHRASE_MS` (12 s); the reason says which (a pause wins over the length
///   limit), and only a stop leaves the loop afterwards.
/// - A draft is made only of speech of at least `MIN_SPEECH_MS` (0.7 s), when its
///   time has come, from the start of the window.
pub proof fn law_step_decisions(l: StreamLoop, o: Observation)
    requires
        observation_wf(l, o),
    ensures
        ({
            let st = o.stop_asked || l.idle_stop;
            let seg = o.seg;
            let r = o.rate;
            let idle = !st && seg.analysed > 0 && o.quiet * 1000 >= 10000 * r;
            let ends = seg.analysed > 0 && !idle && (st || (seg.has_speech && seg.silence * 1000
                >= 500 * r) || seg.analysed * 1000 >= 12000 * r);
            let step = spec_step(l, o).1;
            &&& (seg.analysed == 0 ==> step == (if st { Step::Finish } else { Step::Wait }))
            &&& (step is AutoStop <==> idle)
            &&& (step is Boundary <==> ends)
            &&& (step matches Step::Boundary { reason, finish, .. } ==> {
                &&& finish == st
                &&& (reason is Stop <==> st)
                &&& (reason is Pause <==> !st && seg.silence * 1000 >= 500 * r)
                &&& ((reason is Limit || reason is LimitAtGap) ==> seg.analysed * 1000 >= 12000 * r
                    && seg.silence * 1000 < 500 * r)
            })
            &&& (step matches Step::Draft { from, len } ==> {
                &&& !st
                &&& seg.has_speech
                &&& seg.speech * 1000 >= 700 * r
                &&& o.draft_due
                &&& from == l.committed
                &&& len > 0 || seg.speech_end == 0
            })
            &&& (step is Finish ==> st)
            &&& (step is Listen ==> !st && !ends)
        }),
{
}

/// Law: a correction erases no more than it must. The text it keeps is the
/// longest start that the shown text and the new text share, or one character
/// less when the new text continues with a space right there (so that the typed
/// part does not begin with a space after kept text).
pub proof fn law_smallest_correction(t: TargetView, phrase: Seq<char>)
    requires
        target_wf(t),
    ensures
        plan(t, phrase) matches Plan::Write { back, want, .. } ==> {
            let k = t.shown.len() - back;
            ||| k == t.shown.len() || k == want.len() || t.shown[k] != want[k]
            ||| k + 1 < want.len() && t.shown[k] == want[k] && want[k + 1] == ' ' && (k + 1
                == t.shown.len() || t.shown[k + 1] != want[k + 1])
        },
{
    if let Plan::Write { back, add, want, next } = plan(t, phrase) {
        let keep = common_prefix_len(t.shown, want);
        lemma_common_prefix(t.shown, want);
        if shifted(want, keep) {
            assert(t.shown.take(keep as int)[keep - 1] == want.take(keep as int)[keep - 1]);
        }
    }
}

} // verus!
