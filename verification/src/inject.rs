//! Inserting text into the active window.
//!
//! Two ways: the clipboard and Ctrl+V (atomic however long the text; the previous
//! clipboard is restored), and the keyboard (`SendInput` with Unicode events: does
//! not touch the clipboard and works where Ctrl+V is taken, as in terminals, but
//! WinUI/TSF applications mix up characters sent too fast, so characters go one
//! by one with a pause). "Auto" tries the clipboard first, then the keyboard.
//!
//! Insertion runs on a queue of its own, so that recognition does not wait for the
//! keyboard. This module holds the settings and the queue, decides what a
//! replacement does, and plans the keyboard events; the application sends them.
use vstd::prelude::*;
use crate::text::{chars_of, encode_utf16, is_high_surrogate, utf16, utf16_of};

verus! {

/// Insertion modes.
pub const MODE_AUTO: u8 = 0;
pub const MODE_KEYS: u8 = 1;
pub const MODE_CLIPBOARD: u8 = 2;

/// Pause between characters in keyboard mode, µs: 0–2 ms gave garbage in the
/// Windows 11 Notepad, 5–8 ms rare single errors.
pub const DEFAULT_CHAR_DELAY_US: u32 = 8000;

/// Most characters one correction may erase: a larger difference means the caret
/// is not where it is thought to be.
pub const MAX_BACKSPACES: usize = 120;

pub open spec fn spec_mode_name(mode: u8) -> Seq<char> {
    if mode == MODE_KEYS {
        "Клавиатура (для терминалов)"@
    } else if mode == MODE_CLIPBOARD {
        "Буфер обмена (Ctrl+V)"@
    } else {
        "Авто — буфер обмена"@
    }
}

/// The name of an insertion mode in the settings (an unknown mode is "auto").
pub fn mode_name(mode: u8) -> (r: &'static str)
    ensures
        r@ == spec_mode_name(mode),
{
    if mode == MODE_KEYS {
        "Клавиатура (для терминалов)"
    } else if mode == MODE_CLIPBOARD {
        "Буфер обмена (Ctrl+V)"
    } else {
        "Авто — буфер обмена"
    }
}

/// Settings of insertion and its queue, as data.
pub struct InjectorView {
    pub mode: u8,
    pub char_delay_us: u32,
    /// Pending jobs: characters to erase, then text to insert.
    pub queue: Seq<(usize, Seq<char>)>,
}

/// Settings of insertion and the queue of pending jobs.
pub struct Injector {
    mode: u8,
    char_delay_us: u32,
    queue: Vec<(usize, String)>,
}

pub open spec fn jobs_view(q: Seq<(usize, String)>) -> Seq<(usize, Seq<char>)> {
    q.map_values(|j: (usize, String)| (j.0, j.1@))
}

impl View for Injector {
    type V = InjectorView;

    closed spec fn view(&self) -> InjectorView {
        InjectorView { mode: self.mode, char_delay_us: self.char_delay_us, queue: jobs_view(self.queue@) }
    }
}

impl Injector {
    /// Auto mode, the default pause, nothing queued.
    pub fn new() -> (r: Self)
        ensures
            r@ == (InjectorView { mode: MODE_AUTO, char_delay_us: DEFAULT_CHAR_DELAY_US, queue: seq![] }),
    {
        let r = Injector { mode: MODE_AUTO, char_delay_us: DEFAULT_CHAR_DELAY_US, queue: Vec::new() };
        assert(jobs_view(r.queue@) =~= seq![]);
        r
    }

    pub fn mode(&self) -> (r: u8)
        ensures
            r == self@.mode,
    {
        self.mode
    }

    pub fn char_delay_us(&self) -> (r: u32)
        ensures
            r == self@.char_delay_us,
    {
        self.char_delay_us
    }

    /// The jobs queued so far, oldest first; none remain.
    pub fn take_queue(&mut self) -> (r: Vec<(usize, String)>)
        ensures
            jobs_view(r@) == old(self)@.queue,
            final(self)@ == (InjectorView { queue: seq![], ..old(self)@ }),
    {
        let mut r = Vec::new();
        std::mem::swap(&mut r, &mut self.queue);
        assert(jobs_view(self.queue@) =~= seq![]);
        r
    }
}

pub fn set_char_delay_us(inj: &mut Injector, us: u32)
    ensures
        final(inj)@ == (InjectorView { char_delay_us: us, ..old(inj)@ }),
{
    inj.char_delay_us = us;
}

pub fn set_mode(inj: &mut Injector, mode: u8)
    ensures
        final(inj)@ == (InjectorView { mode, ..old(inj)@ }),
{
    inj.mode = mode;
}

/// Queue `text` for insertion and return at once.
pub fn queue_text(inj: &mut Injector, text: &str)
    ensures
        final(inj)@ == (InjectorView { queue: old(inj)@.queue.push((0usize, text@)), ..old(inj)@ }),
{
    queue_replace(inj, 0, text);
}

/// Queue a correction of the inserted draft: erase `back` characters, then insert
/// `text`. Returns at once.
pub fn queue_replace(inj: &mut Injector, back: usize, text: &str)
    ensures
        final(inj)@ == (InjectorView { queue: old(inj)@.queue.push((back, text@)), ..old(inj)@ }),
{
    let ghost before = inj.queue@;
    inj.queue.push((back, text.to_owned()));
    assert(jobs_view(inj.queue@) =~= jobs_view(before).push((back, text@)));
}

/// The injector after `queue_replace` was called with each of `jobs` in turn
/// (each call as its `ensures` states).
pub open spec fn after_queueing(v: InjectorView, jobs: Seq<(usize, Seq<char>)>) -> InjectorView
    decreases jobs.len(),
{
    if jobs.len() == 0 {
        v
    } else {
        let w = after_queueing(v, jobs.drop_last());
        InjectorView { queue: w.queue.push(jobs.last()), ..w }
    }
}

/// Requests queued one after another are all kept, each once, in the order of
/// the calls, behind what was already pending; `take_queue` then hands them out
/// in that order. Mode and pause are not touched.
pub proof fn law_queue_keeps_call_order(v: InjectorView, jobs: Seq<(usize, Seq<char>)>)
    ensures
        after_queueing(v, jobs).queue == v.queue + jobs,
        after_queueing(v, jobs).mode == v.mode,
        after_queueing(v, jobs).char_delay_us == v.char_delay_us,
    decreases jobs.len(),
{
    if jobs.len() == 0 {
        assert(v.queue + jobs =~= v.queue);
    } else {
        law_queue_keeps_call_order(v, jobs.drop_last());
        assert((v.queue + jobs.drop_last()).push(jobs.last()) =~= v.queue + jobs);
    }
}

/// What a job of the queue does.
#[derive(Clone, Copy, PartialEq, Eq, Debug, Structural)]
pub enum Replace {
    /// Nothing to erase and nothing to type.
    Nothing,
    /// Only type the text.
    Type,
    /// Erase that many characters (Backspace, one at a time), then type the text if any.
    Erase { back: usize, then_type: bool },
    /// Too much to erase: the caret is probably elsewhere, so nothing is done.
    Refuse,
}

pub open spec fn spec_replace(back: usize, text: Seq<char>) -> Replace {
    if back == 0 {
        if text.len() == 0 {
            Replace::Nothing
        } else {
            Replace::Type
        }
    } else if back > MAX_BACKSPACES {
        Replace::Refuse
    } else {
        Replace::Erase { back, then_type: text.len() > 0 }
    }
}

/// What erasing `back` characters and inserting `text` amounts to.
pub fn replace_plan(back: usize, text: &str) -> (r: Replace)
    ensures
        r == spec_replace(back, text@),
{
    let empty = text.is_empty();
    if back == 0 {
        if empty {
            Replace::Nothing
        } else {
            Replace::Type
        }
    } else if back > MAX_BACKSPACES {
        Replace::Refuse
    } else {
        Replace::Erase { back, then_type: !empty }
    }
}

/// Whether text goes through the clipboard first (every mode but keyboard) or
/// the keyboard first; the other way is the fallback.
pub fn clipboard_first(mode: u8) -> (r: bool)
    ensures
        r == (mode != MODE_KEYS),
{
    mode != MODE_KEYS
}

/// One step of typing on the keyboard.
pub enum KeyStep {
    /// Enter (a line feed as a Unicode character is ignored by many fields).
    Enter,
    /// Unicode events for these UTF-16 units, sent together.
    Units(Vec<u16>),
    /// The pause between characters.
    Pause,
}

pub enum StepView {
    Enter,
    Units(Seq<u16>),
    Pause,
}

impl View for KeyStep {
    type V = StepView;

    open spec fn view(&self) -> StepView {
        match self {
            KeyStep::Enter => StepView::Enter,
            KeyStep::Units(u) => StepView::Units(u@),
            KeyStep::Pause => StepView::Pause,
        }
    }
}

pub open spec fn steps_view(s: Seq<KeyStep>) -> Seq<StepView> {
    s.map_values(|k: KeyStep| k@)
}

/// `s.split(c)`: the pieces between occurrences of `c` (one piece when there is
/// none, empty pieces where they touch or at the ends).
pub open spec fn split_on(s: Seq<char>, c: char) -> Seq<Seq<char>>
    decreases s.len(),
{
    if s.len() == 0 {
        seq![seq![]]
    } else {
        let ls = split_on(s.drop_last(), c);
        if s.last() == c {
            ls.push(seq![])
        } else {
            ls.update(ls.len() - 1, ls.last().push(s.last()))
        }
    }
}

/// How UTF-16 units are grouped when paced: one unit, or two where a high
/// surrogate starts a pair, so that a pair is never split.
pub open spec fn batches(u: Seq<u16>) -> Seq<Seq<u16>>
    decreases u.len(),
{
    if u.len() == 0 {
        seq![]
    } else {
        let take: int = if is_high_surrogate(u[0]) && u.len() >= 2 {
            2
        } else {
            1
        };
        seq![u.take(take)] + batches(u.skip(take))
    }
}

/// The batches of a line separated by pauses.
pub open spec fn with_pauses(bs: Seq<Seq<u16>>) -> Seq<StepView>
    decreases bs.len(),
{
    if bs.len() == 0 {
        seq![]
    } else {
        with_pauses(bs.drop_last()) + (if bs.len() > 1 {
            seq![StepView::Pause]
        } else {
            seq![]
        }) + seq![StepView::Units(bs.last())]
    }
}

/// The steps of one line: all its units at once, or, paced, batch by batch with
/// a pause between batches.
pub open spec fn line_steps(line: Seq<char>, paced: bool) -> Seq<StepView> {
    if paced {
        with_pauses(batches(utf16(line)))
    } else {
        seq![StepView::Units(utf16(line))]
    }
}

/// The steps of the lines: Enter between lines.
pub open spec fn lines_steps(ls: Seq<Seq<char>>, paced: bool) -> Seq<StepView>
    decreases ls.len(),
{
    if ls.len() == 0 {
        seq![]
    } else {
        lines_steps(ls.drop_last(), paced) + (if ls.len() > 1 {
            seq![StepView::Enter]
        } else {
            seq![]
        }) + line_steps(ls.last(), paced)
    }
}

/// Typing `text` on the keyboard: line by line with Enter between lines.
pub open spec fn spec_key_plan(text: Seq<char>, paced: bool) -> Seq<StepView> {
    lines_steps(split_on(text, '\n'), paced)
}

pub open spec fn units_views(s: Seq<Vec<u16>>) -> Seq<Seq<u16>> {
    s.map_values(|v: Vec<u16>| v@)
}

fn copy_units(u: &Vec<u16>) -> (r: Vec<u16>)
    ensures
        r@ == u@,
{
    let mut r: Vec<u16> = Vec::new();
    let mut i: usize = 0;
    while i < u.len()
        invariant
            i <= u.len(),
            r@ == u@.take(i as int),
        decreases u.len() - i,
    {
        r.push(u[i]);
        i += 1;
        assert(r@ =~= u@.take(i as int));
    }
    assert(u@.take(u.len() as int) =~= u@);
    r
}

fn split_lines(s: &[char]) -> (r: Vec<Vec<char>>)
    ensures
        crate::words::views(r@) == split_on(s@, '\n'),
{
    let mut r: Vec<Vec<char>> = Vec::new();
    r.push(Vec::new());
    let mut i: usize = 0;
    assert(s@.take(0) =~= Seq::<char>::empty());
    assert(crate::words::views(r@) =~= split_on(s@.take(0), '\n'));
    while i < s.len()
        invariant
            i <= s.len(),
            r@.len() >= 1,
            crate::words::views(r@) == split_on(s@.take(i as int), '\n'),
        decreases s.len() - i,
    {
        assert(s@.take(i + 1).drop_last() =~= s@.take(i as int));
        let ghost before = r@;
        if s[i] == '\n' {
            r.push(Vec::new());
            assert(crate::words::views(r@) =~= crate::words::views(before).push(seq![]));
        } else {
            let last = r.len() - 1;
            let mut line = r.pop().unwrap();
            let ghost old_line = line@;
            line.push(s[i]);
            r.push(line);
            assert(crate::words::views(r@) =~= crate::words::views(before).update(
                last as int,
                old_line.push(s@[i as int]),
            ));
        }
        i += 1;
    }
    assert(s@.take(s.len() as int) =~= s@);
    r
}

fn batch_units(u: &[u16]) -> (r: Vec<Vec<u16>>)
    ensures
        units_views(r@) == batches(u@),
{
    let mut r: Vec<Vec<u16>> = Vec::new();
    let mut idx: usize = 0;
    assert(u@.skip(0) =~= u@);
    while idx < u.len()
        invariant
            idx <= u.len(),
            batches(u@) == units_views(r@) + batches(u@.skip(idx as int)),
        decreases u.len() - idx,
    {
        let take: usize = if 0xD800 <= u[idx] && u[idx] < 0xDC00 { 2 } else { 1 };
        let end: usize = if take < u.len() - idx { idx + take } else { u.len() };
        let mut b: Vec<u16> = Vec::new();
        let mut k = idx;
        while k < end
            invariant
                idx <= k <= end <= u.len(),
                b@ == u@.subrange(idx as int, k as int),
            decreases end - k,
        {
            b.push(u[k]);
            k += 1;
            assert(b@ =~= u@.subrange(idx as int, k as int));
        }
        let ghost rest = u@.skip(idx as int);
        assert(rest.take(end - idx) =~= b@);
        assert(rest.skip(end - idx) =~= u@.skip(end as int));
        let ghost before = r@;
        r.push(b);
        assert(units_views(r@) =~= units_views(before).push(b@));
        assert(units_views(before) + batches(rest) =~= units_views(
            r@,
        ) + batches(u@.skip(end as int)));
        idx = end;
    }
    assert(batches(u@.skip(u.len() as int)) =~= seq![]) by {
        assert(u@.skip(u.len() as int).len() == 0);
    }
    assert(units_views(r@) + seq![] =~= units_views(r@));
    r
}

fn push_line_steps(out: &mut Vec<KeyStep>, line: &[char], paced: bool)
    ensures
        steps_view(final(out)@) == steps_view(old(out)@) + line_steps(line@, paced),
{
    let u = encode_utf16(line);
    let ghost base = steps_view(out@);
    if !paced {
        out.push(KeyStep::Units(u));
        assert(steps_view(out@) =~= base + line_steps(line@, paced));
        return;
    }
    let bs = batch_units(&u);
    let mut k: usize = 0;
    assert(units_views(bs@).take(0) =~= seq![]);
    assert(steps_view(out@) =~= base + with_pauses(units_views(bs@).take(0)));
    while k < bs.len()
        invariant
            k <= bs.len(),
            steps_view(out@) == base + with_pauses(units_views(bs@).take(k as int)),
        decreases bs.len() - k,
    {
        let ghost done = units_views(bs@).take(k as int);
        let ghost next = units_views(bs@).take(k + 1);
        assert(next.drop_last() =~= done);
        assert(next.last() == bs@[k as int]@);
        if k > 0 {
            let ghost before = steps_view(out@);
            out.push(KeyStep::Pause);
            assert(steps_view(out@) =~= before.push(StepView::Pause));
        }
        assert(steps_view(out@) =~= base + with_pauses(done) + (if k > 0 {
            seq![StepView::Pause]
        } else {
            seq![]
        }));
        let ghost mid = steps_view(out@);
        let b = copy_units(&bs[k]);
        out.push(KeyStep::Units(b));
        assert(steps_view(out@) =~= mid.push(StepView::Units(bs@[k as int]@)));
        assert(with_pauses(next) =~= with_pauses(done) + (if k > 0 {
            seq![StepView::Pause]
        } else {
            seq![]
        }) + seq![StepView::Units(bs@[k as int]@)]);
        assert(steps_view(out@) =~= base + with_pauses(next));
        k += 1;
    }
    assert(units_views(bs@).take(bs.len() as int) =~= units_views(bs@));
}

/// The keyboard steps that type `text`: line by line with Enter between lines;
/// `paced` (a non-zero pause between characters) sends each character's units
/// on their own, with a pause between characters, else a whole line at once.
pub fn key_plan(text: &str, paced: bool) -> (r: Vec<KeyStep>)
    ensures
        steps_view(r@) == spec_key_plan(text@, paced),
{
    let chars = chars_of(text);
    let lines = split_lines(&chars);
    let mut out: Vec<KeyStep> = Vec::new();
    let mut k: usize = 0;
    assert(crate::words::views(lines@).take(0) =~= seq![]);
    assert(steps_view(out@) =~= seq![]);
    while k < lines.len()
        invariant
            k <= lines.len(),
            crate::words::views(lines@) == split_on(text@, '\n'),
            steps_view(out@) == lines_steps(crate::words::views(lines@).take(k as int), paced),
        decreases lines.len() - k,
    {
        let ghost done = crate::words::views(lines@).take(k as int);
        let ghost next = crate::words::views(lines@).take(k + 1);
        assert(next.drop_last() =~= done);
        assert(next.last() == lines@[k as int]@);
        if k > 0 {
            let ghost before = steps_view(out@);
            out.push(KeyStep::Enter);
            assert(steps_view(out@) =~= before.push(StepView::Enter));
        }
        let ghost mid = steps_view(out@);
        push_line_steps(&mut out, &lines[k], paced);
        assert(lines_steps(next, paced) =~= lines_steps(done, paced) + (if k > 0 {
            seq![StepView::Enter]
        } else {
            seq![]
        }) + line_steps(lines@[k as int]@, paced));
        k += 1;
    }
    assert(crate::words::views(lines@).take(lines.len() as int) =~= crate::words::views(lines@));
    out
}

/// Paced typing never splits a character: the batches of a text's UTF-16 units
/// are exactly the encodings of its characters, one by one (a surrogate pair
/// travels together).
pub proof fn law_batches_are_characters(s: Seq<char>)
    ensures
        batches(utf16(s)) == s.map_values(|c: char| utf16_of(c)),
    decreases s.len(),
{
    if s.len() == 0 {
        assert(batches(utf16(s)) =~= s.map_values(|c: char| utf16_of(c)));
    } else {
        let c = s[0];
        let rest = s.drop_first();
        law_batches_are_characters(rest);
        let u = utf16(s);
        let e = utf16_of(c);
        assert(u == e + utf16(rest));
        let v = c as u32;
        vstd::utf8::char_is_scalar(c);
        if v < 0x10000 {
            assert(!(0xD800 <= v && v < 0xE000));
            assert(e.len() == 1);
            assert(!is_high_surrogate(u[0]));
        } else {
            assert(v <= 0x10FFFF);
            assert((v - 0x10000) / 0x400 < 0x400) by (nonlinear_arith)
                requires
                    0x10000 <= v <= 0x10FFFF,
            ;
            assert(e.len() == 2);
            assert(is_high_surrogate(u[0]));
        }
        assert(u.take(e.len() as int) =~= e);
        assert(u.skip(e.len() as int) =~= utf16(rest));
        assert(batches(u) =~= seq![e] + batches(utf16(rest)));
        assert(s.map_values(|c: char| utf16_of(c)) =~= seq![e] + rest.map_values(
            |c: char| utf16_of(c),
        ));
    }
}

} // verus!
