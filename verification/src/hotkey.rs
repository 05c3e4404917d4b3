//! The dictation hotkey (push-to-talk), set by "capture".
//!
//! The application samples the state of every virtual key about every 15 ms and
//! hands it to [`Hotkey::poll`] as a slice indexed by virtual-key code (`true` =
//! held). A combination is set by capture: the user holds the keys wanted, and
//! the first held non-modifier key becomes the main key, with the modifiers held
//! at that moment.
use vstd::prelude::*;
use crate::text::{chars_of, string_of, trim, trim_chars, write_decimal, write_hex2, decimal, hex2};

verus! {

pub const VK_SHIFT: u16 = 0x10;
pub const VK_CONTROL: u16 = 0x11;
pub const VK_MENU: u16 = 0x12;
pub const VK_LWIN: u16 = 0x5B;
pub const VK_RWIN: u16 = 0x5C;

/// What a combination is, as data.
pub struct HotkeyView {
    pub ctrl: bool,
    pub alt: bool,
    pub shift: bool,
    pub win: bool,
    pub vk: u16,
    pub key_name: Seq<char>,
}

/// A hotkey combination.
#[derive(Clone)]
pub struct HotkeyConfig {
    pub ctrl: bool,
    pub alt: bool,
    pub shift: bool,
    pub win: bool,
    /// Virtual-key code of the main key or mouse button (0x02/0x04/0x05/0x06 are mouse buttons).
    pub vk: u16,
    pub key_name: String,
}

impl View for HotkeyConfig {
    type V = HotkeyView;

    open spec fn view(&self) -> HotkeyView {
        HotkeyView {
            ctrl: self.ctrl,
            alt: self.alt,
            shift: self.shift,
            win: self.win,
            vk: self.vk,
            key_name: self.key_name@,
        }
    }
}

impl Default for HotkeyConfig {
    /// Ctrl + Alt + Space.
    fn default() -> (r: Self)
        ensures
            r@ == (HotkeyView {
                ctrl: true,
                alt: true,
                shift: false,
                win: false,
                vk: 0x20,
                key_name: "Space"@,
            }),
    {
        HotkeyConfig {
            ctrl: true,
            alt: true,
            shift: false,
            win: false,
            vk: 0x20,
            key_name: "Space".to_owned(),
        }
    }
}

/// The label of a combination: the held modifiers in the order Ctrl, Alt, Shift,
/// Win, then the key, joined by `" + "`.
pub open spec fn spec_label(h: HotkeyView) -> Seq<char> {
    (if h.ctrl { "Ctrl + "@ } else { seq![] }) + (if h.alt { "Alt + "@ } else { seq![] }) + (
    if h.shift {
        "Shift + "@
    } else {
        seq![]
    }) + (if h.win { "Win + "@ } else { seq![] }) + h.key_name
}

/// Modifier keys (both generic and left/right codes).
pub open spec fn spec_is_modifier(vk: u16) -> bool {
    vk == 0x10 || vk == 0x11 || vk == 0x12 || vk == 0x5B || vk == 0x5C || (0xA0 <= vk
        && vk <= 0xA5)
}

/// Keys that type something (letters, digits, space, basic punctuation).
pub open spec fn spec_is_typing_key(vk: u16) -> bool {
    vk == 0x20 || (0x30 <= vk && vk <= 0x39) || (0x41 <= vk && vk <= 0x5A) || (0xBA <= vk
        && vk <= 0xC0) || (0xDB <= vk && vk <= 0xDF)
}

/// A combination is risky when it is a typing key without any modifier: it would
/// fire during ordinary typing.
pub open spec fn spec_is_risky(h: HotkeyView) -> bool {
    !(h.ctrl || h.alt || h.shift || h.win) && spec_is_typing_key(h.vk)
}

/// Whether key `vk` is held in a sampled key state.
pub open spec fn held(down: Seq<bool>, vk: int) -> bool {
    0 <= vk < down.len() && down[vk]
}

/// The combination is held: every modifier it names (either Win key for Win) and
/// the main key. A combination without a key (`vk == 0`) is never held.
pub open spec fn spec_is_down(h: HotkeyView, down: Seq<bool>) -> bool {
    h.vk != 0 && (!h.ctrl || held(down, 0x11)) && (!h.alt || held(down, 0x12)) && (!h.shift
        || held(down, 0x10)) && (!h.win || held(down, 0x5B) || held(down, 0x5C)) && held(
        down,
        h.vk as int,
    )
}

/// A key that capture may pick: held, not a modifier.
pub open spec fn capture_candidate(down: Seq<bool>, vk: int) -> bool {
    held(down, vk) && !spec_is_modifier(vk as u16)
}

/// The first key from `vk` up to 0xFE that capture may pick.
pub open spec fn first_candidate(down: Seq<bool>, vk: int) -> Option<u16>
    decreases 0xFF - vk,
{
    if vk > 0xFE || vk < 0 {
        None
    } else if capture_candidate(down, vk) {
        Some(vk as u16)
    } else {
        first_candidate(down, vk + 1)
    }
}

/// The key capture picks: the lowest held non-modifier from 0x02 (the left mouse
/// button 0x01 is skipped: it is what the user clicked to start capture).
pub open spec fn spec_captured_key(down: Seq<bool>) -> Option<u16> {
    first_candidate(down, 2)
}

/// The name shown for a key. Common keys have names of their own; digits and
/// letters are themselves; numpad digits and function keys are numbered; any
/// other key takes the name the system gives it (trimmed, if not empty), or its
/// code in hexadecimal.
pub open spec fn spec_key_name(vk: u16, os_name: Option<Seq<char>>) -> Seq<char> {
    if vk == 0x01 {
        "Мышь: левая"@
    } else if vk == 0x02 {
        "Мышь: правая"@
    } else if vk == 0x04 {
        "Мышь: средняя"@
    } else if vk == 0x05 {
        "Мышь: X1 (назад)"@
    } else if vk == 0x06 {
        "Мышь: X2 (вперёд)"@
    } else if vk == 0x08 {
        "Backspace"@
    } else if vk == 0x09 {
        "Tab"@
    } else if vk == 0x0D {
        "Enter"@
    } else if vk == 0x13 {
        "Pause"@
    } else if vk == 0x1B {
        "Esc"@
    } else if vk == 0x20 {
        "Space"@
    } else if vk == 0x21 {
        "PageUp"@
    } else if vk == 0x22 {
        "PageDown"@
    } else if vk == 0x23 {
        "End"@
    } else if vk == 0x24 {
        "Home"@
    } else if vk == 0x25 {
        "Влево"@
    } else if vk == 0x26 {
        "Вверх"@
    } else if vk == 0x27 {
        "Вправо"@
    } else if vk == 0x28 {
        "Вниз"@
    } else if vk == 0x2C {
        "PrintScreen"@
    } else if vk == 0x2D {
        "Insert"@
    } else if vk == 0x2E {
        "Delete"@
    } else if vk == 0x5D {
        "Menu"@
    } else if (0x30 <= vk && vk <= 0x39) || (0x41 <= vk && vk <= 0x5A) {
        seq![(vk as u32) as char]
    } else if 0x60 <= vk && vk <= 0x69 {
        "Num"@ + decimal((vk - 0x60) as nat)
    } else if 0x70 <= vk && vk <= 0x87 {
        "F"@ + decimal((vk - 0x6F) as nat)
    } else {
        match os_name {
            Some(n) if trim(n).len() > 0 => trim(n),
            _ => "Клавиша 0x"@ + hex2(vk as nat),
        }
    }
}

/// The combination capture builds from a key state: the modifiers held, the key
/// picked and its name.
pub open spec fn spec_capture(down: Seq<bool>, vk: u16, os_name: Option<Seq<char>>) -> HotkeyView {
    HotkeyView {
        ctrl: held(down, 0x11),
        alt: held(down, 0x12),
        shift: held(down, 0x10),
        win: held(down, 0x5B) || held(down, 0x5C),
        vk,
        key_name: spec_key_name(vk, os_name),
    }
}

impl HotkeyConfig {
    /// "Ctrl + Alt + Space" and the like.
    pub fn label(&self) -> (r: String)
        ensures
            r@ == spec_label(self@),
    {
        let mut v: Vec<char> = Vec::new();
        if self.ctrl {
            append_str(&mut v, "Ctrl + ");
        }
        if self.alt {
            append_str(&mut v, "Alt + ");
        }
        if self.shift {
            append_str(&mut v, "Shift + ");
        }
        if self.win {
            append_str(&mut v, "Win + ");
        }
        append_str(&mut v, self.key_name.as_str());
        let r = string_of(&v);
        assert(r@ =~= spec_label(self@));
        r
    }

    /// Whether the combination is held in the sampled key state.
    pub fn is_down(&self, down: &[bool]) -> (r: bool)
        ensures
            r == spec_is_down(self@, down@),
    {
        if self.vk == 0 {
            return false;
        }
        (!self.ctrl || key_down(down, VK_CONTROL)) && (!self.alt || key_down(down, VK_MENU)) && (
        !self.shift || key_down(down, VK_SHIFT)) && (!self.win || key_down(down, VK_LWIN)
            || key_down(down, VK_RWIN)) && key_down(down, self.vk)
    }

    /// A typing key without modifiers: it would fire during ordinary typing.
    pub fn is_risky(&self) -> (r: bool)
        ensures
            r == spec_is_risky(self@),
    {
        let has_mod = self.ctrl || self.alt || self.shift || self.win;
        !has_mod && is_typing_key(self.vk)
    }
}

/// Appends the characters of `s` to `v`.
pub fn append_str(v: &mut Vec<char>, s: &str)
    ensures
        final(v)@ == old(v)@ + s@,
{
    let c = chars_of(s);
    let ghost base = v@;
    let mut i: usize = 0;
    while i < c.len()
        invariant
            i <= c.len(),
            c@ == s@,
            v@ == base + c@.take(i as int),
        decreases c.len() - i,
    {
        v.push(c[i]);
        i += 1;
        assert(v@ =~= base + c@.take(i as int));
    }
    assert(c@.take(c.len() as int) =~= c@);
}

/// Whether key `vk` is held.
pub fn key_down(down: &[bool], vk: u16) -> (r: bool)
    ensures
        r == held(down@, vk as int),
{
    (vk as usize) < down.len() && down[vk as usize]
}

/// Modifier keys, generic and left/right.
pub fn is_modifier(vk: u16) -> (r: bool)
    ensures
        r == spec_is_modifier(vk),
{
    vk == 0x10 || vk == 0x11 || vk == 0x12 || vk == 0x5B || vk == 0x5C || (0xA0 <= vk && vk
        <= 0xA5)
}

/// Letters, digits, space and basic punctuation.
pub fn is_typing_key(vk: u16) -> (r: bool)
    ensures
        r == spec_is_typing_key(vk),
{
    vk == 0x20 || (0x30 <= vk && vk <= 0x39) || (0x41 <= vk && vk <= 0x5A) || (0xBA <= vk && vk
        <= 0xC0) || (0xDB <= vk && vk <= 0xDF)
}

/// The key capture picks from a key state, if any.
pub fn captured_key(down: &[bool]) -> (r: Option<u16>)
    ensures
        r == spec_captured_key(down@),
{
    let mut vk: u16 = 2;
    while vk <= 0xFE
        invariant
            2 <= vk <= 0xFF,
            first_candidate(down@, 2) == first_candidate(down@, vk as int),
        decreases 0xFF - vk,
    {
        if key_down(down, vk) && !is_modifier(vk) {
            return Some(vk);
        }
        vk += 1;
    }
    None
}

/// The name shown for a key; `os_name` is what the system calls the key
/// (consulted only for keys without a name of their own).
pub fn key_name(vk: u16, os_name: Option<String>) -> (r: String)
    ensures
        r@ == spec_key_name(
            vk,
            match os_name {
                Some(n) => Some(n@),
                None => None,
            },
        ),
{
    if vk == 0x01 {
        return "Мышь: левая".to_owned();
    } else if vk == 0x02 {
        return "Мышь: правая".to_owned();
    } else if vk == 0x04 {
        return "Мышь: средняя".to_owned();
    } else if vk == 0x05 {
        return "Мышь: X1 (назад)".to_owned();
    } else if vk == 0x06 {
        return "Мышь: X2 (вперёд)".to_owned();
    } else if vk == 0x08 {
        return "Backspace".to_owned();
    } else if vk == 0x09 {
        return "Tab".to_owned();
    } else if vk == 0x0D {
        return "Enter".to_owned();
    } else if vk == 0x13 {
        return "Pause".to_owned();
    } else if vk == 0x1B {
        return "Esc".to_owned();
    } else if vk == 0x20 {
        return "Space".to_owned();
    } else if vk == 0x21 {
        return "PageUp".to_owned();
    } else if vk == 0x22 {
        return "PageDown".to_owned();
    } else if vk == 0x23 {
        return "End".to_owned();
    } else if vk == 0x24 {
        return "Home".to_owned();
    } else if vk == 0x25 {
        return "Влево".to_owned();
    } else if vk == 0x26 {
        return "Вверх".to_owned();
    } else if vk == 0x27 {
        return "Вправо".to_owned();
    } else if vk == 0x28 {
        return "Вниз".to_owned();
    } else if vk == 0x2C {
        return "PrintScreen".to_owned();
    } else if vk == 0x2D {
        return "Insert".to_owned();
    } else if vk == 0x2E {
        return "Delete".to_owned();
    } else if vk == 0x5D {
        return "Menu".to_owned();
    }
    let mut v: Vec<char> = Vec::new();
    if (0x30 <= vk && vk <= 0x39) || (0x41 <= vk && vk <= 0x5A) {
        v.push((vk as u8) as char);
        assert(v@ =~= seq![(vk as u32) as char]);
        return string_of(&v);
    } else if 0x60 <= vk && vk <= 0x69 {
        append_str(&mut v, "Num");
        let d = write_decimal((vk - 0x60) as u64);
        let r = string_of(&crate::text::concat(&v, &d));
        return r;
    } else if 0x70 <= vk && vk <= 0x87 {
        append_str(&mut v, "F");
        let d = write_decimal((vk - 0x6F) as u64);
        let r = string_of(&crate::text::concat(&v, &d));
        return r;
    }
    if let Some(n) = os_name {
        let t = trim_chars(&chars_of(n.as_str()));
        if t.len() > 0 {
            return string_of(&t);
        }
    }
    append_str(&mut v, "Клавиша 0x");
    let h = write_hex2(vk as u64);
    string_of(&crate::text::concat(&v, &h))
}

/// The combination capture builds: the modifiers held in `down`, key `vk` and its name.
pub fn capture_config(down: &[bool], vk: u16, os_name: Option<String>) -> (r: HotkeyConfig)
    ensures
        r@ == spec_capture(
            down@,
            vk,
            match os_name {
                Some(n) => Some(n@),
                None => None,
            },
        ),
{
    HotkeyConfig {
        ctrl: key_down(down, VK_CONTROL),
        alt: key_down(down, VK_MENU),
        shift: key_down(down, VK_SHIFT),
        win: key_down(down, VK_LWIN) || key_down(down, VK_RWIN),
        vk,
        key_name: key_name(vk, os_name),
    }
}

/// What the hotkey reports.
#[derive(Clone, Copy, Debug, PartialEq, Eq, Structural)]
pub enum HotkeyEvent {
    Pressed,
    Released,
}

/// The state of the hotkey watcher as data.
pub struct HotkeyState {
    pub config: HotkeyView,
    pub capturing: bool,
    pub was_down: bool,
    pub events: Seq<HotkeyEvent>,
}

/// The hotkey watcher: the combination, whether capture is on, whether the
/// combination was held at the last sample, and the events not yet drained.
pub struct Hotkey {
    pub config: HotkeyConfig,
    capturing: bool,
    was_down: bool,
    events: Vec<HotkeyEvent>,
}

impl View for Hotkey {
    type V = HotkeyState;

    closed spec fn view(&self) -> HotkeyState {
        HotkeyState {
            config: self.config@,
            capturing: self.capturing,
            was_down: self.was_down,
            events: self.events@,
        }
    }
}

/// One sample of the key state. While capturing, the first key that capture may
/// pick (if any) sets the combination and ends capture; the keys that made it
/// count as already held, so that the same press does not start dictation.
/// Otherwise a change of "the combination is held" is reported as an event.
/// `os_name` is the system's name of the key capture picks.
pub open spec fn spec_poll(s: HotkeyState, down: Seq<bool>, os_name: Option<Seq<char>>) -> HotkeyState {
    if s.capturing {
        match spec_captured_key(down) {
            Some(vk) => HotkeyState {
                config: spec_capture(down, vk, os_name),
                capturing: false,
                was_down: true,
                ..s
            },
            None => s,
        }
    } else {
        let d = spec_is_down(s.config, down);
        if d != s.was_down {
            HotkeyState {
                was_down: d,
                events: s.events.push(if d { HotkeyEvent::Pressed } else { HotkeyEvent::Released }),
                ..s
            }
        } else {
            s
        }
    }
}

impl Hotkey {
    /// A watcher for `config`, not capturing, with the combination not held.
    pub fn new(config: HotkeyConfig) -> (r: Self)
        ensures
            r@ == (HotkeyState {
                config: config@,
                capturing: false,
                was_down: false,
                events: seq![],
            }),
    {
        Hotkey { config, capturing: false, was_down: false, events: Vec::new() }
    }

    /// The events since the last drain, oldest first; none remain.
    pub fn drain(&mut self) -> (r: Vec<HotkeyEvent>)
        ensures
            r@ == old(self)@.events,
            final(self)@ == (HotkeyState { events: seq![], ..old(self)@ }),
    {
        let mut r = Vec::new();
        std::mem::swap(&mut r, &mut self.events);
        r
    }

    /// The label of the current combination.
    pub fn label(&self) -> (r: String)
        ensures
            r@ == spec_label(self@.config),
    {
        self.config.label()
    }

    /// Start capture: the next held non-modifier key sets the combination.
    pub fn start_capture(&mut self)
        ensures
            final(self)@ == (HotkeyState { capturing: true, ..old(self)@ }),
    {
        self.capturing = true;
    }

    /// Stop capture without changing the combination.
    pub fn cancel_capture(&mut self)
        ensures
            final(self)@ == (HotkeyState { capturing: false, ..old(self)@ }),
    {
        self.capturing = false;
    }

    pub fn is_capturing(&self) -> (r: bool)
        ensures
            r == self@.capturing,
    {
        self.capturing
    }

    /// Whether the current combination is risky.
    pub fn is_risky(&self) -> (r: bool)
        ensures
            r == spec_is_risky(self@.config),
    {
        self.config.is_risky()
    }

    /// Replace the combination (settings loaded, or edited).
    pub fn set_config(&mut self, config: HotkeyConfig)
        ensures
            final(self)@ == (HotkeyState { config: config@, ..old(self)@ }),
    {
        self.config = config;
    }

    /// One sample of the key state; see [`spec_poll`].
    pub fn poll(&mut self, down: &[bool], os_name: Option<String>)
        ensures
            final(self)@ == spec_poll(
                old(self)@,
                down@,
                match os_name {
                    Some(n) => Some(n@),
                    None => None,
                },
            ),
    {
        if self.capturing {
            match captured_key(down) {
                Some(vk) => {
                    self.config = capture_config(down, vk, os_name);
                    self.capturing = false;
                    self.was_down = true;
                },
                None => {},
            }
        } else {
            let d = self.config.is_down(down);
            if d != self.was_down {
                self.events.push(if d { HotkeyEvent::Pressed } else { HotkeyEvent::Released });
                self.was_down = d;
            }
        }
    }
}

/// The press that completes a capture never starts dictation: while the same keys
/// stay held, the samples that follow report no `Pressed`.
pub proof fn law_capture_is_not_a_press(s: HotkeyState, down: Seq<bool>, os_name: Option<Seq<char>>)
    requires
        s.capturing,
        spec_captured_key(down) is Some,
    ensures
        ({
            let t = spec_poll(s, down, os_name);
            &&& t.events == s.events
            &&& !t.capturing
            &&& t.was_down
            &&& spec_poll(t, down, os_name).events.len() <= t.events.len() + 1
            &&& spec_poll(t, down, os_name).events.len() == t.events.len() + 1 ==> spec_poll(
                t,
                down,
                os_name,
            ).events.last() == HotkeyEvent::Released
        }),
{
}

/// An event is reported exactly when "the combination is held" changes, and it
/// says which way it changed.
pub proof fn law_events_follow_edges(s: HotkeyState, down: Seq<bool>, os_name: Option<Seq<char>>)
    requires
        !s.capturing,
    ensures
        ({
            let t = spec_poll(s, down, os_name);
            &&& t.was_down == spec_is_down(s.config, down)
            &&& (t.events.len() == s.events.len() + 1) == (spec_is_down(s.config, down)
                != s.was_down)
            &&& t.events.len() == s.events.len() + 1 ==> t.events.last() == (if t.was_down {
                HotkeyEvent::Pressed
            } else {
                HotkeyEvent::Released
            })
            &&& t.events.take(s.events.len() as int) == s.events
        }),
{
    let t = spec_poll(s, down, os_name);
    assert(t.events.take(s.events.len() as int) =~= s.events);
}

/// One thing that happens to a watcher whose combination is not being captured:
/// a sample of the keys, or a drain of its events.
pub enum HotkeyAct {
    Sample(Seq<bool>, Option<Seq<char>>),
    Drain,
}

/// The state after `acts`, and everything the drains among them handed out, in
/// order (each drain as [`Hotkey::drain`] states it).
pub open spec fn run_acts(s: HotkeyState, acts: Seq<HotkeyAct>) -> (HotkeyState, Seq<HotkeyEvent>)
    decreases acts.len(),
{
    if acts.len() == 0 {
        (s, seq![])
    } else {
        let (t, out) = run_acts(s, acts.drop_last());
        match acts.last() {
            HotkeyAct::Sample(down, os_name) => (spec_poll(t, down, os_name), out),
            HotkeyAct::Drain => (HotkeyState { events: seq![], ..t }, out + t.events),
        }
    }
}

/// The `i`-th event of a run that starts with the combination released.
pub open spec fn nth_event(i: int) -> HotkeyEvent {
    if i % 2 == 0 {
        HotkeyEvent::Pressed
    } else {
        HotkeyEvent::Released
    }
}

/// Events alternate, beginning with a press.
pub open spec fn alternating(evs: Seq<HotkeyEvent>) -> bool {
    forall|i: int| 0 <= i < evs.len() ==> #[trigger] evs[i] == nth_event(i)
}

/// A fresh watcher, as [`Hotkey::new`] makes it.
pub open spec fn fresh(s: HotkeyState) -> bool {
    !s.capturing && !s.was_down && s.events.len() == 0
}

/// From a fresh watcher and without capture, every event is reported once: what
/// the drains handed out followed by what is still pending alternates Pressed,
/// Released, Pressed, … beginning with Pressed, and the combination counts as
/// held exactly when the last of them is a press.
pub proof fn law_events_alternate(s: HotkeyState, acts: Seq<HotkeyAct>)
    requires
        fresh(s),
    ensures
        ({
            let (t, out) = run_acts(s, acts);
            &&& !t.capturing
            &&& t.config == s.config
            &&& alternating(out + t.events)
            &&& t.was_down == ((out + t.events).len() % 2 == 1)
        }),
    decreases acts.len(),
{
    if acts.len() == 0 {
        assert(Seq::<HotkeyEvent>::empty() + s.events =~= Seq::<HotkeyEvent>::empty());
    } else {
        law_events_alternate(s, acts.drop_last());
        let (t, out) = run_acts(s, acts.drop_last());
        let all = out + t.events;
        match acts.last() {
            HotkeyAct::Sample(down, os_name) => {
                let u = spec_poll(t, down, os_name);
                let d = spec_is_down(t.config, down);
                if d != t.was_down {
                    let e = if d { HotkeyEvent::Pressed } else { HotkeyEvent::Released };
                    assert(u.events == t.events.push(e));
                    assert(out + u.events =~= all.push(e));
                    assert(e == nth_event(all.len() as int));
                    assert forall|i: int| 0 <= i < all.push(e).len() implies #[trigger] all.push(e)[i]
                        == nth_event(i) by {
                        if i < all.len() {
                            assert(all.push(e)[i] == all[i]);
                        }
                    }
                } else {
                    assert(u == t);
                }
            },
            HotkeyAct::Drain => {
                assert((out + t.events) + Seq::<HotkeyEvent>::empty() =~= all);
            },
        }
    }
}

/// Law: the combination counts as held exactly when it has a main key, that key
/// is held, Ctrl is held if it names Ctrl, Alt if it names Alt, Shift if it names
/// Shift, and either Win key if it names Win. So a sample reports a press only
/// with every key of the combination held.
pub proof fn law_down_needs_every_key(h: HotkeyView, down: Seq<bool>, s: HotkeyState, os_name: Option<Seq<char>>)
    requires
        !s.capturing,
    ensures
        spec_is_down(h, down) <==> (h.vk != 0 && (h.vk as int) < down.len() && down[h.vk as int]
            && (h.ctrl ==> 0x11 < down.len() && down[0x11]) && (h.alt ==> 0x12 < down.len()
            && down[0x12]) && (h.shift ==> 0x10 < down.len() && down[0x10]) && (h.win ==> (0x5B
            < down.len() && down[0x5B]) || (0x5C < down.len() && down[0x5C]))),
        spec_poll(s, down, os_name).events.len() > s.events.len() && spec_poll(
            s,
            down,
            os_name,
        ).events.last() == HotkeyEvent::Pressed ==> (s.config.vk != 0 && (s.config.vk as int)
            < down.len() && down[s.config.vk as int] && (s.config.ctrl ==> 0x11 < down.len()
            && down[0x11]) && (s.config.alt ==> 0x12 < down.len() && down[0x12]) && (
        s.config.shift ==> 0x10 < down.len() && down[0x10]) && (s.config.win ==> (0x5B
            < down.len() && down[0x5B]) || (0x5C < down.len() && down[0x5C]))),
{
}

} // verus!
