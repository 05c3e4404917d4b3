//! The icon in the notification area: what its menu and clicks mean.
//!
//! The icon, its window and its message loop belong to the application; this
//! module routes what the user chose to the interface and words the menu.
use vstd::prelude::*;
use crate::text::{chars_of, encode_utf16, utf16};

verus! {

/// What the user chose in the tray.
#[derive(Clone, Copy, PartialEq, Eq, Debug, Structural)]
pub enum TrayEvent {
    /// Show the application window.
    Show,
    /// Start or stop dictation.
    Dictate,
    /// Quit the application.
    Quit,
}

/// Command identifiers of the menu items.
pub const ID_SHOW: usize = 1;
pub const ID_DICTATE: usize = 2;
pub const ID_QUIT: usize = 3;

/// Window messages the icon reports.
pub const WM_LBUTTONDBLCLK: u32 = 0x0203;
pub const WM_RBUTTONUP: u32 = 0x0205;

/// The menu item chosen, from the `wParam` of `WM_COMMAND` (its low word).
pub open spec fn spec_command_event(wparam: usize) -> Option<TrayEvent> {
    let id = wparam % 0x10000;
    if id == ID_SHOW {
        Some(TrayEvent::Show)
    } else if id == ID_DICTATE {
        Some(TrayEvent::Dictate)
    } else if id == ID_QUIT {
        Some(TrayEvent::Quit)
    } else {
        None
    }
}

pub fn command_event(wparam: usize) -> (r: Option<TrayEvent>)
    ensures
        r == spec_command_event(wparam),
{
    let id = wparam & 0xFFFF;
    assert(wparam & 0xFFFF == wparam % 0x10000) by (bit_vector);
    if id == ID_SHOW {
        Some(TrayEvent::Show)
    } else if id == ID_DICTATE {
        Some(TrayEvent::Dictate)
    } else if id == ID_QUIT {
        Some(TrayEvent::Quit)
    } else {
        None
    }
}

/// What a mouse message on the icon does.
#[derive(Clone, Copy, PartialEq, Eq, Debug, Structural)]
pub enum IconAction {
    /// Report an event.
    Event(TrayEvent),
    /// Open the menu.
    Menu,
    /// Nothing.
    Ignore,
}

/// A double click shows the window; a right click opens the menu.
pub fn icon_action(msg: u32) -> (r: IconAction)
    ensures
        r == (if msg == WM_LBUTTONDBLCLK {
            IconAction::Event(TrayEvent::Show)
        } else if msg == WM_RBUTTONUP {
            IconAction::Menu
        } else {
            IconAction::Ignore
        }),
{
    if msg == WM_LBUTTONDBLCLK {
        IconAction::Event(TrayEvent::Show)
    } else if msg == WM_RBUTTONUP {
        IconAction::Menu
    } else {
        IconAction::Ignore
    }
}

/// The label of the dictation item: it stops dictation while one is under way.
pub fn dictate_item(dictating: bool) -> (r: &'static str)
    ensures
        r@ == (if dictating { "Остановить диктовку"@ } else { "Начать диктовку"@ }),
{
    if dictating {
        "Остановить диктовку"
    } else {
        "Начать диктовку"
    }
}

/// The tooltip as the icon data holds it: UTF-16, cut to leave room for the
/// terminating zero of a buffer of `cap` units, then the zero.
pub fn tip_units(tip: &str, cap: usize) -> (r: Vec<u16>)
    requires
        cap >= 1,
    ensures
        r@ == utf16(tip@).take(if utf16(tip@).len() < cap - 1 {
            utf16(tip@).len() as int
        } else {
            cap - 1
        }).push(0u16),
{
    let all = encode_utf16(&chars_of(tip));
    let n = if all.len() < cap - 1 { all.len() } else { cap - 1 };
    let mut r: Vec<u16> = Vec::new();
    let mut i: usize = 0;
    while i < n
        invariant
            i <= n <= all.len(),
            r@ == all@.take(i as int),
        decreases n - i,
    {
        r.push(all[i]);
        i += 1;
        assert(r@ =~= all@.take(i as int));
    }
    r.push(0);
    r
}

/// The events chosen in the tray and whether dictation is under way (which words
/// the menu).
pub struct Tray {
    events: Vec<TrayEvent>,
    dictating: bool,
}

impl Tray {
    pub closed spec fn events_spec(&self) -> Seq<TrayEvent> {
        self.events@
    }

    pub closed spec fn dictating_spec(&self) -> bool {
        self.dictating
    }

    pub fn new() -> (r: Self)
        ensures
            r.events_spec() == Seq::<TrayEvent>::empty(),
            !r.dictating_spec(),
    {
        Tray { events: Vec::new(), dictating: false }
    }

    /// The user chose `ev`.
    pub fn send(&mut self, ev: TrayEvent)
        ensures
            final(self).events_spec() == old(self).events_spec().push(ev),
            final(self).dictating_spec() == old(self).dictating_spec(),
    {
        self.events.push(ev);
    }

    /// The events since the last drain, oldest first; none remain.
    pub fn drain(&mut self) -> (r: Vec<TrayEvent>)
        ensures
            r@ == old(self).events_spec(),
            final(self).events_spec() == Seq::<TrayEvent>::empty(),
            final(self).dictating_spec() == old(self).dictating_spec(),
    {
        let mut r = Vec::new();
        std::mem::swap(&mut r, &mut self.events);
        r
    }

    /// Tell the tray whether dictation is under way.
    pub fn set_dictating(&mut self, on: bool)
        ensures
            final(self).dictating_spec() == on,
            final(self).events_spec() == old(self).events_spec(),
    {
        self.dictating = on;
    }

    /// The label of the dictation item of the menu now.
    pub fn dictate_label(&self) -> (r: &'static str)
        ensures
            r@ == (if self.dictating_spec() { "Остановить диктовку"@ } else { "Начать диктовку"@ }),
    {
        dictate_item(self.dictating)
    }
}

} // verus!
