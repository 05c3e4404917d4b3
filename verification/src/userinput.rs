//! Whether the user touched the keyboard or the mouse.
//!
//! Streaming dictation corrects text it already inserted: it erases the tail with
//! Backspace and types it anew. That is safe only while nobody types or moves the
//! caret in between, or Backspace would eat someone else's characters. The
//! application's low-level hooks report every key and click here; events the
//! application injected itself do not count, and neither does the main key of the
//! dictation hotkey (it is what stops dictation).
use vstd::prelude::*;

verus! {

pub const WM_LBUTTONDOWN: u32 = 0x0201;
pub const WM_RBUTTONDOWN: u32 = 0x0204;
pub const WM_MBUTTONDOWN: u32 = 0x0207;

/// The time of the last real input (ms since the watch started), and the key
/// that does not count.
pub struct InputWatch {
    last: u64,
    ignore: u16,
}

impl InputWatch {
    pub closed spec fn last_spec(&self) -> u64 {
        self.last
    }

    pub closed spec fn ignored_spec(&self) -> u16 {
        self.ignore
    }

    /// No input seen, no key ignored.
    pub fn new() -> (r: Self)
        ensures
            r.last_spec() == 0,
            r.ignored_spec() == 0,
    {
        InputWatch { last: 0, ignore: 0 }
    }

    /// A key event at `now`: it counts unless injected or the ignored key (the
    /// hook's 32-bit key code is compared by its low 16 bits).
    pub fn on_key(&mut self, vk: u32, injected: bool, now: u64)
        ensures
            final(self).ignored_spec() == old(self).ignored_spec(),
            final(self).last_spec() == spec_on_key(
                old(self).last_spec(),
                old(self).ignored_spec(),
                vk,
                injected,
                now,
            ),
    {
        let low = #[verifier::truncate] (vk as u16);
        assert(low == vk % 0x10000) by (bit_vector)
            requires
                low == vk as u16,
        ;
        if !injected && low != self.ignore {
            self.last = now;
        }
    }

    /// A mouse event at `now`: only a button press that was not injected counts
    /// (the caret is moved by clicks, not by moving the mouse).
    pub fn on_mouse(&mut self, msg: u32, injected: bool, now: u64)
        ensures
            final(self).ignored_spec() == old(self).ignored_spec(),
            final(self).last_spec() == (if !injected && (msg == WM_LBUTTONDOWN || msg == WM_RBUTTONDOWN
                || msg == WM_MBUTTONDOWN) {
                now
            } else {
                old(self).last_spec()
            }),
    {
        let click = msg == WM_LBUTTONDOWN || msg == WM_RBUTTONDOWN || msg == WM_MBUTTONDOWN;
        if click && !injected {
            self.last = now;
        }
    }
}

/// The key that does not count (the main key of the hotkey).
pub fn ignore_vk(w: &mut InputWatch, vk: u16)
    ensures
        final(w).ignored_spec() == vk,
        final(w).last_spec() == old(w).last_spec(),
{
    w.ignore = vk;
}

/// Whether the user touched the keyboard or mouse after the moment `since`.
pub fn touched_since(w: &InputWatch, since: u64) -> (r: bool)
    ensures
        r == (w.last_spec() > since),
{
    w.last > since
}

/// The time of the last real input after a key event.
pub open spec fn spec_on_key(last: u64, ignore: u16, vk: u32, injected: bool, now: u64) -> u64 {
    if !injected && (vk % 0x10000) != ignore {
        now
    } else {
        last
    }
}

/// Neither the application's own key events nor the hotkey's main key count as
/// the user touching the keyboard.
pub proof fn law_own_input_is_not_touching(last: u64, ignore: u16, vk: u32, injected: bool, now: u64)
    requires
        injected || vk % 0x10000 == ignore,
    ensures
        spec_on_key(last, ignore, vk, injected, now) == last,
{
}

} // verus!
