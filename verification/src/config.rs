//! Settings kept between runs (`config.json` next to the executable).
//!
//! The application reads and writes the file and converts it with serde; this
//! module holds the settings, their defaults, and the hotkey they describe.
use vstd::prelude::*;
use crate::hotkey::{HotkeyConfig, HotkeyView};
use crate::inject::{DEFAULT_CHAR_DELAY_US, MODE_AUTO};
use crate::text::{chars_of, string_of};

verus! {

/// The settings.
pub struct Config {
    pub ctrl: bool,
    pub alt: bool,
    pub shift: bool,
    pub win: bool,
    pub vk: u16,
    pub key_name: String,
    pub model: Option<String>,
    pub lang: String,
    pub insert: bool,
    pub streaming: bool,
    /// Insertion mode: 0 auto, 1 keyboard, 2 clipboard (see `inject`).
    pub paste_mode: u8,
    /// Pause between typed characters, µs (edited by hand in `config.json`: raise
    /// it, 8000 → 15000, if some application loses or doubles characters).
    pub char_delay_us: u32,
    /// Start hidden in the tray.
    pub start_in_tray: bool,
}

impl Default for Config {
    /// The default hotkey (Ctrl + Alt + Space), no model, Russian, insertion and
    /// streaming on, automatic insertion mode, the default pause, a visible window.
    fn default() -> (r: Self)
        ensures
            r.ctrl && r.alt && !r.shift && !r.win,
            r.vk == 0x20,
            r.key_name@ == "Space"@,
            r.model is None,
            r.lang@ == "ru"@,
            r.insert,
            r.streaming,
            r.paste_mode == MODE_AUTO,
            r.char_delay_us == DEFAULT_CHAR_DELAY_US,
            !r.start_in_tray,
    {
        let h = HotkeyConfig::default();
        Config {
            ctrl: h.ctrl,
            alt: h.alt,
            shift: h.shift,
            win: h.win,
            vk: h.vk,
            key_name: h.key_name,
            model: None,
            lang: "ru".to_owned(),
            insert: true,
            streaming: true,
            paste_mode: MODE_AUTO,
            char_delay_us: DEFAULT_CHAR_DELAY_US,
            start_in_tray: false,
        }
    }
}

impl Config {
    /// The hotkey the settings describe.
    pub fn hotkey(&self) -> (r: HotkeyConfig)
        ensures
            r@ == (HotkeyView {
                ctrl: self.ctrl,
                alt: self.alt,
                shift: self.shift,
                win: self.win,
                vk: self.vk,
                key_name: self.key_name@,
            }),
    {
        HotkeyConfig {
            ctrl: self.ctrl,
            alt: self.alt,
            shift: self.shift,
            win: self.win,
            vk: self.vk,
            key_name: string_of(&chars_of(self.key_name.as_str())),
        }
    }

    /// Store a hotkey in the settings.
    pub fn set_hotkey(&mut self, h: &HotkeyConfig)
        ensures
            final(self).ctrl == h.ctrl,
            final(self).alt == h.alt,
            final(self).shift == h.shift,
            final(self).win == h.win,
            final(self).vk == h.vk,
            final(self).key_name@ == h.key_name@,
            final(self).model == old(self).model,
            final(self).lang == old(self).lang,
            final(self).insert == old(self).insert,
            final(self).streaming == old(self).streaming,
            final(self).paste_mode == old(self).paste_mode,
            final(self).char_delay_us == old(self).char_delay_us,
            final(self).start_in_tray == old(self).start_in_tray,
    {
        self.ctrl = h.ctrl;
        self.alt = h.alt;
        self.shift = h.shift;
        self.win = h.win;
        self.vk = h.vk;
        self.key_name = string_of(&chars_of(h.key_name.as_str()));
    }
}

/// Leading byte-order marks removed (`trim_start_matches('\u{feff}')`): editors
/// and PowerShell like to save UTF-8 with one, and the JSON reader stumbles on it.
pub open spec fn strip_bom_spec(s: Seq<char>) -> Seq<char>
    decreases s.len(),
{
    if s.len() > 0 && s[0] == '\u{feff}' {
        strip_bom_spec(s.drop_first())
    } else {
        s
    }
}

pub fn strip_bom(s: &str) -> (r: String)
    ensures
        r@ == strip_bom_spec(s@),
{
    let c = chars_of(s);
    let mut i: usize = 0;
    assert(c@.skip(0) =~= c@);
    while i < c.len() && c[i] == '\u{feff}'
        invariant
            i <= c.len(),
            c@ == s@,
            strip_bom_spec(s@) == strip_bom_spec(c@.skip(i as int)),
        decreases c.len() - i,
    {
        assert(c@.skip(i as int).drop_first() =~= c@.skip(i + 1));
        i += 1;
    }
    let mut out: Vec<char> = Vec::new();
    let mut k = i;
    while k < c.len()
        invariant
            i <= k <= c.len(),
            out@ == c@.subrange(i as int, k as int),
        decreases c.len() - k,
    {
        out.push(c[k]);
        k += 1;
        assert(out@ =~= c@.subrange(i as int, k as int));
    }
    assert(c@.subrange(i as int, c.len() as int) =~= c@.skip(i as int));
    string_of(&out)
}

} // verus!
