//! Starting with Windows: a value under `HKCU\...\Run` (no administrator rights
//! needed; Task Manager shows it and can turn it off). The registry itself is the
//! source of truth, not `config.json`; reading and writing it is the
//! application's. The command always starts hidden in the tray: at system start
//! the window must not jump onto the screen.
use vstd::prelude::*;
use crate::download::{eq_ignore_ascii_case, spec_eq_ignore_ascii_case};
use crate::hotkey::append_str;
use crate::text::{chars_of, string_of};

verus! {

/// The command of the autostart value: the quoted path of the executable and `--tray`.
pub fn command(exe: &str) -> (r: String)
    ensures
        r@ == seq!['"'] + exe@ + "\" --tray"@,
{
    let mut v: Vec<char> = Vec::new();
    v.push('"');
    append_str(&mut v, exe);
    append_str(&mut v, "\" --tray");
    string_of(&v)
}

/// The value found in the registry is this executable's command (paths compare
/// without regard to ASCII case, as Windows paths do). Autostart counts as on
/// whenever a value is there; a different path only goes to the log.
pub fn same_command(have: &str, want: &str) -> (r: bool)
    ensures
        r == spec_eq_ignore_ascii_case(have@, want@),
{
    eq_ignore_ascii_case(&chars_of(have), &chars_of(want))
}

} // verus!
