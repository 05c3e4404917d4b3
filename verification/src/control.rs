//! Controlling dictation: what the hotkey and the tray mean, whether dictation
//! may start, that each exit from capture is handled once, the model chosen at
//! start, and the bounded log of the interface.
use vstd::prelude::*;
use crate::hotkey::HotkeyEvent;
use crate::models::{catalog, spec_catalog, ModelInfo};
use crate::text::str_eq;

verus! {

/// What an input asks of dictation.
#[derive(Clone, Copy, PartialEq, Eq, Debug, Structural)]
pub enum Toggle {
    Begin,
    Stop,
    Nothing,
}

/// The hotkey. Streaming is a switch: a press starts, the next press stops (the
/// release is ignored: held keys would leak into the target window). Batch is
/// push-to-talk: a press starts recording, the release stops it and inserts.
pub open spec fn spec_hotkey_action(streaming: bool, dictating: bool, ev: HotkeyEvent) -> Toggle {
    if streaming {
        if ev == HotkeyEvent::Pressed {
            if dictating {
                Toggle::Stop
            } else {
                Toggle::Begin
            }
        } else {
            Toggle::Nothing
        }
    } else if ev == HotkeyEvent::Pressed {
        Toggle::Begin
    } else {
        Toggle::Stop
    }
}

pub fn hotkey_action(streaming: bool, dictating: bool, ev: HotkeyEvent) -> (r: Toggle)
    ensures
        r == spec_hotkey_action(streaming, dictating, ev),
{
    if streaming {
        if ev == HotkeyEvent::Pressed {
            if dictating {
                Toggle::Stop
            } else {
                Toggle::Begin
            }
        } else {
            Toggle::Nothing
        }
    } else if ev == HotkeyEvent::Pressed {
        Toggle::Begin
    } else {
        Toggle::Stop
    }
}

/// The dictation item of the tray menu switches dictation.
pub fn tray_dictate_action(dictating: bool) -> (r: Toggle)
    ensures
        r == (if dictating { Toggle::Stop } else { Toggle::Begin }),
{
    if dictating {
        Toggle::Stop
    } else {
        Toggle::Begin
    }
}

/// Why dictation cannot start.
#[derive(Clone, Copy, PartialEq, Eq, Debug, Structural)]
pub enum BeginError {
    /// whisper.cpp is not installed.
    NoEngine,
    /// No model is chosen (or the chosen one is not in the catalogue).
    NoModel,
    /// The chosen model is not downloaded.
    NotDownloaded,
}

impl BeginError {
    /// The message shown to the user.
    pub fn message(self) -> (r: &'static str)
        ensures
            r@ == (match self {
                BeginError::NoEngine => "whisper.cpp не установлен — вкладка «Модели»"@,
                BeginError::NoModel => "Выберите модель во вкладке «Модели»"@,
                BeginError::NotDownloaded => "Модель не скачана"@,
            }),
    {
        match self {
            BeginError::NoEngine => "whisper.cpp не установлен — вкладка «Модели»",
            BeginError::NoModel => "Выберите модель во вкладке «Модели»",
            BeginError::NotDownloaded => "Модель не скачана",
        }
    }
}

/// What a request to start dictation comes to.
#[derive(Clone, Copy, Debug)]
pub enum Begin {
    /// Capture or dictation is already under way: the request is ignored.
    Busy,
    /// Refused, with the reason.
    Refused(BeginError),
    /// Start with this model.
    Go(ModelInfo),
}

/// Whether dictation may start: not while capturing or dictating; the engine must
/// be installed, a model chosen, and that model downloaded (checked in this order).
pub fn begin_check(capturing: bool, dictating: bool, has_exe: bool, model: Option<ModelInfo>, downloaded: bool) -> (r: Begin)
    ensures
        r == (if capturing || dictating {
            Begin::Busy
        } else if !has_exe {
            Begin::Refused(BeginError::NoEngine)
        } else {
            match model {
                None => Begin::Refused(BeginError::NoModel),
                Some(m) => if !downloaded {
                    Begin::Refused(BeginError::NotDownloaded)
                } else {
                    Begin::Go(m)
                },
            }
        }),
{
    if capturing || dictating {
        return Begin::Busy;
    }
    if !has_exe {
        return Begin::Refused(BeginError::NoEngine);
    }
    match model {
        None => Begin::Refused(BeginError::NoModel),
        Some(m) => if !downloaded {
            Begin::Refused(BeginError::NotDownloaded)
        } else {
            Begin::Go(m)
        },
    }
}

/// Whether dictation is under way. Every way of stopping (a second press, the
/// release in batch mode, the tray, silence) goes through [`Session::stop`].
pub struct Session {
    dictating: bool,
}

impl Session {
    pub closed spec fn dictating_spec(&self) -> bool {
        self.dictating
    }

    pub fn new() -> (r: Self)
        ensures
            !r.dictating_spec(),
    {
        Session { dictating: false }
    }

    pub fn is_dictating(&self) -> (r: bool)
        ensures
            r == self.dictating_spec(),
    {
        self.dictating
    }

    /// Dictation started.
    pub fn started(&mut self)
        ensures
            final(self).dictating_spec(),
    {
        self.dictating = true;
    }

    /// Stop dictation. Returns whether there was one to stop; only then is
    /// capture stopped and the exit cue played, so each exit is handled once.
    pub fn stop(&mut self) -> (r: bool)
        ensures
            r == old(self).dictating_spec(),
            !final(self).dictating_spec(),
    {
        if !self.dictating {
            return false;
        }
        self.dictating = false;
        true
    }
}

/// The model to select at start: the one in the settings if it is in the
/// catalogue and downloaded, else the first downloaded one of the catalogue.
/// `downloaded[i]` tells whether the `i`-th model of the catalogue is on disk.
pub open spec fn spec_initial_model(cfg_model: Option<Seq<char>>, downloaded: Seq<bool>) -> Option<int> {
    let from_cfg = match cfg_model {
        Some(id) => first_index_with_id(id, 0),
        None => None,
    };
    match from_cfg {
        Some(k) if k < downloaded.len() && downloaded[k] => Some(k),
        _ => first_downloaded(downloaded, 0),
    }
}

pub open spec fn first_index_with_id(id: Seq<char>, i: int) -> Option<int>
    decreases spec_catalog().len() - i,
{
    if i < 0 || i >= spec_catalog().len() {
        None
    } else if spec_catalog()[i].id@ == id {
        Some(i)
    } else {
        first_index_with_id(id, i + 1)
    }
}

pub open spec fn first_downloaded(downloaded: Seq<bool>, i: int) -> Option<int>
    decreases spec_catalog().len() - i,
{
    if i < 0 || i >= spec_catalog().len() {
        None
    } else if i < downloaded.len() && downloaded[i] {
        Some(i)
    } else {
        first_downloaded(downloaded, i + 1)
    }
}

/// Position in the catalogue of the model to select at start.
pub fn initial_model(cfg_model: Option<&str>, downloaded: &[bool]) -> (r: Option<usize>)
    ensures
        match r {
            Some(k) => spec_initial_model(
                match cfg_model {
                    Some(s) => Some(s@),
                    None => None,
                },
                downloaded@,
            ) == Some(k as int),
            None => spec_initial_model(
                match cfg_model {
                    Some(s) => Some(s@),
                    None => None,
                },
                downloaded@,
            ) is None,
        },
{
    let all = catalog();
    let from_cfg: Option<usize> = match cfg_model {
        Some(id) => index_of_id(id),
        None => None,
    };
    if let Some(k) = from_cfg {
        if k < downloaded.len() && downloaded[k] {
            return Some(k);
        }
    }
    let ghost cv = match cfg_model {
        Some(s) => Some(s@),
        None => None,
    };
    assert(spec_initial_model(cv, downloaded@) == first_downloaded(downloaded@, 0));
    let mut k: usize = 0;
    while k < all.len()
        invariant
            k <= all.len(),
            all@ == spec_catalog(),
            spec_initial_model(cv, downloaded@) == first_downloaded(downloaded@, 0),
            cv == (match cfg_model {
                Some(s) => Some(s@),
                None => None,
            }),
            first_downloaded(downloaded@, 0) == first_downloaded(downloaded@, k as int),
        decreases all.len() - k,
    {
        if k < downloaded.len() && downloaded[k] {
            return Some(k);
        }
        k += 1;
    }
    None
}

/// Position in the catalogue of the model with the given id.
pub fn index_of_id(id: &str) -> (r: Option<usize>)
    ensures
        match r {
            Some(k) => first_index_with_id(id@, 0) == Some(k as int),
            None => first_index_with_id(id@, 0) is None,
        },
{
    let all = catalog();
    let mut i: usize = 0;
    while i < all.len()
        invariant
            i <= all.len(),
            all@ == spec_catalog(),
            first_index_with_id(id@, 0) == first_index_with_id(id@, i as int),
        decreases all.len() - i,
    {
        if str_eq(all[i].id, id) {
            return Some(i);
        }
        i += 1;
    }
    None
}

/// Most lines the log of the interface keeps.
pub const LOG_LINES: usize = 200;

/// The log after adding a line: the newest [`LOG_LINES`] lines.
pub open spec fn spec_push_log(log: Seq<Seq<char>>, line: Seq<char>) -> Seq<Seq<char>> {
    let all = log.push(line);
    if all.len() > LOG_LINES {
        all.skip(all.len() - LOG_LINES)
    } else {
        all
    }
}

pub open spec fn lines_view(v: Seq<String>) -> Seq<Seq<char>> {
    v.map_values(|s: String| s@)
}

/// Add a line to the log, dropping the oldest beyond [`LOG_LINES`].
pub fn push_log(log: &mut Vec<String>, line: String)
    ensures
        lines_view(final(log)@) == spec_push_log(lines_view(old(log)@), line@),
{
    let ghost before = lines_view(log@);
    log.push(line);
    assert(lines_view(log@) =~= before.push(line@));
    if log.len() > LOG_LINES {
        let overflow = log.len() - LOG_LINES;
        let mut kept: Vec<String> = Vec::new();
        let ghost all = lines_view(log@);
        let mut i = overflow;
        while i < log.len()
            invariant
                overflow <= i <= log.len(),
                all == lines_view(log@),
                lines_view(kept@) == all.subrange(overflow as int, i as int),
            decreases log.len() - i,
        {
            let ghost b = kept@;
            let s = crate::text::string_of(&crate::text::chars_of(log[i].as_str()));
            kept.push(s);
            assert(lines_view(kept@) =~= lines_view(b).push(log@[i as int]@));
            i += 1;
            assert(lines_view(kept@) =~= all.subrange(overflow as int, i as int));
        }
        assert(all.subrange(overflow as int, all.len() as int) =~= all.skip(overflow as int));
        *log = kept;
    }
}

/// The log never holds more than [`LOG_LINES`] lines once it holds at most that.
pub proof fn law_log_is_bounded(log: Seq<Seq<char>>, line: Seq<char>)
    requires
        log.len() <= LOG_LINES,
    ensures
        spec_push_log(log, line).len() <= LOG_LINES,
        spec_push_log(log, line).last() == line,
{
}

/// Whether the download under way is the engine's (CPU or GPU build).
pub fn is_engine_download(active: Option<&str>) -> (r: bool)
    ensures
        r == (match active {
            Some(a) => a@ == "whisper.exe"@ || a@ == "whisper-gpu"@,
            None => false,
        }),
{
    match active {
        Some(a) => str_eq(a, "whisper.exe") || str_eq(a, "whisper-gpu"),
        None => false,
    }
}

} // verus!
