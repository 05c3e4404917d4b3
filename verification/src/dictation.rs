//! The status of dictation shown in the interface, and how a recognition run
//! moves it: recorded WAV → 16 kHz → recognition → insertion at the caret.
//!
//! Resampling, recognition and insertion are done by the application on a thread
//! of its own; it reports each stage here.
use vstd::prelude::*;
use crate::hotkey::append_str;
use crate::text::string_of;

verus! {

/// The status shown in the interface.
pub struct DictationStatus {
    pub busy: bool,
    pub state: String,
    pub last_text: String,
    pub error: Option<String>,
    /// Streaming stopped by itself after a long silence.
    pub auto_stop: bool,
}

impl Default for DictationStatus {
    /// Idle, with nothing to say.
    fn default() -> (r: Self)
        ensures
            !r.busy,
            r.state@ == Seq::<char>::empty(),
            r.last_text@ == Seq::<char>::empty(),
            r.error is None,
            !r.auto_stop,
    {
        DictationStatus {
            busy: false,
            state: String::new(),
            last_text: String::new(),
            error: None,
            auto_stop: false,
        }
    }
}

/// What a recognition run came to.
pub enum Outcome {
    /// Text was recognized (and inserted when insertion is on).
    Text(String),
    /// Nothing was recognized.
    Empty,
    /// A stage failed, with its message.
    Failed(String),
}

impl DictationStatus {
    /// The run started: busy, no error, preparing the audio.
    pub fn begin(&mut self)
        ensures
            final(self).busy,
            final(self).error is None,
            final(self).state@ == "Готовлю аудио…"@,
            final(self).last_text == old(self).last_text,
            final(self).auto_stop == old(self).auto_stop,
    {
        self.busy = true;
        self.error = None;
        self.state = "Готовлю аудио…".to_owned();
    }

    /// Streaming dictation started: busy, no error, listening, with the text and
    /// the auto-stop flag of an earlier session cleared.
    pub fn stream_started(&mut self)
        ensures
            final(self).busy,
            final(self).error is None,
            final(self).state@ == "Слушаю… (говорите)"@,
            final(self).last_text@ == Seq::<char>::empty(),
            !final(self).auto_stop,
    {
        self.busy = true;
        self.error = None;
        self.state = "Слушаю… (говорите)".to_owned();
        self.last_text = String::new();
        self.auto_stop = false;
    }

    /// Recording for one recognition run started: busy, no error, recording.
    pub fn recording_started(&mut self)
        ensures
            final(self).busy,
            final(self).error is None,
            final(self).state@ == "Запись… (говорите)"@,
            final(self).last_text == old(self).last_text,
            final(self).auto_stop == old(self).auto_stop,
    {
        self.busy = true;
        self.error = None;
        self.state = "Запись… (говорите)".to_owned();
    }

    /// Streaming dictation ended, by itself after a long silence (`idle_stop`)
    /// or on request: not busy, the auto-stop flag set accordingly.
    pub fn stream_finished(&mut self, idle_stop: bool)
        ensures
            !final(self).busy,
            final(self).auto_stop == idle_stop,
            final(self).state@ == (if idle_stop {
                "Тишина 10с — захват остановлен"@
            } else {
                "Готово ✓"@
            }),
            final(self).last_text == old(self).last_text,
            final(self).error == old(self).error,
    {
        self.busy = false;
        self.state = if idle_stop {
            "Тишина 10с — захват остановлен".to_owned()
        } else {
            "Готово ✓".to_owned()
        };
        self.auto_stop = idle_stop;
    }

    /// The audio is ready; recognition runs.
    pub fn recognizing(&mut self)
        ensures
            final(self).busy == old(self).busy,
            final(self).error == old(self).error,
            final(self).state@ == "Распознаю…"@,
            final(self).last_text == old(self).last_text,
            final(self).auto_stop == old(self).auto_stop,
    {
        self.state = "Распознаю…".to_owned();
    }

    /// A stage failed: not busy, the error kept, the state reports it.
    pub fn fail(&mut self, msg: String)
        ensures
            !final(self).busy,
            final(self).state@ == "Ошибка: "@ + msg@,
            final(self).error == Some(msg),
            final(self).last_text == old(self).last_text,
            final(self).auto_stop == old(self).auto_stop,
    {
        let mut v: Vec<char> = Vec::new();
        append_str(&mut v, "Ошибка: ");
        append_str(&mut v, msg.as_str());
        self.state = string_of(&v);
        self.busy = false;
        self.error = Some(msg);
    }

    /// The run ended with `outcome`; `insert` tells whether the text was inserted.
    /// Recognized text becomes the last text; an empty result says nothing was
    /// recognized; a failure is reported as by [`DictationStatus::fail`].
    pub fn finish(&mut self, outcome: Outcome, insert: bool)
        ensures
            !final(self).busy,
            final(self).auto_stop == old(self).auto_stop,
            match outcome {
                Outcome::Text(t) => {
                    &&& final(self).last_text@ == t@
                    &&& final(self).state@ == (if insert { "Вставлено ✓"@ } else { "Готово ✓"@ })
                    &&& final(self).error == old(self).error
                },
                Outcome::Empty => {
                    &&& final(self).state@ == "Пусто (речь не распознана)"@
                    &&& final(self).last_text == old(self).last_text
                    &&& final(self).error == old(self).error
                },
                Outcome::Failed(m) => {
                    &&& final(self).state@ == "Ошибка: "@ + m@
                    &&& final(self).error == Some(m)
                    &&& final(self).last_text == old(self).last_text
                },
            },
    {
        match outcome {
            Outcome::Text(t) => {
                self.busy = false;
                self.last_text = t;
                self.state = if insert { "Вставлено ✓".to_owned() } else { "Готово ✓".to_owned() };
            },
            Outcome::Empty => {
                self.busy = false;
                self.state = "Пусто (речь не распознана)".to_owned();
            },
            Outcome::Failed(m) => {
                self.fail(m);
            },
        }
    }
}

/// A recognition result: empty text means nothing was recognized.
pub fn outcome_of(result: Result<String, String>) -> (r: Outcome)
    ensures
        match result {
            Ok(t) => if t@.len() == 0 {
                r is Empty
            } else {
                r matches Outcome::Text(u) && u@ == t@
            },
            Err(e) => r matches Outcome::Failed(m) && m@ == e@,
        },
{
    match result {
        Ok(t) => {
            if t.as_str().is_empty() {
                Outcome::Empty
            } else {
                Outcome::Text(t)
            }
        },
        Err(e) => Outcome::Failed(e),
    }
}

} // verus!
