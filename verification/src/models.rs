//! The catalogue of free Whisper models (ggml), the installed engine, and the
//! state of downloads.
//!
//! All models are open (OpenAI Whisper, MIT licence), downloaded from Hugging Face
//! without a key and run fully offline. The accuracy figures are rough, for
//! comparing the models with one another.
use vstd::prelude::*;
use crate::text::{chars_of, ends_with, lowercase, starts_with, starts_with_seq, ends_with_seq, str_eq, string_of, unicode_lowercase};
use crate::hotkey::append_str;

verus! {

/// Base URL of the ggml models of whisper.cpp on Hugging Face.
pub const HF_BASE: &'static str = "https://huggingface.co/ggerganov/whisper.cpp/resolve/main/";

/// A model offered on the models tab.
#[derive(Clone, Copy, Debug)]
pub struct ModelInfo {
    /// Short identifier.
    pub id: &'static str,
    /// File name (also the last part of the URL).
    pub file: &'static str,
    /// Size, MB (rough).
    pub size_mb: u32,
    /// Speed label on a CPU.
    pub speed: &'static str,
    /// Rough accuracy for Russian, %.
    pub accuracy: u8,
    /// Description and advice.
    pub desc: &'static str,
}

/// The catalogue, from light to heavy.
pub open spec fn spec_catalog() -> Seq<ModelInfo> {
    seq![
        ModelInfo {
            id: "tiny",
            file: "ggml-tiny.bin",
            size_mb: 75,
            speed: "очень быстро",
            accuracy: 70,
            desc: "Для слабых ПК и проб. Годится для коротких простых фраз.",
        },
        ModelInfo {
            id: "base",
            file: "ggml-base.bin",
            size_mb: 148,
            speed: "быстро",
            accuracy: 78,
            desc: "Хороший баланс для старта: шустро и приемлемо по качеству.",
        },
        ModelInfo {
            id: "small",
            file: "ggml-small.bin",
            size_mb: 488,
            speed: "средне",
            accuracy: 87,
            desc: "Заметно точнее base. Рекомендуется для повседневной диктовки.",
        },
        ModelInfo {
            id: "medium",
            file: "ggml-medium.bin",
            size_mb: 1536,
            speed: "медленно",
            accuracy: 93,
            desc: "Отличное качество, но тяжёлая для CPU.",
        },
        ModelInfo {
            id: "large-v3-turbo",
            file: "ggml-large-v3-turbo-q5_0.bin",
            size_mb: 574,
            speed: "быстро (turbo)",
            accuracy: 95,
            desc: "Лучшее качество/скорость (квантизованная). Рекомендуется, если хватает места.",
        },
    ]
}

/// The offered models, from light to heavy.
pub fn catalog() -> (r: Vec<ModelInfo>)
    ensures
        r@ == spec_catalog(),
{
    let r = vec![
        ModelInfo {
            id: "tiny",
            file: "ggml-tiny.bin",
            size_mb: 75,
            speed: "очень быстро",
            accuracy: 70,
            desc: "Для слабых ПК и проб. Годится для коротких простых фраз.",
        },
        ModelInfo {
            id: "base",
            file: "ggml-base.bin",
            size_mb: 148,
            speed: "быстро",
            accuracy: 78,
            desc: "Хороший баланс для старта: шустро и приемлемо по качеству.",
        },
        ModelInfo {
            id: "small",
            file: "ggml-small.bin",
            size_mb: 488,
            speed: "средне",
            accuracy: 87,
            desc: "Заметно точнее base. Рекомендуется для повседневной диктовки.",
        },
        ModelInfo {
            id: "medium",
            file: "ggml-medium.bin",
            size_mb: 1536,
            speed: "медленно",
            accuracy: 93,
            desc: "Отличное качество, но тяжёлая для CPU.",
        },
        ModelInfo {
            id: "large-v3-turbo",
            file: "ggml-large-v3-turbo-q5_0.bin",
            size_mb: 574,
            speed: "быстро (turbo)",
            accuracy: 95,
            desc: "Лучшее качество/скорость (квантизованная). Рекомендуется, если хватает места.",
        },
    ];
    assert(r@ =~= spec_catalog());
    r
}

impl ModelInfo {
    /// Where the model file is downloaded from.
    pub fn url(&self) -> (r: String)
        ensures
            r@ == HF_BASE@ + self.file@,
    {
        let mut v: Vec<char> = Vec::new();
        append_str(&mut v, HF_BASE);
        append_str(&mut v, self.file);
        string_of(&v)
    }
}

/// The first model of the catalogue from position `i` on whose id is `id`.
pub open spec fn first_with_id(id: Seq<char>, i: int) -> Option<ModelInfo>
    decreases spec_catalog().len() - i,
{
    if i < 0 || i >= spec_catalog().len() {
        None
    } else if spec_catalog()[i].id@ == id {
        Some(spec_catalog()[i])
    } else {
        first_with_id(id, i + 1)
    }
}

/// The model of the catalogue with the given id.
pub fn by_id(id: &str) -> (r: Option<ModelInfo>)
    ensures
        r == first_with_id(id@, 0),
{
    let all = catalog();
    let mut i: usize = 0;
    while i < all.len()
        invariant
            i <= all.len(),
            all@ == spec_catalog(),
            first_with_id(id@, 0) == first_with_id(id@, i as int),
        decreases all.len() - i,
    {
        if str_eq(all[i].id, id) {
            return Some(all[i]);
        }
        i += 1;
    }
    None
}

/// The kind of the installed engine.
#[derive(Clone, Copy, PartialEq, Eq, Debug, Structural)]
pub enum Engine {
    Cpu,
    Gpu,
}

/// The engine in `bin/`: none without a whisper executable; the GPU one only when
/// the CUDA backend itself (`ggml-cuda*.dll`) is there, since the CUDA runtime
/// without it is useless (whisper would still compute on the CPU).
pub fn active_engine(has_exe: bool, has_cuda: bool) -> (r: Option<Engine>)
    ensures
        r == (if !has_exe {
            None
        } else if has_cuda {
            Some(Engine::Gpu)
        } else {
            Some(Engine::Cpu)
        }),
{
    if !has_exe {
        return None;
    }
    Some(if has_cuda { Engine::Gpu } else { Engine::Cpu })
}

/// Name of the kept archive of an engine in `bin/` (separate for the CPU and GPU
/// builds, so that switching needs no download).
pub fn engine_zip_name(gpu: bool) -> (r: &'static str)
    ensures
        r@ == (if gpu { "_whisper_gpu.zip"@ } else { "_whisper_cpu.zip"@ }),
{
    if gpu {
        "_whisper_gpu.zip"
    } else {
        "_whisper_cpu.zip"
    }
}

/// The names a whisper.cpp executable may have, in the order they are looked for
/// (the new name first, then the old ones).
pub open spec fn spec_exe_names() -> Seq<&'static str> {
    seq!["whisper-cli.exe", "main.exe", "whisper.exe"]
}

/// The whisper executable to use: the first name of [`spec_exe_names`] present in
/// `bin/` (`present[i]` tells whether the `i`-th is a file there).
pub fn whisper_exe(present: &[bool]) -> (r: Option<&'static str>)
    ensures
        r == (if present@.len() > 0 && present@[0] {
            Some(spec_exe_names()[0])
        } else if present@.len() > 1 && present@[1] {
            Some(spec_exe_names()[1])
        } else if present@.len() > 2 && present@[2] {
            Some(spec_exe_names()[2])
        } else {
            None
        }),
{
    if present.len() > 0 && present[0] {
        Some("whisper-cli.exe")
    } else if present.len() > 1 && present[1] {
        Some("main.exe")
    } else if present.len() > 2 && present[2] {
        Some("whisper.exe")
    } else {
        None
    }
}

/// The names [`whisper_exe`] looks for, in order.
pub fn exe_names() -> (r: Vec<&'static str>)
    ensures
        r@ == spec_exe_names(),
{
    let r = vec!["whisper-cli.exe", "main.exe", "whisper.exe"];
    assert(r@ =~= spec_exe_names());
    r
}

/// A file of `bin/` is the CUDA backend of whisper: `ggml-cuda*.dll`, in any case.
pub open spec fn is_cuda_backend(name: Seq<char>) -> bool {
    starts_with(unicode_lowercase(name), "ggml-cuda"@) && ends_with(unicode_lowercase(name), ".dll"@)
}

/// Whether the files of `bin/` hold the CUDA backend.
pub fn has_cuda_backend(names: &[String]) -> (r: bool)
    ensures
        r == exists|i: int| 0 <= i < names@.len() && is_cuda_backend(#[trigger] names@[i]@),
{
    let prefix = chars_of("ggml-cuda");
    let suffix = chars_of(".dll");
    let mut i: usize = 0;
    while i < names.len()
        invariant
            i <= names.len(),
            prefix@ == "ggml-cuda"@,
            suffix@ == ".dll"@,
            forall|j: int| 0 <= j < i ==> !is_cuda_backend(#[trigger] names@[j]@),
        decreases names.len() - i,
    {
        let low = chars_of(lowercase(names[i].as_str()).as_str());
        if starts_with_seq(&low, &prefix) && ends_with_seq(&low, &suffix) {
            return true;
        }
        i += 1;
    }
    false
}

/// The state of the current download, as shown on the models tab.
pub struct DownloadState {
    /// What is being downloaded (a model id or the engine); `None` when idle.
    pub active: Option<String>,
    pub downloaded: u64,
    pub total: u64,
    pub message: String,
    pub error: Option<String>,
}

impl Default for DownloadState {
    /// Idle, nothing downloaded, no message.
    fn default() -> (r: Self)
        ensures
            r.active is None,
            r.downloaded == 0,
            r.total == 0,
            r.message@ == Seq::<char>::empty(),
            r.error is None,
    {
        DownloadState { active: None, downloaded: 0, total: 0, message: String::new(), error: None }
    }
}

impl DownloadState {
    /// Whether a download is under way.
    pub fn is_busy(&self) -> (r: bool)
        ensures
            r == self.active is Some,
    {
        self.active.is_some()
    }

    /// A download ended: nothing is active any more; on success the message says
    /// it is done, on failure the error is kept and the message reports it.
    pub fn finish(&mut self, result: Result<(), String>)
        ensures
            final(self).active is None,
            final(self).downloaded == old(self).downloaded,
            final(self).total == old(self).total,
            match result {
                Ok(()) => final(self).message@ == "Готово."@ && final(self).error == old(
                    self,
                ).error,
                Err(e) => final(self).message@ == "Ошибка: "@ + e@ && final(self).error == Some(e),
            },
    {
        self.active = None;
        match result {
            Ok(()) => {
                self.message = "Готово.".to_owned();
            },
            Err(e) => {
                let mut v: Vec<char> = Vec::new();
                append_str(&mut v, "Ошибка: ");
                append_str(&mut v, e.as_str());
                self.message = string_of(&v);
                self.error = Some(e);
            },
        }
    }
}

} // verus!
