//! The resident whisper-server: the model is loaded once and stays in memory;
//! recognition goes over HTTP, with no reloading of the model per phrase.
//!
//! The process, the port and the HTTP exchange belong to the application. This
//! module keeps which server runs (model, language, port) and decides whether a
//! request can reuse it, must restart it, or must fall back to whisper-cli; it
//! also builds the command lines and frames the multipart request.
use vstd::prelude::*;
use crate::text::{chars_of, string_of, str_eq};
use crate::hotkey::append_str;
use vstd::string::StringSliceAdditionalSpecFns;

verus! {

/// Boundary of the multipart request.
pub const BOUNDARY: &'static str = "----tvoiceBoundary8f3ac21";

pub open spec fn strings_view(v: Seq<String>) -> Seq<Seq<char>> {
    v.map_values(|s: String| s@)
}

/// The decoding arguments of the production server (greedy: beam 1, no
/// temperature fallback), kept in one place so that the bench can compare them.
pub fn decoding_args() -> (r: Vec<String>)
    ensures
        strings_view(r@) == seq!["-bs"@, "1"@, "-nf"@],
{
    let mut r: Vec<String> = Vec::new();
    r.push("-bs".to_owned());
    r.push("1".to_owned());
    r.push("-nf".to_owned());
    assert(strings_view(r@) =~= seq!["-bs"@, "1"@, "-nf"@]);
    r
}

fn push_all(out: &mut Vec<String>, extra: &[String])
    ensures
        strings_view(final(out)@) == strings_view(old(out)@) + strings_view(extra@),
{
    let ghost base = strings_view(out@);
    let mut i: usize = 0;
    while i < extra.len()
        invariant
            i <= extra.len(),
            strings_view(out@) == base + strings_view(extra@).take(i as int),
        decreases extra.len() - i,
    {
        let ghost before = out@;
        let item = string_of(&chars_of(extra[i].as_str()));
        out.push(item);
        assert(strings_view(out@) =~= strings_view(before).push(extra@[i as int]@));
        assert(strings_view(extra@).take(i + 1) =~= strings_view(extra@).take(i as int).push(
            extra@[i as int]@,
        ));
        i += 1;
        assert(strings_view(out@) =~= base + strings_view(extra@).take(i as int));
    }
    assert(strings_view(extra@).take(extra.len() as int) =~= strings_view(extra@));
}

/// The command line of a server: model, language, threads, the decoding
/// arguments, and the local address and port it listens on.
pub fn server_args(model: &str, lang: &str, threads: &str, extra: &[String], port: &str) -> (r: Vec<String>)
    ensures
        strings_view(r@) == seq!["-m"@, model@, "-l"@, lang@, "-t"@, threads@] + strings_view(extra@)
            + seq!["--host"@, "127.0.0.1"@, "--port"@, port@],
{
    let mut r: Vec<String> = Vec::new();
    r.push("-m".to_owned());
    r.push(model.to_owned());
    r.push("-l".to_owned());
    r.push(lang.to_owned());
    r.push("-t".to_owned());
    r.push(threads.to_owned());
    assert(strings_view(r@) =~= seq!["-m"@, model@, "-l"@, lang@, "-t"@, threads@]);
    push_all(&mut r, extra);
    let ghost mid = strings_view(r@);
    r.push("--host".to_owned());
    r.push("127.0.0.1".to_owned());
    r.push("--port".to_owned());
    r.push(port.to_owned());
    assert(strings_view(r@) =~= mid + seq!["--host"@, "127.0.0.1"@, "--port"@, port@]);
    r
}

/// The command line of a one-off whisper-cli run: greedy decoding without
/// timestamps, text written next to `out_base`.
pub fn cli_args(model: &str, wav: &str, lang: &str, threads: &str, out_base: &str) -> (r: Vec<String>)
    ensures
        strings_view(r@) == seq![
            "-m"@, model@, "-f"@, wav@, "-l"@, lang@, "-t"@, threads@, "-bs"@, "1"@, "-bo"@, "1"@,
            "-nf"@, "-nt"@, "-otxt"@, "-of"@, out_base@,
        ],
{
    let mut r: Vec<String> = Vec::new();
    r.push("-m".to_owned());
    r.push(model.to_owned());
    r.push("-f".to_owned());
    r.push(wav.to_owned());
    r.push("-l".to_owned());
    r.push(lang.to_owned());
    r.push("-t".to_owned());
    r.push(threads.to_owned());
    r.push("-bs".to_owned());
    r.push("1".to_owned());
    r.push("-bo".to_owned());
    r.push("1".to_owned());
    r.push("-nf".to_owned());
    r.push("-nt".to_owned());
    r.push("-otxt".to_owned());
    r.push("-of".to_owned());
    r.push(out_base.to_owned());
    assert(strings_view(r@) =~= seq![
        "-m"@, model@, "-f"@, wav@, "-l"@, lang@, "-t"@, threads@, "-bs"@, "1"@, "-bo"@, "1"@,
        "-nf"@, "-nt"@, "-otxt"@, "-of"@, out_base@,
    ]);
    r
}

fn push_bytes(v: &mut Vec<u8>, b: &[u8])
    ensures
        final(v)@ == old(v)@ + b@,
{
    let ghost base = v@;
    let mut i: usize = 0;
    while i < b.len()
        invariant
            i <= b.len(),
            v@ == base + b@.take(i as int),
        decreases b.len() - i,
    {
        v.push(b[i]);
        i += 1;
        assert(v@ =~= base + b@.take(i as int));
    }
    assert(b@.take(b.len() as int) =~= b@);
}

/// The bytes of the request body: the WAV as the `file` field, then the answer
/// format (`text`) and the temperature (`0.0`), in `multipart/form-data` with
/// [`BOUNDARY`].
pub open spec fn spec_body(wav: Seq<u8>) -> Seq<u8> {
    "------tvoiceBoundary8f3ac21\r\nContent-Disposition: form-data; name=\"file\"; filename=\"audio.wav\"\r\nContent-Type: audio/wav\r\n\r\n".spec_bytes()
        + wav + "\r\n".spec_bytes()
        + "------tvoiceBoundary8f3ac21\r\nContent-Disposition: form-data; name=\"response_format\"\r\n\r\ntext\r\n".spec_bytes()
        + "------tvoiceBoundary8f3ac21\r\nContent-Disposition: form-data; name=\"temperature\"\r\n\r\n0.0\r\n".spec_bytes()
        + "------tvoiceBoundary8f3ac21--\r\n".spec_bytes()
}

/// Frames the recognition request for the WAV bytes `wav`.
pub fn multipart_body(wav: &[u8]) -> (r: Vec<u8>)
    ensures
        r@ == spec_body(wav@),
{
    let mut v: Vec<u8> = Vec::new();
    push_bytes(&mut v, "------tvoiceBoundary8f3ac21\r\nContent-Disposition: form-data; name=\"file\"; filename=\"audio.wav\"\r\nContent-Type: audio/wav\r\n\r\n".as_bytes());
    push_bytes(&mut v, wav);
    push_bytes(&mut v, "\r\n".as_bytes());
    push_bytes(&mut v, "------tvoiceBoundary8f3ac21\r\nContent-Disposition: form-data; name=\"response_format\"\r\n\r\ntext\r\n".as_bytes());
    push_bytes(&mut v, "------tvoiceBoundary8f3ac21\r\nContent-Disposition: form-data; name=\"temperature\"\r\n\r\n0.0\r\n".as_bytes());
    push_bytes(&mut v, "------tvoiceBoundary8f3ac21--\r\n".as_bytes());
    v
}

/// The `Content-Type` of the request.
pub fn content_type() -> (r: String)
    ensures
        r@ == "multipart/form-data; boundary="@ + BOUNDARY@,
{
    let mut v: Vec<char> = Vec::new();
    append_str(&mut v, "multipart/form-data; boundary=");
    append_str(&mut v, BOUNDARY);
    string_of(&v)
}

/// A running server: the model and language it was started with, and its port.
pub struct Running {
    pub model: String,
    pub lang: String,
    pub port: u16,
}

/// The running server, if any.
pub struct ServerSlot {
    running: Option<Running>,
}

/// What serves a recognition request.
#[derive(Clone, Copy, PartialEq, Eq, Debug, Structural)]
pub enum Route {
    /// No server executable: a one-off whisper-cli run.
    Cli,
    /// Start a server for the model and language (any other one is stopped).
    Start,
    /// The running server fits: send the request to it.
    Reuse { port: u16 },
}

/// Model, language and port of the running server, as data.
pub open spec fn running_view(r: Option<Running>) -> Option<(Seq<char>, Seq<char>, u16)> {
    match r {
        Some(s) => Some((s.model@, s.lang@, s.port)),
        None => None,
    }
}

/// The route of a request for `model` and `lang`.
pub open spec fn spec_route(running: Option<(Seq<char>, Seq<char>, u16)>, has_server: bool, model: Seq<char>, lang: Seq<char>) -> Route {
    if !has_server {
        Route::Cli
    } else {
        match running {
            Some((m, l, port)) => if m == model && l == lang {
                Route::Reuse { port }
            } else {
                Route::Start
            },
            None => Route::Start,
        }
    }
}

impl ServerSlot {
    pub closed spec fn view_running(&self) -> Option<(Seq<char>, Seq<char>, u16)> {
        running_view(self.running)
    }

    /// No server.
    pub fn new() -> (r: Self)
        ensures
            r.view_running() is None,
    {
        ServerSlot { running: None }
    }

    /// A server was started for `model` and `lang` on `port`.
    pub fn started(&mut self, model: &str, lang: &str, port: u16)
        ensures
            final(self).view_running() == Some((model@, lang@, port)),
    {
        self.running = Some(Running { model: model.to_owned(), lang: lang.to_owned(), port });
    }

    /// The port of the running server.
    pub fn port(&self) -> (r: Option<u16>)
        ensures
            r == (match self.view_running() {
                Some((_, _, p)) => Some(p),
                None => None,
            }),
    {
        match &self.running {
            Some(s) => Some(s.port),
            None => None,
        }
    }
}

/// Route a recognition request for `model` and `lang`. A server for another
/// model or language is forgotten (the application stops its process) before a
/// new one starts.
pub fn transcribe(slot: &mut ServerSlot, has_server: bool, model: &str, lang: &str) -> (r: Route)
    ensures
        r == spec_route(old(slot).view_running(), has_server, model@, lang@),
        r == Route::Start ==> final(slot).view_running() is None,
        r != Route::Start ==> final(slot).view_running() == old(slot).view_running(),
{
    if !has_server {
        return Route::Cli;
    }
    let reuse = match &slot.running {
        Some(s) => {
            if str_eq(s.model.as_str(), model) && str_eq(s.lang.as_str(), lang) {
                Some(s.port)
            } else {
                None
            }
        },
        None => None,
    };
    match reuse {
        Some(port) => Route::Reuse { port },
        None => {
            slot.running = None;
            Route::Start
        },
    }
}

/// Whether warming up for `model` and `lang` must start a server (there is a
/// server executable, and the running server, if any, is for something else).
pub fn prewarm(slot: &ServerSlot, has_server: bool, model: &str, lang: &str) -> (r: bool)
    ensures
        r == (spec_route(slot.view_running(), has_server, model@, lang@) == Route::Start),
{
    if !has_server {
        return false;
    }
    match &slot.running {
        Some(s) => !(str_eq(s.model.as_str(), model) && str_eq(s.lang.as_str(), lang)),
        None => true,
    }
}

/// Forget the server (the application stops its process): on exit, and before
/// the engine's files are replaced.
pub fn shutdown(slot: &mut ServerSlot)
    ensures
        final(slot).view_running() is None,
{
    slot.running = None;
}

/// A server started for a model and language serves the next request for them.
pub proof fn law_started_server_is_reused(model: Seq<char>, lang: Seq<char>, port: u16)
    ensures
        spec_route(Some((model, lang, port)), true, model, lang) == (Route::Reuse { port }),
{
}

/// Law: a request goes to the running server only when that server runs the
/// same model in the same language, and on its port; a server for another model
/// or another language is replaced by a new one; without a server executable the
/// command-line tool is used.
pub proof fn law_reuse_only_same_model_and_language(
    running: Option<(Seq<char>, Seq<char>, u16)>,
    has_server: bool,
    model: Seq<char>,
    lang: Seq<char>,
)
    ensures
        !has_server ==> spec_route(running, has_server, model, lang) == Route::Cli,
        spec_route(running, has_server, model, lang) matches Route::Reuse { port } ==> running
            == Some((model, lang, port)),
        has_server ==> match running {
            Some((m, l, _)) => !(m == model && l == lang) ==> spec_route(running, has_server, model, lang)
                == Route::Start,
            None => true,
        },
        has_server && running is None ==> spec_route(running, has_server, model, lang) == Route::Start,
{
}

} // verus!
