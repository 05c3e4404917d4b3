//! The decisions of downloading: resuming a partial file, retrying after a broken
//! connection, picking the engine build among the assets of a whisper.cpp release,
//! and which files of the engine archive are installed.
//!
//! The network, the disk and the JSON of the release belong to the application;
//! it hands over header values, sizes and asset names and gets decisions back.
use vstd::prelude::*;
use crate::text::{
    ascii_lower_char, chars_of, contains, contains_seq, ends_with, ends_with_seq, lowercase,
    trim, trim_chars, unicode_lowercase,
};

verus! {

/// Retries without any progress after which a download gives up.
pub const MAX_STALLS: u32 = 20;

pub open spec fn is_digit(c: char) -> bool {
    '0' <= c && c <= '9'
}

pub open spec fn all_digits(d: Seq<char>) -> bool {
    forall|i: int| 0 <= i < d.len() ==> is_digit(#[trigger] d[i])
}

/// The number written by decimal digits.
pub open spec fn digits_value(d: Seq<char>) -> nat
    decreases d.len(),
{
    if d.len() == 0 {
        0
    } else {
        digits_value(d.drop_last()) * 10 + ((d.last() as u32) - 48) as nat
    }
}

/// `str::parse::<u64>`: an optional `+`, then one or more decimal digits, with a
/// value that fits in `u64`.
pub open spec fn spec_parse_u64(s: Seq<char>) -> Option<u64> {
    let d = if s.len() > 0 && s[0] == '+' {
        s.drop_first()
    } else {
        s
    };
    if d.len() > 0 && all_digits(d) && digits_value(d) <= u64::MAX {
        Some(digits_value(d) as u64)
    } else {
        None
    }
}

proof fn lemma_value_grows(d: Seq<char>, i: int, j: int)
    requires
        0 <= i <= j <= d.len(),
        all_digits(d),
    ensures
        digits_value(d.take(i)) <= digits_value(d.take(j)),
    decreases j - i,
{
    if i < j {
        lemma_value_grows(d, i, j - 1);
        assert(d.take(j).drop_last() =~= d.take(j - 1));
        assert(is_digit(d[j - 1]));
    }
}

/// Parses a decimal `u64` as `str::parse` does.
pub fn parse_u64(s: &[char]) -> (r: Option<u64>)
    ensures
        r == spec_parse_u64(s@),
{
    let start: usize = if s.len() > 0 && s[0] == '+' { 1 } else { 0 };
    let ghost d = if s@.len() > 0 && s@[0] == '+' {
        s@.drop_first()
    } else {
        s@
    };
    assert(d =~= s@.skip(start as int));
    if start == s.len() {
        return None;
    }
    let mut acc: u64 = 0;
    let mut i: usize = start;
    assert(d.take(0) =~= Seq::<char>::empty());
    while i < s.len()
        invariant
            start <= i <= s.len(),
            d == s@.skip(start as int),
            d == (if s@.len() > 0 && s@[0] == '+' {
                s@.drop_first()
            } else {
                s@
            }),
            acc == digits_value(d.take(i - start)),
            all_digits(d.take(i - start)),
        decreases s.len() - i,
    {
        let c = s[i];
        let k = i - start;
        if !('0' <= c && c <= '9') {
            assert(!is_digit(d[k as int]));
            return None;
        }
        assert(d.take(k + 1).drop_last() =~= d.take(k as int));
        assert(d.take(k + 1).last() == c);
        let dv: u64 = ((c as u32) - 48) as u64;
        proof {
            if all_digits(d) {
                lemma_value_grows(d, k + 1, d.len() as int);
                assert(d.take(d.len() as int) =~= d);
            }
        }
        let m = acc.checked_mul(10);
        if m.is_none() {
            return None;
        }
        let m = m.unwrap();
        let a = m.checked_add(dv);
        if a.is_none() {
            return None;
        }
        acc = a.unwrap();
        i += 1;
        assert forall|j: int| 0 <= j < d.take(i - start).len() implies is_digit(
            #[trigger] d.take(i - start)[j],
        ) by {
            if j < k {
                assert(d.take(k as int)[j] == d.take(i - start)[j]);
            }
        }
    }
    assert(d.take(d.len() as int) =~= d);
    Some(acc)
}

/// What follows the last `c` in `s` (all of `s` where there is none): the first
/// piece of `s.rsplit(c)`.
pub open spec fn after_last(s: Seq<char>, c: char) -> Seq<char>
    decreases s.len(),
{
    if s.len() == 0 {
        s
    } else if s.last() == c {
        seq![]
    } else {
        after_last(s.drop_last(), c).push(s.last())
    }
}

/// The total size in a `Content-Range` header (`bytes 100-999/1000`): what
/// follows the last `/`, trimmed, as a number.
pub open spec fn spec_content_range_total(header: Option<Seq<char>>) -> Option<u64> {
    match header {
        Some(h) => spec_parse_u64(trim(after_last(h, '/'))),
        None => None,
    }
}

fn after_last_slash(s: &[char]) -> (r: Vec<char>)
    ensures
        r@ == after_last(s@, '/'),
{
    let mut j: usize = s.len();
    assert(s@.take(j as int) =~= s@);
    assert(s@ + s@.skip(j as int) =~= s@);
    while j > 0 && s[j - 1] != '/'
        invariant
            j <= s.len(),
            after_last(s@, '/') == after_last(s@.take(j as int), '/') + s@.skip(j as int),
        decreases j,
    {
        assert(s@.take(j as int).drop_last() =~= s@.take(j - 1));
        assert(s@.skip(j - 1) =~= seq![s@[j - 1]] + s@.skip(j as int));
        assert(after_last(s@.take(j - 1), '/').push(s@[j - 1]) + s@.skip(j as int)
            =~= after_last(s@.take(j - 1), '/') + s@.skip(j - 1));
        j -= 1;
    }
    if j > 0 {
        assert(s@.take(j as int).last() == '/');
    } else {
        assert(s@.take(0) =~= Seq::<char>::empty());
    }
    let mut out: Vec<char> = Vec::new();
    let mut k = j;
    while k < s.len()
        invariant
            j <= k <= s.len(),
            out@ == s@.subrange(j as int, k as int),
        decreases s.len() - k,
    {
        out.push(s[k]);
        k += 1;
        assert(out@ =~= s@.subrange(j as int, k as int));
    }
    assert(s@.subrange(j as int, s.len() as int) =~= s@.skip(j as int));
    assert(seq![] + s@.skip(j as int) =~= s@.skip(j as int));
    out
}

/// The total size of a resumed download from its `Content-Range` header.
pub fn content_range_total(header: Option<&str>) -> (r: Option<u64>)
    ensures
        r == spec_content_range_total(
            match header {
                Some(h) => Some(h@),
                None => None,
            },
        ),
{
    match header {
        None => None,
        Some(h) => {
            let t = trim_chars(&after_last_slash(&chars_of(h)));
            parse_u64(&t)
        },
    }
}

/// Where a download attempt starts and the size it expects. A `206` answer resumes
/// after the `existing` bytes of the partial file; its total is taken from
/// `Content-Range`, else the partial size plus `Content-Length`. Any other answer
/// means the server ignored the range: the file starts anew and its total is
/// `Content-Length` (0 when unknown).
pub open spec fn spec_resume(resuming: bool, content_range: Option<Seq<char>>, content_length: Option<Seq<char>>, existing: u64) -> (u64, u64) {
    let len = match content_length {
        Some(l) => match spec_parse_u64(l) {
            Some(v) => v,
            None => 0,
        },
        None => 0,
    };
    if resuming {
        let total = match spec_content_range_total(content_range) {
            Some(t) => t,
            None => ((existing + len) % 0x1_0000_0000_0000_0000) as u64,
        };
        (existing, total)
    } else {
        (0, len)
    }
}

/// Start and expected total of a download attempt; see [`spec_resume`]. The sum
/// of the partial size and `Content-Length` wraps around like `u64` addition in
/// a release build.
pub fn resume(resuming: bool, content_range: Option<&str>, content_length: Option<&str>, existing: u64) -> (r: (u64, u64))
    ensures
        r == spec_resume(
            resuming,
            match content_range {
                Some(h) => Some(h@),
                None => None,
            },
            match content_length {
                Some(h) => Some(h@),
                None => None,
            },
            existing,
        ),
{
    let len: u64 = match content_length {
        Some(l) => match parse_u64(&chars_of(l)) {
            Some(v) => v,
            None => 0,
        },
        None => 0,
    };
    if resuming {
        let total = match content_range_total(content_range) {
            Some(t) => t,
            None => existing.wrapping_add(len),
        };
        (existing, total)
    } else {
        (0, len)
    }
}

/// A download is complete when its size is reached, or when the size is unknown
/// and the stream ended.
pub fn is_complete(total: u64, done: u64) -> (r: bool)
    ensures
        r == (total == 0 || done >= total),
{
    total == 0 || done >= total
}

/// After a broken attempt: the count of attempts without progress (reset by any
/// growth of the partial file), and whether to give up.
pub fn after_broken_attempt(stalls: u32, before: u64, after: u64) -> (r: (u32, bool))
    requires
        stalls < MAX_STALLS,
    ensures
        r.0 == (if after > before { 0 } else { stalls + 1 }),
        r.1 == (r.0 >= MAX_STALLS),
{
    let s = if after > before { 0 } else { stalls + 1 };
    (s, s >= MAX_STALLS)
}

/// `str::eq_ignore_ascii_case`: same length, and equal once ASCII letters are
/// lowered.
pub open spec fn spec_eq_ignore_ascii_case(a: Seq<char>, b: Seq<char>) -> bool {
    a.len() == b.len() && forall|i: int| 0 <= i < a.len() ==> ascii_lower_char(#[trigger] a[i])
        == ascii_lower_char(b[i])
}

fn lower_ascii(c: char) -> (r: char)
    ensures
        r == ascii_lower_char(c),
{
    if 'A' <= c && c <= 'Z' {
        ((c as u8) + 32) as char
    } else {
        c
    }
}

pub fn eq_ignore_ascii_case(a: &[char], b: &[char]) -> (r: bool)
    ensures
        r == spec_eq_ignore_ascii_case(a@, b@),
{
    if a.len() != b.len() {
        return false;
    }
    let mut i: usize = 0;
    while i < a.len()
        invariant
            i <= a.len() == b.len(),
            forall|j: int| 0 <= j < i ==> ascii_lower_char(#[trigger] a@[j]) == ascii_lower_char(b@[j]),
        decreases a.len() - i,
    {
        if lower_ascii(a[i]) != lower_ascii(b[i]) {
            return false;
        }
        i += 1;
    }
    true
}

/// A GPU build, by a lowered asset name.
pub open spec fn is_gpu_name(l: Seq<char>) -> bool {
    contains(l, "cublas"@) || contains(l, "cuda"@) || contains(l, "clblast"@) || contains(l, "blas"@)
        || contains(l, "vulkan"@) || contains(l, "hip"@)
}

/// A Windows x64 zip, by a lowered asset name.
pub open spec fn is_x64_zip(l: Seq<char>) -> bool {
    contains(l, "x64"@) && ends_with(l, ".zip"@)
}

/// An NVIDIA CUDA (cuBLAS) x64 zip, by an asset name in any case.
pub open spec fn is_cuda_x64(n: Seq<char>) -> bool {
    let l = unicode_lowercase(n);
    contains(l, "cublas"@) && is_x64_zip(l)
}

/// The tests by which assets are picked, in order of preference. For the CPU
/// build: the canonical name; any x64 zip that is not a GPU build; any x64 zip.
/// For the GPU build: a CUDA x64 zip for CUDA 12.x; any CUDA x64 zip.
pub open spec fn asset_ok(tier: u8, n: Seq<char>) -> bool {
    let l = unicode_lowercase(n);
    if tier == 0 {
        spec_eq_ignore_ascii_case(n, "whisper-bin-x64.zip"@)
    } else if tier == 1 {
        is_x64_zip(l) && !is_gpu_name(l)
    } else if tier == 2 {
        is_x64_zip(l)
    } else if tier == 3 {
        is_cuda_x64(n) && contains(n, "12."@)
    } else {
        is_cuda_x64(n)
    }
}

/// The first asset from position `i` that passes the test of `tier`.
pub open spec fn first_asset(names: Seq<Seq<char>>, tier: u8, i: int) -> Option<int>
    decreases names.len() - i,
{
    if i < 0 || i >= names.len() {
        None
    } else if asset_ok(tier, names[i]) {
        Some(i)
    } else {
        first_asset(names, tier, i + 1)
    }
}

pub open spec fn names_view(names: Seq<String>) -> Seq<Seq<char>> {
    names.map_values(|n: String| n@)
}

fn asset_matches(tier: u8, n: &str) -> (r: bool)
    ensures
        r == asset_ok(tier, n@),
{
    let l = chars_of(lowercase(n).as_str());
    let x64 = contains_seq(&l, &chars_of("x64")) && ends_with_seq(&l, &chars_of(".zip"));
    if tier == 0 {
        eq_ignore_ascii_case(&chars_of(n), &chars_of("whisper-bin-x64.zip"))
    } else if tier == 1 {
        let gpu = contains_seq(&l, &chars_of("cublas")) || contains_seq(&l, &chars_of("cuda"))
            || contains_seq(&l, &chars_of("clblast")) || contains_seq(&l, &chars_of("blas"))
            || contains_seq(&l, &chars_of("vulkan")) || contains_seq(&l, &chars_of("hip"));
        x64 && !gpu
    } else if tier == 2 {
        x64
    } else {
        let cuda = contains_seq(&l, &chars_of("cublas")) && x64;
        if tier == 3 {
            cuda && contains_seq(&chars_of(n), &chars_of("12."))
        } else {
            cuda
        }
    }
}

fn first_matching(names: &[String], tier: u8) -> (r: Option<usize>)
    ensures
        match r {
            Some(i) => first_asset(names_view(names@), tier, 0) == Some(i as int),
            None => first_asset(names_view(names@), tier, 0) is None,
        },
{
    let mut i: usize = 0;
    while i < names.len()
        invariant
            i <= names.len(),
            first_asset(names_view(names@), tier, 0) == first_asset(names_view(names@), tier, i as int),
        decreases names.len() - i,
    {
        if asset_matches(tier, names[i].as_str()) {
            return Some(i);
        }
        i += 1;
    }
    None
}

/// The asset to download for the CPU build: the first tier with a match decides.
pub open spec fn spec_pick_cpu(names: Seq<Seq<char>>) -> Option<int> {
    match first_asset(names, 0, 0) {
        Some(i) => Some(i),
        None => match first_asset(names, 1, 0) {
            Some(i) => Some(i),
            None => first_asset(names, 2, 0),
        },
    }
}

/// The asset to download for the GPU build.
pub open spec fn spec_pick_gpu(names: Seq<Seq<char>>) -> Option<int> {
    match first_asset(names, 3, 0) {
        Some(i) => Some(i),
        None => first_asset(names, 4, 0),
    }
}

/// Position of the CPU build among the release assets named `names`.
pub fn pick_cpu_asset(names: &[String]) -> (r: Option<usize>)
    ensures
        match r {
            Some(i) => spec_pick_cpu(names_view(names@)) == Some(i as int),
            None => spec_pick_cpu(names_view(names@)) is None,
        },
{
    match first_matching(names, 0) {
        Some(i) => Some(i),
        None => match first_matching(names, 1) {
            Some(i) => Some(i),
            None => first_matching(names, 2),
        },
    }
}

/// Position of the NVIDIA CUDA build among the release assets named `names`.
pub fn pick_gpu_asset(names: &[String]) -> (r: Option<usize>)
    ensures
        match r {
            Some(i) => spec_pick_gpu(names_view(names@)) == Some(i as int),
            None => spec_pick_gpu(names_view(names@)) is None,
        },
{
    match first_matching(names, 3) {
        Some(i) => Some(i),
        None => first_matching(names, 4),
    }
}

/// A file of the engine archive is installed when it is a program or a library.
pub open spec fn spec_wanted_entry(name: Seq<char>) -> bool {
    ends_with(unicode_lowercase(name), ".exe"@) || ends_with(unicode_lowercase(name), ".dll"@)
}

pub fn wanted_entry(name: &str) -> (r: bool)
    ensures
        r == spec_wanted_entry(name@),
{
    let l = chars_of(lowercase(name).as_str());
    ends_with_seq(&l, &chars_of(".exe")) || ends_with_seq(&l, &chars_of(".dll"))
}

/// Why an engine installation failed.
#[derive(Clone, Copy, PartialEq, Eq, Debug, Structural)]
pub enum InstallError {
    /// No whisper executable after unpacking.
    NoExecutable { extracted: u64, failed: u64 },
    /// Some files could not be unpacked (the archive is kept: a retry needs no download).
    Incomplete { failed: u64 },
    /// The GPU build came without the CUDA backend: recognition would stay on the CPU.
    NoCudaBackend,
}

/// The outcome of unpacking the engine: the executable must be there, every file
/// must have been unpacked, and a GPU build must bring its CUDA backend.
pub fn install_outcome(has_exe: bool, extracted: u64, failed: u64, gpu: bool, has_cuda: bool) -> (r: Result<(), InstallError>)
    ensures
        r == (if !has_exe {
            Err(InstallError::NoExecutable { extracted, failed })
        } else if failed > 0 {
            Err(InstallError::Incomplete { failed })
        } else if gpu && !has_cuda {
            Err(InstallError::NoCudaBackend)
        } else {
            Ok(())
        }),
{
    if !has_exe {
        Err(InstallError::NoExecutable { extracted, failed })
    } else if failed > 0 {
        Err(InstallError::Incomplete { failed })
    } else if gpu && !has_cuda {
        Err(InstallError::NoCudaBackend)
    } else {
        Ok(())
    }
}

} // verus!
