//! Recognition quality in numbers: word errors against a reference text.
use vstd::prelude::*;
use crate::text::{alphanumeric, char_lower, char_lowercase, chars_of, is_alphanumeric, seq_eq};
use crate::words::{split_words, views, words_of};

verus! {

/// The letters and digits of a word, lowercased.
pub open spec fn alnum_lower(w: Seq<char>) -> Seq<char>
    decreases w.len(),
{
    if w.len() == 0 {
        seq![]
    } else {
        alnum_lower(w.drop_last()) + if alphanumeric(w.last()) {
            char_lower(w.last())
        } else {
            seq![]
        }
    }
}

/// The non-empty ones among the words.
pub open spec fn non_empty(ws: Seq<Seq<char>>) -> Seq<Seq<char>>
    decreases ws.len(),
{
    if ws.len() == 0 {
        seq![]
    } else if ws.last().len() == 0 {
        non_empty(ws.drop_last())
    } else {
        non_empty(ws.drop_last()).push(ws.last())
    }
}

/// Words as compared: case and punctuation dropped, words left empty removed.
pub open spec fn compared_words(s: Seq<char>) -> Seq<Seq<char>> {
    non_empty(words_of(s).map_values(|w: Seq<char>| alnum_lower(w)))
}

pub open spec fn min3(x: nat, y: nat, z: nat) -> nat {
    if x <= y && x <= z {
        x
    } else if y <= z {
        y
    } else {
        z
    }
}

/// Edit distance between word sequences: fewest insertions, deletions and
/// substitutions of words turning `a` into `b`.
pub open spec fn edit_distance(a: Seq<Seq<char>>, b: Seq<Seq<char>>) -> nat
    decreases a.len() + b.len(),
{
    if a.len() == 0 {
        b.len()
    } else if b.len() == 0 {
        a.len()
    } else {
        min3(
            edit_distance(a.drop_last(), b) + 1,
            edit_distance(a, b.drop_last()) + 1,
            edit_distance(a.drop_last(), b.drop_last()) + if a.last() == b.last() {
                0nat
            } else {
                1nat
            },
        )
    }
}

/// The distance is at most the longer length.
pub proof fn lemma_edit_distance_bound(a: Seq<Seq<char>>, b: Seq<Seq<char>>)
    ensures
        edit_distance(a, b) <= if a.len() >= b.len() {
            a.len()
        } else {
            b.len()
        },
    decreases a.len() + b.len(),
{
    if a.len() > 0 && b.len() > 0 {
        lemma_edit_distance_bound(a.drop_last(), b.drop_last());
    }
}

/// Law: a text compared with itself has no errors.
pub proof fn law_no_errors_against_itself(a: Seq<Seq<char>>)
    ensures
        edit_distance(a, a) == 0,
    decreases a.len(),
{
    if a.len() > 0 {
        law_no_errors_against_itself(a.drop_last());
    }
}

/// Law: the distance does not depend on which text is the reference.
pub proof fn law_edit_distance_symmetric(a: Seq<Seq<char>>, b: Seq<Seq<char>>)
    ensures
        edit_distance(a, b) == edit_distance(b, a),
    decreases a.len() + b.len(),
{
    if a.len() > 0 && b.len() > 0 {
        law_edit_distance_symmetric(a.drop_last(), b);
        law_edit_distance_symmetric(a, b.drop_last());
        law_edit_distance_symmetric(a.drop_last(), b.drop_last());
    }
}

proof fn lemma_words_count(s: Seq<char>)
    ensures
        words_of(s).len() <= s.len(),
    decreases s.len(),
{
    if s.len() > 0 {
        lemma_words_count(s.drop_last());
        crate::words::lemma_words_of_are_words(s.drop_last());
        if s.len() > 1 {
            assert(s.drop_last().last() == s[s.len() - 2]);
        }
    }
}

proof fn lemma_non_empty_len(ws: Seq<Seq<char>>)
    ensures
        non_empty(ws).len() <= ws.len(),
    decreases ws.len(),
{
    if ws.len() > 0 {
        lemma_non_empty_len(ws.drop_last());
    }
}

fn alnum_lower_of(w: &[char]) -> (r: Vec<char>)
    ensures
        r@ == alnum_lower(w@),
{
    let mut r: Vec<char> = Vec::new();
    let mut i: usize = 0;
    while i < w.len()
        invariant
            i <= w.len(),
            r@ == alnum_lower(w@.take(i as int)),
        decreases w.len() - i,
    {
        assert(w@.take(i + 1).drop_last() =~= w@.take(i as int));
        let c = w[i];
        if is_alphanumeric(c) {
            let low = char_lowercase(c);
            let ghost base = r@;
            let mut k: usize = 0;
            while k < low.len()
                invariant
                    k <= low.len(),
                    r@ == base + low@.take(k as int),
                decreases low.len() - k,
            {
                r.push(low[k]);
                k += 1;
                assert(r@ =~= base + low@.take(k as int));
            }
            assert(low@.take(low.len() as int) =~= low@);
        } else {
            assert(r@ =~= alnum_lower(w@.take(i + 1)));
        }
        i += 1;
    }
    assert(w@.take(w.len() as int) =~= w@);
    r
}

/// The words of a text as compared: split at whitespace, each reduced to its
/// lowercased letters and digits, empty ones dropped.
pub fn normalize(s: &str) -> (r: Vec<Vec<char>>)
    ensures
        views(r@) == compared_words(s@),
{
    let c = chars_of(s);
    let ws = split_words(&c);
    let ghost mapped = views(ws@).map_values(|w: Seq<char>| alnum_lower(w));
    let mut out: Vec<Vec<char>> = Vec::new();
    let mut i: usize = 0;
    while i < ws.len()
        invariant
            i <= ws.len(),
            mapped == views(ws@).map_values(|w: Seq<char>| alnum_lower(w)),
            views(out@) == non_empty(mapped.take(i as int)),
        decreases ws.len() - i,
    {
        assert(mapped.take(i + 1).drop_last() =~= mapped.take(i as int));
        let w = alnum_lower_of(&ws[i]);
        if w.len() > 0 {
            let ghost o = out@;
            out.push(w);
            assert(views(out@) =~= views(o).push(w@));
        }
        i += 1;
    }
    assert(mapped.take(ws.len() as int) =~= mapped);
    out
}

/// Word errors (edit distance over words) between a reference and a result,
/// and the number of reference words. Case and punctuation are ignored: what
/// matters are missing and mixed-up words.
pub fn word_errors(reference: &str, got: &str) -> (r: (usize, usize))
    requires
        reference@.len() < usize::MAX,
        got@.len() < usize::MAX,
    ensures
        r.0 as nat == edit_distance(compared_words(reference@), compared_words(got@)),
        r.1 as nat == compared_words(reference@).len(),
{
    let a = normalize(reference);
    let b = normalize(got);
    let ghost sa = views(a@);
    let ghost sb = views(b@);
    proof {
        lemma_words_count(reference@);
        lemma_words_count(got@);
        lemma_non_empty_len(words_of(reference@).map_values(|w: Seq<char>| alnum_lower(w)));
        lemma_non_empty_len(words_of(got@).map_values(|w: Seq<char>| alnum_lower(w)));
    }
    let n = a.len();
    let m = b.len();
    if n == 0 {
        return (m, 0);
    }
    let mut prev: Vec<usize> = Vec::new();
    let mut j: usize = 0;
    while j <= m
        invariant
            j <= m + 1,
            m < usize::MAX,
            m == b.len(),
            sb == views(b@),
            prev.len() == j,
            forall|k: int| 0 <= k < j ==> prev@[k] as nat == edit_distance(sa.take(0), sb.take(k)),
        decreases m + 1 - j,
    {
        proof {
            assert(sa.take(0).len() == 0);
            assert(sb.take(j as int).len() == j);
        }
        prev.push(j);
        j += 1;
    }
    let mut i: usize = 1;
    while i <= n
        invariant
            1 <= i <= n + 1,
            n == a.len(),
            m == b.len(),
            n < usize::MAX,
            m < usize::MAX,
            sa == views(a@),
            sb == views(b@),
            prev.len() == m + 1,
            forall|k: int| 0 <= k <= m ==> prev@[k] as nat == edit_distance(sa.take(i - 1), sb.take(k)),
        decreases n + 1 - i,
    {
        let mut cur: Vec<usize> = Vec::new();
        cur.push(i);
        proof {
            assert(sb.take(0).len() == 0);
            assert(sa.take(i as int).len() == i);
        }
        let mut j: usize = 1;
        while j <= m
            invariant
                1 <= i <= n,
                1 <= j <= m + 1,
                n == a.len(),
                m == b.len(),
                n < usize::MAX,
                m < usize::MAX,
                sa == views(a@),
                sb == views(b@),
                prev.len() == m + 1,
                cur.len() == j,
                forall|k: int| 0 <= k <= m ==> prev@[k] as nat == edit_distance(sa.take(i - 1), sb.take(k)),
                forall|k: int| 0 <= k < j ==> cur@[k] as nat == edit_distance(sa.take(i as int), sb.take(k)),
            decreases m + 1 - j,
        {
            let same = seq_eq(&a[i - 1], &b[j - 1]);
            let ghost x = sa.take(i as int);
            let ghost y = sb.take(j as int);
            proof {
                assert(x.drop_last() =~= sa.take(i - 1));
                assert(y.drop_last() =~= sb.take(j - 1));
                assert(x.last() == a@[i - 1]@);
                assert(y.last() == b@[j - 1]@);
                lemma_edit_distance_bound(sa.take(i - 1), y);
                lemma_edit_distance_bound(x, sb.take(j - 1));
                lemma_edit_distance_bound(sa.take(i - 1), sb.take(j - 1));
            }
            let cost: usize = if same {
                0
            } else {
                1
            };
            let del = prev[j] + 1;
            let ins = cur[j - 1] + 1;
            let sub = prev[j - 1] + cost;
            let best = if del <= ins && del <= sub {
                del
            } else if ins <= sub {
                ins
            } else {
                sub
            };
            cur.push(best);
            j += 1;
        }
        prev = cur;
        i += 1;
    }
    assert(sa.take(n as int) =~= sa);
    assert(sb.take(m as int) =~= sb);
    (prev[m], n)
}

/// The model measured: the one asked for if it is in the catalogue and
/// downloaded, else the one of the settings if it is, else the first downloaded
/// one of the catalogue. `downloaded[i]` tells whether the `i`-th model of the
/// catalogue is on disk.
pub open spec fn spec_pick_model(explicit: Option<Seq<char>>, cfg_model: Option<Seq<char>>, downloaded: Seq<bool>) -> Option<int> {
    let ok = |k: Option<int>| match k {
        Some(i) => i < downloaded.len() && downloaded[i],
        None => false,
    };
    let e = match explicit {
        Some(id) => crate::control::first_index_with_id(id, 0),
        None => None,
    };
    let c = match cfg_model {
        Some(id) => crate::control::first_index_with_id(id, 0),
        None => None,
    };
    if ok(e) {
        e
    } else if ok(c) {
        c
    } else {
        crate::control::first_downloaded(downloaded, 0)
    }
}

fn found_and_downloaded(id: Option<&str>, downloaded: &[bool]) -> (r: Option<usize>)
    ensures
        match r {
            Some(k) => {
                &&& (match id {
                    Some(s) => crate::control::first_index_with_id(s@, 0),
                    None => None,
                }) == Some(k as int)
                &&& k < downloaded@.len() && downloaded@[k as int]
            },
            None => !(match (match id {
                Some(s) => crate::control::first_index_with_id(s@, 0),
                None => None,
            }) {
                Some(i) => i < downloaded@.len() && downloaded@[i],
                None => false,
            }),
        },
{
    match id {
        None => None,
        Some(s) => match crate::control::index_of_id(s) {
            Some(k) => if k < downloaded.len() && downloaded[k] {
                Some(k)
            } else {
                None
            },
            None => None,
        },
    }
}

/// Position in the catalogue of the model to measure; see [`spec_pick_model`].
pub fn pick_model(explicit: Option<&str>, cfg_model: Option<&str>, downloaded: &[bool]) -> (r: Option<usize>)
    ensures
        match r {
            Some(k) => spec_pick_model(
                match explicit {
                    Some(s) => Some(s@),
                    None => None,
                },
                match cfg_model {
                    Some(s) => Some(s@),
                    None => None,
                },
                downloaded@,
            ) == Some(k as int),
            None => spec_pick_model(
                match explicit {
                    Some(s) => Some(s@),
                    None => None,
                },
                match cfg_model {
                    Some(s) => Some(s@),
                    None => None,
                },
                downloaded@,
            ) is None,
        },
{
    if let Some(k) = found_and_downloaded(explicit, downloaded) {
        return Some(k);
    }
    if let Some(k) = found_and_downloaded(cfg_model, downloaded) {
        return Some(k);
    }
    let ghost e = match explicit {
        Some(s) => Some(s@),
        None => None,
    };
    let ghost c = match cfg_model {
        Some(s) => Some(s@),
        None => None,
    };
    assert(spec_pick_model(e, c, downloaded@) == crate::control::first_downloaded(downloaded@, 0));
    let all = crate::models::catalog();
    let mut k: usize = 0;
    while k < all.len()
        invariant
            k <= all.len(),
            all@ == crate::models::spec_catalog(),
            spec_pick_model(e, c, downloaded@) == crate::control::first_downloaded(downloaded@, 0),
            e == (match explicit {
                Some(s) => Some(s@),
                None => None,
            }),
            c == (match cfg_model {
                Some(s) => Some(s@),
                None => None,
            }),
            crate::control::first_downloaded(downloaded@, 0) == crate::control::first_downloaded(
                downloaded@,
                k as int,
            ),
        decreases all.len() - k,
    {
        if k < downloaded.len() && downloaded[k] {
            return Some(k);
        }
        k += 1;
    }
    None
}

/// One step of the xorshift generator of the bench's noise (shifts 13, 17, 5).
pub open spec fn spec_xorshift32(x: u32) -> u32 {
    let a = x ^ ((x << 13u32) as u32);
    let b = a ^ (a >> 17u32);
    b ^ ((b << 5u32) as u32)
}

pub fn xorshift32(x: u32) -> (r: u32)
    ensures
        r == spec_xorshift32(x),
{
    let a = x ^ (x << 13);
    let b = a ^ (a >> 17);
    b ^ (b << 5)
}

/// The bench's variants of decoding, measured on the noisy recording: greedy
/// (the production setting), beam search of 5, beam search with temperature
/// fallback, and beam search with an initial prompt.
pub open spec fn spec_variants(prompt: Seq<char>) -> Seq<(Seq<char>, Seq<Seq<char>>)> {
    seq![
        ("декодирование: жадное (как было)"@, seq!["-bs"@, "1"@, "-nf"@]),
        ("декодирование: перебор лучей 5"@, seq!["-bs"@, "5"@, "-nf"@]),
        ("перебор 5 + откат по температуре"@, seq!["-bs"@, "5"@]),
        ("перебор 5 + начальный контекст"@, seq!["-bs"@, "5"@, "-nf"@, "-sns"@, "--prompt"@, prompt]),
    ]
}

pub open spec fn variants_view(v: Seq<(String, Vec<String>)>) -> Seq<(Seq<char>, Seq<Seq<char>>)> {
    v.map_values(|p: (String, Vec<String>)| (p.0@, crate::server::strings_view(p.1@)))
}

fn strings(a: &[&str]) -> (r: Vec<String>)
    ensures
        crate::server::strings_view(r@) == a@.map_values(|s: &str| s@),
{
    let mut r: Vec<String> = Vec::new();
    let mut i: usize = 0;
    while i < a.len()
        invariant
            i <= a.len(),
            crate::server::strings_view(r@) == a@.take(i as int).map_values(|s: &str| s@),
        decreases a.len() - i,
    {
        let ghost before = r@;
        r.push(a[i].to_owned());
        assert(crate::server::strings_view(r@) =~= crate::server::strings_view(before).push(a@[i as int]@));
        assert(a@.take(i + 1).map_values(|s: &str| s@) =~= a@.take(i as int).map_values(|s: &str| s@).push(a@[i as int]@));
        i += 1;
    }
    assert(a@.take(a.len() as int) =~= a@);
    r
}

/// The decoding variants of the bench, with the initial prompt of the last one.
pub fn decoding_variants(prompt: &str) -> (r: Vec<(String, Vec<String>)>)
    ensures
        variants_view(r@) == spec_variants(prompt@),
{
    let mut r: Vec<(String, Vec<String>)> = Vec::new();
    let v0 = strings(&["-bs", "1", "-nf"]);
    let v1 = strings(&["-bs", "5", "-nf"]);
    let v2 = strings(&["-bs", "5"]);
    let v3 = strings(&["-bs", "5", "-nf", "-sns", "--prompt", prompt]);
    proof {
        assert(seq!["-bs", "1", "-nf"].map_values(|s: &str| s@) =~= seq!["-bs"@, "1"@, "-nf"@]);
        assert(seq!["-bs", "5", "-nf"].map_values(|s: &str| s@) =~= seq!["-bs"@, "5"@, "-nf"@]);
        assert(seq!["-bs", "5"].map_values(|s: &str| s@) =~= seq!["-bs"@, "5"@]);
        assert(seq!["-bs", "5", "-nf", "-sns", "--prompt", prompt].map_values(|s: &str| s@) =~= seq![
            "-bs"@, "5"@, "-nf"@, "-sns"@, "--prompt"@, prompt@,
        ]);
    }
    r.push(("декодирование: жадное (как было)".to_owned(), v0));
    r.push(("декодирование: перебор лучей 5".to_owned(), v1));
    r.push(("перебор 5 + откат по температуре".to_owned(), v2));
    r.push(("перебор 5 + начальный контекст".to_owned(), v3));
    assert(variants_view(r@) =~= spec_variants(prompt@));
    r
}

} // verus!
