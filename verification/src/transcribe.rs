//! Cleaning up the text whisper.cpp returns.
use vstd::prelude::*;
use crate::text::{chars_of, string_of, white_space};
use crate::words::{
    join_with_spaces, join_words, lemma_join_shape, lemma_run_together_concat, lemma_solid_concat,
    lemma_solid_join, lemma_solid_words, lemma_words_of_are_words, lemma_words_of_join, run_together,
    solid, split_words, words_of,
};

verus! {

/// The lines of a text (`str::lines`): split at line feeds, a carriage return
/// just before a line feed dropped, no empty line after a final line feed.
pub open spec fn lines_of(s: Seq<char>) -> Seq<Seq<char>>
    decreases s.len(),
{
    if s.len() == 0 {
        seq![]
    } else {
        let i = first_line_feed(s, 0);
        proof {
            lemma_first_line_feed_range(s, 0);
        }
        if i >= s.len() {
            seq![s]
        } else {
            seq![strip_cr(s.take(i))] + lines_of(s.skip(i + 1))
        }
    }
}

/// Index of the first line feed at or after `k`, or the length when there is none.
pub open spec fn first_line_feed(s: Seq<char>, k: int) -> int
    decreases s.len() - k,
{
    if k >= s.len() {
        s.len() as int
    } else if s[k] == '\n' {
        k
    } else {
        first_line_feed(s, k + 1)
    }
}

/// The first line feed at or after `k` lies between `k` and the end (the end
/// when there is none).
pub proof fn lemma_first_line_feed_range(s: Seq<char>, k: int)
    requires
        0 <= k <= s.len(),
    ensures
        k <= first_line_feed(s, k) <= s.len(),
    decreases s.len() - k,
{
    if k < s.len() && s[k] != '\n' {
        lemma_first_line_feed_range(s, k + 1);
    }
}

/// A line without the carriage return that ended it.
pub open spec fn strip_cr(l: Seq<char>) -> Seq<char> {
    if l.len() > 0 && l.last() == '\r' {
        l.drop_last()
    } else {
        l
    }
}

/// Characters after which a word is certainly over.
pub open spec fn sentence_end(c: char) -> bool {
    c == '.' || c == '!' || c == '?' || c == ',' || c == ';' || c == ':' || c == '…' || c == '»'
        || c == '"' || c == '\''
}

/// Lines glued as they are, with a space only after a line that ends with a
/// sentence mark (elsewhere a line break may fall inside a word).
pub open spec fn glue(ls: Seq<Seq<char>>) -> Seq<char>
    decreases ls.len(),
{
    if ls.len() == 0 {
        seq![]
    } else {
        let g = glue(ls.drop_last());
        (if g.len() > 0 && sentence_end(g.last()) {
            g.push(' ')
        } else {
            g
        }) + ls.last()
    }
}

/// Whitespace runs collapsed to one space, ends trimmed: the words joined by spaces.
pub open spec fn spec_squeeze(s: Seq<char>) -> Seq<char> {
    join_words(words_of(s))
}

/// Collapses runs of whitespace into one space and trims both ends.
pub fn squeeze(s: &str) -> (r: String)
    ensures
        r@ == spec_squeeze(s@),
{
    let c = chars_of(s);
    let ws = split_words(&c);
    let j = join_with_spaces(&ws);
    string_of(&j)
}

fn first_lf(s: &[char], k: usize) -> (r: usize)
    requires
        k <= s.len(),
    ensures
        r as int == first_line_feed(s@, k as int),
        k <= r <= s.len(),
    decreases s.len() - k,
{
    if k >= s.len() {
        s.len()
    } else if s[k] == '\n' {
        k
    } else {
        first_lf(s, k + 1)
    }
}

proof fn lemma_first_line_feed_shift(s: Seq<char>, i: int, k: int)
    requires
        0 <= i <= s.len(),
        0 <= k <= s.len() - i,
    ensures
        first_line_feed(s.skip(i), k) == first_line_feed(s, i + k) - i,
    decreases s.len() - i - k,
{
    if k < s.len() - i {
        assert(s.skip(i)[k] == s[i + k]);
        if s[i + k] != '\n' {
            lemma_first_line_feed_shift(s, i, k + 1);
        }
    }
}

/// Whisper's output glued into one line and squeezed; see [`normalize`].
pub open spec fn spec_normalize(raw: Seq<char>) -> Seq<char> {
    spec_squeeze(glue(lines_of(raw)))
}

/// Glues whisper's output into one line.
///
/// whisper returns text in segments, one per line, and a segment boundary may
/// fall inside a word, so a line break is not replaced with a space: lines are
/// glued as they are, with a space only after a sentence mark; then whitespace
/// is collapsed.
pub fn normalize(raw: &str) -> (r: String)
    ensures
        r@ == spec_normalize(raw@),
{
    let s = chars_of(raw);
    let mut glued: Vec<char> = Vec::new();
    let mut i: usize = 0;
    let ghost done: Seq<Seq<char>> = seq![];
    assert(s@.skip(0) =~= s@);
    assert(done + lines_of(s@) =~= lines_of(s@));
    while i < s.len()
        invariant
            i <= s.len(),
            lines_of(s@) == done + lines_of(s@.skip(i as int)),
            glued@ == glue(done),
        decreases s.len() - i,
    {
        let ghost rest = s@.skip(i as int);
        let j = first_lf(&s, i);
        proof {
            lemma_first_line_feed_shift(s@, i as int, 0);
        }
        let end = if j < s.len() && j > i && s[j - 1] == '\r' {
            j - 1
        } else {
            j
        };
        let ghost line = if j < s.len() {
            strip_cr(rest.take(j - i))
        } else {
            rest
        };
        proof {
            if j < s.len() {
                let t = rest.take(j - i);
                if j > i {
                    assert(t.last() == s@[j - 1]);
                }
                if j > i && s@[j - 1] == '\r' {
                    assert(t.drop_last() =~= s@.subrange(i as int, end as int));
                } else {
                    assert(t =~= s@.subrange(i as int, end as int));
                }
                assert(rest.skip(j - i + 1) =~= s@.skip(j + 1));
            } else {
                assert(rest =~= s@.subrange(i as int, end as int));
            }
            assert(line == s@.subrange(i as int, end as int));
        }
        let ghost g0 = glued@;
        if glued.len() > 0 && sentence_end_char(glued[glued.len() - 1]) {
            glued.push(' ');
        }
        let mut k = i;
        let ghost base = glued@;
        while k < end
            invariant
                i <= k <= end <= s.len(),
                glued@ == base + s@.subrange(i as int, k as int),
            decreases end - k,
        {
            glued.push(s[k]);
            k += 1;
            assert(glued@ =~= base + s@.subrange(i as int, k as int));
        }
        proof {
            let nd = done.push(line);
            assert(nd.drop_last() =~= done);
            assert(glued@ == glue(nd));
            if j < s.len() {
                assert(lines_of(rest) == seq![line] + lines_of(s@.skip(j + 1)));
                assert(done + lines_of(rest) =~= nd + lines_of(s@.skip(j + 1)));
            } else {
                assert(lines_of(rest) == seq![line]);
                assert(s@.skip(s.len() as int) =~= Seq::<char>::empty());
                assert(done + lines_of(rest) =~= nd + lines_of(s@.skip(s.len() as int)));
            }
            done = nd;
        }
        i = if j < s.len() {
            j + 1
        } else {
            s.len()
        };
    }
    assert(s@.skip(i as int) =~= Seq::<char>::empty());
    assert(done + Seq::<Seq<char>>::empty() =~= done);
    let ws = split_words(&glued);
    let out = join_with_spaces(&ws);
    string_of(&out)
}

fn sentence_end_char(c: char) -> (r: bool)
    ensures
        r == sentence_end(c),
{
    c == '.' || c == '!' || c == '?' || c == ',' || c == ';' || c == ':' || c == '…' || c == '»'
        || c == '"' || c == '\''
}

/// Squeezing leaves single spaces between words and nothing at the ends: no
/// whitespace but plain spaces, never two in a row, none first or last.
pub proof fn law_squeeze_shape(s: Seq<char>)
    ensures
        forall|j: int|
            0 <= j < spec_squeeze(s).len() && white_space(#[trigger] spec_squeeze(s)[j]) ==> spec_squeeze(
                s,
            )[j] == ' ',
        forall|j: int|
            0 <= j < spec_squeeze(s).len() - 1 && #[trigger] spec_squeeze(s)[j] == ' ' ==> spec_squeeze(
                s,
            )[j + 1] != ' ',
        spec_squeeze(s).len() > 0 ==> !white_space(spec_squeeze(s)[0]) && !white_space(
            spec_squeeze(s).last(),
        ),
{
    lemma_words_of_are_words(s);
    let ws = words_of(s);
    if ws.len() > 0 {
        lemma_join_shape(ws);
    } else {
        assert(spec_squeeze(s) =~= Seq::<char>::empty());
    }
}

proof fn lemma_first_line_feed_is_lf(s: Seq<char>, k: int)
    requires
        0 <= k <= s.len(),
        first_line_feed(s, k) < s.len(),
    ensures
        s[first_line_feed(s, k)] == '\n',
    decreases s.len() - k,
{
    if k < s.len() && s[k] != '\n' {
        lemma_first_line_feed_is_lf(s, k + 1);
    }
}

proof fn lemma_first_line_feed_none(s: Seq<char>, k: int)
    requires
        0 <= k <= s.len(),
        forall|i: int| k <= i < s.len() ==> #[trigger] s[i] != '\n',
    ensures
        first_line_feed(s, k) == s.len(),
    decreases s.len() - k,
{
    if k < s.len() {
        lemma_first_line_feed_none(s, k + 1);
    }
}

proof fn lemma_solid_glue(ls: Seq<Seq<char>>)
    ensures
        solid(glue(ls)) == solid(run_together(ls)),
    decreases ls.len(),
{
    if ls.len() > 0 {
        let init = ls.drop_last();
        lemma_solid_glue(init);
        let g = glue(init);
        let g2 = if g.len() > 0 && sentence_end(g.last()) {
            g.push(' ')
        } else {
            g
        };
        assert(glue(ls) == g2 + ls.last());
        lemma_solid_concat(g2, ls.last());
        lemma_solid_concat(run_together(init), ls.last());
        if g.len() > 0 && sentence_end(g.last()) {
            assert(g.push(' ').drop_last() =~= g);
            assert(white_space(' '));
            assert(solid(g2) == solid(g));
        }
    }
}

proof fn lemma_solid_lines(s: Seq<char>)
    ensures
        solid(run_together(lines_of(s))) == solid(s),
    decreases s.len(),
{
    assert(run_together(Seq::<Seq<char>>::empty()) == Seq::<char>::empty());
    if s.len() > 0 {
        let i = first_line_feed(s, 0);
        lemma_first_line_feed_range(s, 0);
        if i >= s.len() {
            let ls = seq![s];
            assert(lines_of(s) == ls);
            assert(ls.drop_last() =~= Seq::<Seq<char>>::empty());
            assert(run_together(ls) =~= s);
        } else {
            lemma_first_line_feed_is_lf(s, 0);
            let t = s.take(i);
            let rest = s.skip(i + 1);
            let one = seq![strip_cr(t)];
            assert(lines_of(s) == one + lines_of(rest));
            lemma_solid_lines(rest);
            lemma_run_together_concat(one, lines_of(rest));
            assert(one.drop_last() =~= Seq::<Seq<char>>::empty());
            assert(run_together(one) =~= strip_cr(t));
            lemma_solid_concat(strip_cr(t), run_together(lines_of(rest)));
            if t.len() > 0 && t.last() == '\r' {
                assert(white_space('\r'));
                assert(solid(strip_cr(t)) == solid(t));
            }
            let lf: Seq<char> = seq!['\n'];
            assert(s =~= t + lf + rest);
            lemma_solid_concat(t + lf, rest);
            lemma_solid_concat(t, lf);
            assert(white_space('\n'));
            assert(lf.last() == '\n');
            assert(lf.drop_last() =~= Seq::<char>::empty());
            assert(solid(Seq::<char>::empty()) == Seq::<char>::empty());
            assert(solid(lf) == solid(lf.drop_last()));
            assert(solid(t) + Seq::<char>::empty() =~= solid(t));
        }
    }
}

/// What [`normalize`] promises of every input: the result holds no whitespace
/// but plain spaces, never two in a row and none at either end; its
/// non-whitespace characters are exactly those of the raw text, in the same
/// order; and normalizing the result again changes nothing.
pub proof fn law_normalize_keeps_text(raw: Seq<char>)
    ensures
        forall|j: int|
            0 <= j < spec_normalize(raw).len() && white_space(#[trigger] spec_normalize(raw)[j])
                ==> spec_normalize(raw)[j] == ' ',
        forall|j: int|
            0 <= j < spec_normalize(raw).len() - 1 && #[trigger] spec_normalize(raw)[j] == ' '
                ==> spec_normalize(raw)[j + 1] != ' ',
        spec_normalize(raw).len() > 0 ==> !white_space(spec_normalize(raw)[0]) && !white_space(
            spec_normalize(raw).last(),
        ),
        solid(spec_normalize(raw)) == solid(raw),
        spec_normalize(spec_normalize(raw)) == spec_normalize(raw),
{
    law_squeeze_shape(glue(lines_of(raw)));
    let g = glue(lines_of(raw));
    let ws = words_of(g);
    let r = spec_normalize(raw);
    lemma_words_of_are_words(g);
    lemma_solid_join(ws);
    lemma_solid_words(g);
    lemma_solid_glue(lines_of(raw));
    lemma_solid_lines(raw);
    assert(r == join_words(ws));
    if r.len() == 0 {
        assert(r =~= Seq::<char>::empty());
        assert(lines_of(r) == Seq::<Seq<char>>::empty());
        assert(glue(Seq::<Seq<char>>::empty()) == Seq::<char>::empty());
        assert(words_of(Seq::<char>::empty()) == Seq::<Seq<char>>::empty());
        assert(join_words(Seq::<Seq<char>>::empty()) == Seq::<char>::empty());
    } else {
        law_squeeze_shape(g);
        assert(white_space('\n'));
        assert forall|i: int| 0 <= i < r.len() implies #[trigger] r[i] != '\n' by {
            if r[i] == '\n' {
                assert(white_space(r[i]));
            }
        }
        lemma_first_line_feed_none(r, 0);
        assert(lines_of(r) == seq![r]);
        let one = seq![r];
        assert(one.drop_last() =~= Seq::<Seq<char>>::empty());
        assert(glue(Seq::<Seq<char>>::empty()) == Seq::<char>::empty());
        assert(glue(one) =~= r);
        lemma_words_of_join(ws);
    }
}

proof fn lemma_first_line_feed_at(s: Seq<char>, k: int, j: int)
    requires
        0 <= k <= j < s.len(),
        s[j] == '\n',
        forall|i: int| k <= i < j ==> #[trigger] s[i] != '\n',
    ensures
        first_line_feed(s, k) == j,
    decreases j - k,
{
    if k < j {
        lemma_first_line_feed_at(s, k + 1, j);
    }
}

/// Law: a line that ends with a sentence mark (. ! ? , ; : … » " ') is kept
/// apart from the next line by a space: for two lines `a` and `b` without line
/// feeds, normalizing `a`, a line feed and `b` gives what squeezing `a`, a space
/// and `b` gives.
pub proof fn law_line_break_after_sentence_mark(a: Seq<char>, b: Seq<char>)
    requires
        a.len() > 0,
        ({
            let c = a.last();
            c == '.' || c == '!' || c == '?' || c == ',' || c == ';' || c == ':' || c == '…'
                || c == '»' || c == '"' || c == '\''
        }),
        forall|i: int| 0 <= i < a.len() ==> #[trigger] a[i] != '\n',
        forall|i: int| 0 <= i < b.len() ==> #[trigger] b[i] != '\n',
    ensures
        spec_normalize(a + seq!['\n'] + b) == spec_squeeze(a + seq![' '] + b),
{
    let s = a + seq!['\n'] + b;
    let n = a.len() as int;
    assert forall|i: int| 0 <= i < n implies #[trigger] s[i] != '\n' by {
        assert(s[i] == a[i]);
    }
    assert(s[n] == '\n');
    lemma_first_line_feed_at(s, 0, n);
    assert(s.take(n) =~= a);
    assert(strip_cr(a) == a);
    assert(s.skip(n + 1) =~= b);
    let la: Seq<Seq<char>> = seq![a];
    assert(lines_of(s) == la + lines_of(b));
    assert(la.drop_last() =~= Seq::<Seq<char>>::empty());
    assert(glue(Seq::<Seq<char>>::empty()) == Seq::<char>::empty());
    assert(glue(la) =~= a);
    if b.len() == 0 {
        assert(lines_of(b) == Seq::<Seq<char>>::empty());
        assert(la + lines_of(b) =~= la);
        assert(a + seq![' '] + b =~= a.push(' '));
        assert(white_space(' '));
        assert(a.push(' ').drop_last() =~= a);
        assert(words_of(a.push(' ')) == words_of(a));
    } else {
        lemma_first_line_feed_none(b, 0);
        let lb: Seq<Seq<char>> = seq![b];
        assert(lines_of(b) == lb);
        let ls = la + lb;
        assert(ls.drop_last() =~= la);
        assert(ls.last() == b);
        assert(sentence_end(a.last()));
        assert(glue(ls) == a.push(' ') + b);
        assert(a.push(' ') + b =~= a + seq![' '] + b);
    }
}

/// Law: a line break after anything but a sentence mark (. ! ? , ; : … » " ')
/// may fall inside a word, so the lines are glued as they are: for two lines `a`
/// and `b` without line feeds, `a` not ending in a carriage return, normalizing
/// `a`, a line feed and `b` gives what squeezing `a` followed by `b` gives.
pub proof fn law_line_break_elsewhere_glues(a: Seq<char>, b: Seq<char>)
    requires
        a.len() > 0,
        ({
            let c = a.last();
            !(c == '.' || c == '!' || c == '?' || c == ',' || c == ';' || c == ':' || c == '…'
                || c == '»' || c == '"' || c == '\'' || c == '\r')
        }),
        forall|i: int| 0 <= i < a.len() ==> #[trigger] a[i] != '\n',
        forall|i: int| 0 <= i < b.len() ==> #[trigger] b[i] != '\n',
    ensures
        spec_normalize(a + seq!['\n'] + b) == spec_squeeze(a + b),
{
    let s = a + seq!['\n'] + b;
    let n = a.len() as int;
    assert forall|i: int| 0 <= i < n implies #[trigger] s[i] != '\n' by {
        assert(s[i] == a[i]);
    }
    assert(s[n] == '\n');
    lemma_first_line_feed_at(s, 0, n);
    assert(s.take(n) =~= a);
    assert(strip_cr(a) == a);
    assert(s.skip(n + 1) =~= b);
    let la: Seq<Seq<char>> = seq![a];
    assert(lines_of(s) == la + lines_of(b));
    assert(la.drop_last() =~= Seq::<Seq<char>>::empty());
    assert(glue(Seq::<Seq<char>>::empty()) == Seq::<char>::empty());
    assert(glue(la) =~= a);
    if b.len() == 0 {
        assert(lines_of(b) == Seq::<Seq<char>>::empty());
        assert(la + lines_of(b) =~= la);
        assert(a + b =~= a);
    } else {
        lemma_first_line_feed_none(b, 0);
        let lb: Seq<Seq<char>> = seq![b];
        assert(lines_of(b) == lb);
        let ls = la + lb;
        assert(ls.drop_last() =~= la);
        assert(ls.last() == b);
        assert(!sentence_end(a.last()));
        assert(glue(ls) == a + b);
    }
}

} // verus!
