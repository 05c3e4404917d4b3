//! Words of a text: splitting at Unicode whitespace and joining with single spaces.
use vstd::prelude::*;
use crate::text::{is_whitespace, white_space};

verus! {

/// The words of `s`: maximal runs of non-whitespace characters, in order
/// (what `str::split_whitespace` yields).
pub open spec fn words_of(s: Seq<char>) -> Seq<Seq<char>>
    decreases s.len(),
{
    if s.len() == 0 {
        seq![]
    } else {
        let w = words_of(s.drop_last());
        let c = s.last();
        if white_space(c) {
            w
        } else if s.len() > 1 && !white_space(s[s.len() - 2]) {
            w.update(w.len() - 1, w.last().push(c))
        } else {
            w.push(seq![c])
        }
    }
}

/// Words joined by one space each.
pub open spec fn join_words(ws: Seq<Seq<char>>) -> Seq<char>
    decreases ws.len(),
{
    if ws.len() == 0 {
        seq![]
    } else if ws.len() == 1 {
        ws[0]
    } else {
        join_words(ws.drop_last()) + seq![' '] + ws.last()
    }
}

/// The character sequences held by a vector of character vectors.
pub open spec fn views(v: Seq<Vec<char>>) -> Seq<Seq<char>> {
    v.map_values(|w: Vec<char>| w@)
}

/// A proper word: non-empty and free of whitespace.
pub open spec fn is_word(w: Seq<char>) -> bool {
    w.len() > 0 && forall|i: int| 0 <= i < w.len() ==> !white_space(#[trigger] w[i])
}

pub open spec fn all_words(ws: Seq<Seq<char>>) -> bool {
    forall|i: int| 0 <= i < ws.len() ==> is_word(#[trigger] ws[i])
}

/// Every element of `words_of` is a proper word, and a text that ends in a
/// non-whitespace character has at least one word.
pub proof fn lemma_words_of_are_words(s: Seq<char>)
    ensures
        all_words(words_of(s)),
        s.len() > 0 && !white_space(s.last()) ==> words_of(s).len() > 0,
    decreases s.len(),
{
    if s.len() > 0 {
        lemma_words_of_are_words(s.drop_last());
        let w = words_of(s.drop_last());
        let c = s.last();
        if !white_space(c) && s.len() > 1 && !white_space(s[s.len() - 2]) {
            assert(s.drop_last().last() == s[s.len() - 2]);
            let nw = w.last().push(c);
            assert(is_word(nw));
            assert(all_words(w.update(w.len() - 1, nw)));
        }
    }
}

/// A text with no whitespace at all has no word boundaries: it is one word, or none.
pub proof fn lemma_words_of_no_space(s: Seq<char>)
    requires
        forall|i: int| 0 <= i < s.len() ==> !white_space(#[trigger] s[i]),
    ensures
        s.len() == 0 ==> words_of(s) == Seq::<Seq<char>>::empty(),
        s.len() > 0 ==> words_of(s) == seq![s],
    decreases s.len(),
{
    if s.len() > 0 {
        lemma_words_of_no_space(s.drop_last());
        assert(!white_space(s.last()));
        if s.len() > 1 {
            assert(!white_space(s[s.len() - 2]));
            assert(s.drop_last().push(s.last()) =~= s);
            assert(words_of(s) =~= seq![s]);
        } else {
            assert(seq![s.last()] =~= s);
        }
    }
}

/// Splits a text into its words (`str::split_whitespace`).
pub fn split_words(s: &[char]) -> (r: Vec<Vec<char>>)
    ensures
        views(r@) == words_of(s@),
{
    let mut out: Vec<Vec<char>> = Vec::new();
    let mut cur: Vec<char> = Vec::new();
    let mut i: usize = 0;
    while i < s.len()
        invariant
            i <= s.len(),
            cur@.len() > 0 <==> (i > 0 && !white_space(s@[i - 1])),
            words_of(s@.take(i as int)) == (if cur@.len() > 0 {
                views(out@).push(cur@)
            } else {
                views(out@)
            }),
        decreases s.len() - i,
    {
        let c = s[i];
        let ghost before = s@.take(i as int);
        let ghost after = s@.take(i + 1);
        let ghost out0 = views(out@);
        let ghost cur0 = cur@;
        assert(after.drop_last() =~= before);
        assert(after.last() == c);
        if is_whitespace(c) {
            if cur.len() > 0 {
                out.push(cur);
                cur = Vec::new();
                assert(views(out@) =~= out0.push(cur0));
            }
            assert(words_of(after) == words_of(before));
        } else {
            if cur.len() > 0 {
                assert(after[after.len() - 2] == s@[i - 1]);
                cur.push(c);
                let ghost w = out0.push(cur0);
                assert(w.update(w.len() - 1, w.last().push(c)) =~= out0.push(cur@));
            } else {
                cur.push(c);
                assert(cur@ =~= seq![c]);
            }
        }
        i += 1;
    }
    assert(s@.take(s.len() as int) =~= s@);
    if cur.len() > 0 {
        let ghost out0 = views(out@);
        let ghost cur0 = cur@;
        out.push(cur);
        assert(views(out@) =~= out0.push(cur0));
    }
    out
}

/// Joins words with one space each (`[..].join(" ")`).
pub fn join_with_spaces(ws: &[Vec<char>]) -> (r: Vec<char>)
    ensures
        r@ == join_words(views(ws@)),
{
    let mut r: Vec<char> = Vec::new();
    let mut i: usize = 0;
    while i < ws.len()
        invariant
            i <= ws.len(),
            r@ == join_words(views(ws@).take(i as int)),
        decreases ws.len() - i,
    {
        let ghost pre = views(ws@).take(i as int);
        let ghost post = views(ws@).take(i + 1);
        assert(post.drop_last() =~= pre);
        if i > 0 {
            r.push(' ');
        }
        let w = &ws[i];
        let mut k: usize = 0;
        let ghost base = r@;
        while k < w.len()
            invariant
                k <= w.len(),
                r@ == base + w@.take(k as int),
            decreases w.len() - k,
        {
            r.push(w[k]);
            k += 1;
            assert(w@.take(k as int) =~= w@.take(k - 1).push(w@[k - 1]));
            assert(r@ =~= base + w@.take(k as int));
        }
        assert(w@.take(w.len() as int) =~= w@);
        assert(post.last() == w@);
        if i == 0 {
            assert(r@ =~= join_words(post));
        } else {
            assert(r@ =~= join_words(post));
        }
        i += 1;
    }
    assert(views(ws@).take(ws.len() as int) =~= views(ws@));
    r
}

/// A joined run of proper words never holds two spaces in a row and neither
/// begins nor ends with a space.
pub proof fn lemma_join_shape(ws: Seq<Seq<char>>)
    requires
        all_words(ws),
        ws.len() > 0,
    ensures
        join_words(ws).len() > 0,
        join_words(ws)[0] != ' ',
        join_words(ws).last() != ' ',
        forall|j: int|
            0 <= j < join_words(ws).len() - 1 && #[trigger] join_words(ws)[j] == ' ' ==> join_words(
                ws,
            )[j + 1] != ' ',
        forall|j: int|
            0 <= j < join_words(ws).len() && white_space(#[trigger] join_words(ws)[j]) ==> join_words(
                ws,
            )[j] == ' ',
    decreases ws.len(),
{
    assert(white_space(' '));
    if ws.len() == 1 {
        assert(is_word(ws[0]));
        assert forall|j: int| 0 <= j < ws[0].len() implies #[trigger] ws[0][j] != ' ' by {
            assert(!white_space(ws[0][j]));
        }
    } else {
        let init = ws.drop_last();
        assert(all_words(init)) by {
            assert forall|i: int| 0 <= i < init.len() implies is_word(#[trigger] init[i]) by {
                assert(init[i] == ws[i]);
            }
        }
        lemma_join_shape(init);
        let a = join_words(init);
        let w = ws.last();
        assert(is_word(w));
        let j_all = join_words(ws);
        assert(j_all == a + seq![' '] + w);
        assert forall|j: int| 0 <= j < w.len() implies #[trigger] w[j] != ' ' by {
            assert(!white_space(w[j]));
        }
        assert(j_all[0] == a[0]);
        assert(j_all.last() == w.last());
        assert forall|j: int| 0 <= j < j_all.len() - 1 && #[trigger] j_all[j] == ' ' implies j_all[j
            + 1] != ' ' by {
            if j < a.len() - 1 {
                assert(j_all[j] == a[j]);
                assert(j_all[j + 1] == a[j + 1]);
            } else if j == a.len() - 1 {
                assert(j_all[j] == a.last());
            } else if j == a.len() {
                assert(j_all[j + 1] == w[0]);
            } else {
                assert(j_all[j] == w[j - a.len() - 1]);
            }
        }
    }
}

/// The non-whitespace characters of `s`, in order.
pub open spec fn solid(s: Seq<char>) -> Seq<char>
    decreases s.len(),
{
    if s.len() == 0 {
        seq![]
    } else if white_space(s.last()) {
        solid(s.drop_last())
    } else {
        solid(s.drop_last()).push(s.last())
    }
}

/// Pieces of text written one after another, with nothing between them.
pub open spec fn run_together(ws: Seq<Seq<char>>) -> Seq<char>
    decreases ws.len(),
{
    if ws.len() == 0 {
        seq![]
    } else {
        run_together(ws.drop_last()) + ws.last()
    }
}

/// The non-whitespace characters of a concatenation are those of its parts.
pub proof fn lemma_solid_concat(a: Seq<char>, b: Seq<char>)
    ensures
        solid(a + b) == solid(a) + solid(b),
    decreases b.len(),
{
    if b.len() == 0 {
        assert(a + b =~= a);
        assert(solid(a) + solid(b) =~= solid(a));
    } else {
        assert((a + b).drop_last() =~= a + b.drop_last());
        assert((a + b).last() == b.last());
        lemma_solid_concat(a, b.drop_last());
        if !white_space(b.last()) {
            assert(solid(a) + solid(b.drop_last()).push(b.last()) =~= (solid(a) + solid(
                b.drop_last(),
            )).push(b.last()));
        }
    }
}

/// A text without whitespace is all non-whitespace characters.
pub proof fn lemma_solid_no_space(s: Seq<char>)
    requires
        forall|i: int| 0 <= i < s.len() ==> !white_space(#[trigger] s[i]),
    ensures
        solid(s) == s,
    decreases s.len(),
{
    if s.len() > 0 {
        let p = s.drop_last();
        assert forall|i: int| 0 <= i < p.len() implies !white_space(#[trigger] p[i]) by {
            assert(p[i] == s[i]);
        }
        lemma_solid_no_space(p);
        assert(!white_space(s[s.len() - 1]));
        assert(p.push(s.last()) =~= s);
    }
}

/// Run together, the words of a text are its non-whitespace characters.
pub proof fn lemma_solid_words(s: Seq<char>)
    ensures
        solid(s) == run_together(words_of(s)),
    decreases s.len(),
{
    if s.len() > 0 {
        let p = s.drop_last();
        lemma_solid_words(p);
        let w = words_of(p);
        let c = s.last();
        if white_space(c) {
        } else if s.len() > 1 && !white_space(s[s.len() - 2]) {
            assert(p.last() == s[s.len() - 2]);
            lemma_words_of_are_words(p);
            let u = w.update(w.len() - 1, w.last().push(c));
            assert(u.drop_last() =~= w.drop_last());
            assert(u.last() == w.last().push(c));
            assert(run_together(w.drop_last()) + w.last().push(c) =~= (run_together(w.drop_last())
                + w.last()).push(c));
        } else {
            let u = w.push(seq![c]);
            assert(u.drop_last() =~= w);
            assert(run_together(w) + seq![c] =~= run_together(w).push(c));
        }
    }
}

/// Joining proper words with spaces keeps exactly their characters as
/// non-whitespace characters.
pub proof fn lemma_solid_join(ws: Seq<Seq<char>>)
    requires
        all_words(ws),
    ensures
        solid(join_words(ws)) == run_together(ws),
    decreases ws.len(),
{
    if ws.len() == 1 {
        assert(is_word(ws[0]));
        lemma_solid_no_space(ws[0]);
        assert(ws.drop_last() =~= Seq::<Seq<char>>::empty());
        assert(run_together(Seq::<Seq<char>>::empty()) == Seq::<char>::empty());
        assert(run_together(ws) == run_together(ws.drop_last()) + ws.last());
        assert(Seq::<char>::empty() + ws.last() =~= ws[0]);
    } else if ws.len() > 1 {
        let init = ws.drop_last();
        assert(all_words(init)) by {
            assert forall|i: int| 0 <= i < init.len() implies is_word(#[trigger] init[i]) by {
                assert(init[i] == ws[i]);
            }
        }
        lemma_solid_join(init);
        let w = ws.last();
        assert(is_word(w));
        lemma_solid_no_space(w);
        lemma_solid_concat(join_words(init) + seq![' '], w);
        lemma_solid_concat(join_words(init), seq![' ']);
        assert(white_space(' '));
        let sp: Seq<char> = seq![' '];
        assert(sp.len() == 1);
        assert(sp.last() == ' ');
        assert(sp.drop_last() =~= Seq::<char>::empty());
        assert(solid(Seq::<char>::empty()) == Seq::<char>::empty());
        assert(solid(sp) == solid(sp.drop_last()));
        assert(solid(sp) == Seq::<char>::empty());
        assert(solid(join_words(init)) + Seq::<char>::empty() =~= solid(join_words(init)));
        assert(join_words(ws) == join_words(init) + sp + w);
        assert(run_together(ws) == run_together(init) + w);
    }
}

/// Running together a concatenation of pieces runs together each part.
pub proof fn lemma_run_together_concat(a: Seq<Seq<char>>, b: Seq<Seq<char>>)
    ensures
        run_together(a + b) == run_together(a) + run_together(b),
    decreases b.len(),
{
    if b.len() == 0 {
        assert(a + b =~= a);
        assert(run_together(a) + Seq::<char>::empty() =~= run_together(a));
    } else {
        assert((a + b).drop_last() =~= a + b.drop_last());
        assert((a + b).last() == b.last());
        lemma_run_together_concat(a, b.drop_last());
        assert(run_together(a) + run_together(b.drop_last()) + b.last() =~= run_together(a) + (
        run_together(b.drop_last()) + b.last()));
    }
}

proof fn lemma_words_of_append_word(x: Seq<char>, w: Seq<char>)
    requires
        is_word(w),
        x.len() == 0 || white_space(x.last()),
    ensures
        words_of(x + w) == words_of(x).push(w),
    decreases w.len(),
{
    let s = x + w;
    let c = w.last();
    assert(s.last() == c);
    assert(!white_space(w[w.len() - 1]));
    if w.len() == 1 {
        assert(s.drop_last() =~= x);
        assert(seq![c] =~= w);
        if s.len() > 1 {
            assert(s[s.len() - 2] == x.last());
        }
    } else {
        let v = w.drop_last();
        assert(is_word(v)) by {
            assert forall|i: int| 0 <= i < v.len() implies !white_space(#[trigger] v[i]) by {
                assert(v[i] == w[i]);
            }
        }
        lemma_words_of_append_word(x, v);
        assert(s.drop_last() =~= x + v);
        assert(s[s.len() - 2] == w[w.len() - 2]);
        assert(!white_space(w[w.len() - 2]));
        let p = words_of(x).push(v);
        assert(v.push(c) =~= w);
        assert(p.update(p.len() - 1, p.last().push(c)) =~= words_of(x).push(w));
    }
}

/// Splitting proper words joined with spaces gives the words back.
pub proof fn lemma_words_of_join(ws: Seq<Seq<char>>)
    requires
        all_words(ws),
    ensures
        words_of(join_words(ws)) == ws,
    decreases ws.len(),
{
    if ws.len() == 0 {
        assert(words_of(Seq::<char>::empty()) =~= ws);
    } else if ws.len() == 1 {
        assert(is_word(ws[0]));
        lemma_words_of_no_space(ws[0]);
        assert(seq![ws[0]] =~= ws);
    } else {
        let init = ws.drop_last();
        assert(all_words(init)) by {
            assert forall|i: int| 0 <= i < init.len() implies is_word(#[trigger] init[i]) by {
                assert(init[i] == ws[i]);
            }
        }
        lemma_words_of_join(init);
        let x = join_words(init).push(' ');
        assert(white_space(' '));
        assert(join_words(init) + seq![' '] + ws.last() =~= x + ws.last());
        assert(is_word(ws[ws.len() - 1]));
        lemma_words_of_append_word(x, ws.last());
        assert(x.drop_last() =~= join_words(init));
        assert(init.push(ws.last()) =~= ws);
    }
}

} // verus!
