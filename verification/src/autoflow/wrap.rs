//! Word wrapping for the retained serve view: words go on a line while they
//! fit, and a word longer than a line is cut into line-sized pieces.

use vstd::prelude::*;
use vstd::string::*;
use crate::text::{chars_of, is_whitespace, is_ws, slice_chars, string_from_chars};

verus! {

/// Words read so far and the word being read, scanning left to right.
pub open spec fn ws_fold(s: Seq<char>) -> (Seq<Seq<char>>, Seq<char>)
    decreases s.len(),
{
    if s.len() == 0 {
        (Seq::empty(), Seq::empty())
    } else {
        let (done, cur) = ws_fold(s.drop_last());
        let c = s.last();
        if is_ws(c) {
            if cur.len() > 0 {
                (done.push(cur), Seq::empty())
            } else {
                (done, cur)
            }
        } else {
            (done, cur.push(c))
        }
    }
}

/// `str::split_whitespace`: the maximal runs of non-whitespace characters.
pub open spec fn split_ws(s: Seq<char>) -> Seq<Seq<char>> {
    let (done, cur) = ws_fold(s);
    if cur.len() > 0 {
        done.push(cur)
    } else {
        done
    }
}

/// The whitespace-separated words of `s`.
pub fn split_whitespace_chars(s: &[char]) -> (r: Vec<Vec<char>>)
    ensures
        r@.map_values(|w: Vec<char>| w@) == split_ws(s@),
{
    let mut done: Vec<Vec<char>> = Vec::new();
    let mut cur: Vec<char> = Vec::new();
    let mut i: usize = 0;
    while i < s.len()
        invariant
            i <= s@.len(),
            (done@.map_values(|w: Vec<char>| w@), cur@) == ws_fold(s@.subrange(0, i as int)),
        decreases s@.len() - i,
    {
        let c = s[i];
        proof {
            assert(s@.subrange(0, i + 1).drop_last() =~= s@.subrange(0, i as int));
        }
        if is_whitespace(c) {
            if cur.len() > 0 {
                let w = cur;
                done.push(w);
                cur = Vec::new();
                proof {
                    assert(done@.map_values(|w: Vec<char>| w@) =~= ws_fold(s@.subrange(0, i as int)).0.push(w@));
                }
            }
        } else {
            cur.push(c);
        }
        i = i + 1;
    }
    proof {
        assert(s@.subrange(0, s@.len() as int) =~= s@);
    }
    if cur.len() > 0 {
        let w = cur;
        done.push(w);
        proof {
            assert(done@.map_values(|w: Vec<char>| w@) =~= ws_fold(s@).0.push(w@));
        }
    }
    done
}

/// A word cut into pieces of `width` characters: the full pieces, and the
/// rest (at most `width` characters).
pub open spec fn chunks(word: Seq<char>, width: nat) -> (Seq<Seq<char>>, Seq<char>)
    recommends
        width > 0,
    decreases word.len(),
{
    if width == 0 || word.len() <= width {
        (Seq::empty(), word)
    } else {
        let (full, rest) = chunks(word.subrange(width as int, word.len() as int), width);
        (seq![word.subrange(0, width as int)] + full, rest)
    }
}

/// The lines finished and the line being filled, after `words`.
pub open spec fn wrap_fold(words: Seq<Seq<char>>, width: nat) -> (Seq<Seq<char>>, Seq<char>)
    decreases words.len(),
{
    if words.len() == 0 {
        (Seq::empty(), Seq::empty())
    } else {
        let (out, current) = wrap_fold(words.drop_last(), width);
        let word = words.last();
        if current.len() == 0 {
            if word.len() <= width {
                (out, word)
            } else {
                let (full, rest) = chunks(word, width);
                (out + full, rest)
            }
        } else if current.len() + 1 + word.len() <= width {
            (out, current + seq![' '] + word)
        } else if word.len() <= width {
            (out.push(current), word)
        } else {
            let (full, rest) = chunks(word, width);
            (out.push(current) + full, rest)
        }
    }
}

/// The wrapped lines of `text` at `width` characters: at least one line, an
/// empty one where there is nothing to show or no room at all.
pub open spec fn spec_wrap(text: Seq<char>, width: nat) -> Seq<Seq<char>> {
    if width == 0 {
        seq![Seq::empty()]
    } else {
        let (out, current) = wrap_fold(split_ws(text), width);
        let lines = if current.len() > 0 {
            out.push(current)
        } else {
            out
        };
        if lines.len() == 0 {
            seq![Seq::empty()]
        } else {
            lines
        }
    }
}

proof fn lemma_chunks_fit(word: Seq<char>, width: nat)
    requires
        width > 0,
    ensures
        forall|i: int| 0 <= i < chunks(word, width).0.len() ==> (#[trigger] chunks(word, width).0[i]).len() == width,
        chunks(word, width).1.len() <= width,
        word.len() > 0 ==> chunks(word, width).1.len() > 0,
    decreases word.len(),
{
    if word.len() > width {
        lemma_chunks_fit(word.subrange(width as int, word.len() as int), width);
    }
}

/// Cut a word into line-sized pieces.
fn chunk_word(word: &[char], width: usize) -> (r: (Vec<Vec<char>>, Vec<char>))
    requires
        width > 0,
    ensures
        r.0@.map_values(|w: Vec<char>| w@) == chunks(word@, width as nat).0,
        r.1@ == chunks(word@, width as nat).1,
{
    let mut full: Vec<Vec<char>> = Vec::new();
    let mut start: usize = 0;
    let n = word.len();
    proof {
        assert(word@.subrange(0, n as int) =~= word@);
        assert(full@.map_values(|w: Vec<char>| w@) + chunks(word@, width as nat).0 =~= chunks(word@, width as nat).0);
    }
    while n - start > width
        invariant
            start <= n,
            n == word@.len(),
            width > 0,
            full@.map_values(|w: Vec<char>| w@) + chunks(word@.subrange(start as int, n as int), width as nat).0
                == chunks(word@, width as nat).0,
            chunks(word@.subrange(start as int, n as int), width as nat).1 == chunks(word@, width as nat).1,
        decreases n - start,
    {
        let piece = slice_chars(word, start, start + width);
        let ghost rest = word@.subrange(start as int, n as int);
        proof {
            assert(rest.subrange(width as int, rest.len() as int) =~= word@.subrange(start + width, n as int));
            assert(rest.subrange(0, width as int) =~= piece@);
        }
        let ghost before = full@.map_values(|w: Vec<char>| w@);
        full.push(piece);
        proof {
            assert(full@.map_values(|w: Vec<char>| w@) =~= before.push(piece@));
            let (f2, r2) = chunks(word@.subrange(start + width, n as int), width as nat);
            assert(chunks(rest, width as nat).0 =~= seq![piece@] + f2);
            assert(before.push(piece@) + f2 =~= before + (seq![piece@] + f2));
        }
        start = start + width;
    }
    let rest = slice_chars(word, start, n);
    proof {
        assert(chunks(word@.subrange(start as int, n as int), width as nat).0 =~= Seq::<Seq<char>>::empty());
        assert(full@.map_values(|w: Vec<char>| w@) + Seq::<Seq<char>>::empty() =~= full@.map_values(
            |w: Vec<char>| w@,
        ));
    }
    (full, rest)
}

/// Append `more` to `out`.
fn append_lines(out: &mut Vec<Vec<char>>, more: Vec<Vec<char>>)
    ensures
        final(out)@.map_values(|w: Vec<char>| w@) == old(out)@.map_values(|w: Vec<char>| w@) + more@.map_values(
            |w: Vec<char>| w@,
        ),
{
    let ghost pre = out@.map_values(|w: Vec<char>| w@);
    let ghost m = more@.map_values(|w: Vec<char>| w@);
    let mut more = more;
    let total = more.len();
    let mut i: usize = 0;
    proof {
        assert(m.subrange(0, 0) =~= Seq::<Seq<char>>::empty());
        assert(pre + m.subrange(0, 0) =~= pre);
        assert(m.subrange(0, m.len() as int) =~= m);
    }
    while more.len() > 0
        invariant
            m.len() == total,
            i + more@.len() == m.len(),
            out@.map_values(|w: Vec<char>| w@) == pre + m.subrange(0, i as int),
            more@.map_values(|w: Vec<char>| w@) == m.subrange(i as int, m.len() as int),
        decreases more@.len(),
    {
        let ghost rest = more@;
        let w = more.remove(0);
        let ghost before = out@.map_values(|w: Vec<char>| w@);
        proof {
            assert(w@ == m[i as int]) by {
                assert(rest.map_values(|w: Vec<char>| w@)[0] == m.subrange(i as int, m.len() as int)[0]);
            }
            assert(more@.map_values(|w: Vec<char>| w@) =~= m.subrange(i + 1, m.len() as int)) by {
                assert forall|k: int| 0 <= k < more@.len() implies more@[k]@ == m[i + 1 + k] by {
                    assert(more@[k] == rest[k + 1]);
                    assert(rest.map_values(|w: Vec<char>| w@)[k + 1] == m.subrange(i as int, m.len() as int)[k + 1]);
                }
            }
        }
        out.push(w);
        proof {
            assert(out@.map_values(|w: Vec<char>| w@) =~= before.push(m[i as int]));
            assert(m.subrange(0, i + 1) =~= m.subrange(0, i as int).push(m[i as int]));
        }
        i = i + 1;
    }
    proof {
        assert(m.subrange(0, m.len() as int) =~= m);
    }
}

/// Lines of at most `width` characters holding the words of `text`.
pub fn wrap_retained_serve_plain(text: &str, width: usize) -> (r: Vec<String>)
    ensures
        r@.map_values(|s: String| s@) == spec_wrap(text@, width as nat),
{
    if width == 0 {
        let mut out: Vec<String> = Vec::new();
        out.push(String::new());
        proof {
            assert(out@.map_values(|s: String| s@) =~= seq![Seq::<char>::empty()]);
        }
        return out;
    }
    let cs = chars_of(text);
    let words = split_whitespace_chars(cs.as_slice());
    let ghost ws = words@.map_values(|w: Vec<char>| w@);
    let mut out: Vec<Vec<char>> = Vec::new();
    let mut current: Vec<char> = Vec::new();
    let mut i: usize = 0;
    while i < words.len()
        invariant
            i <= words@.len(),
            width > 0,
            ws == words@.map_values(|w: Vec<char>| w@),
            (out@.map_values(|w: Vec<char>| w@), current@) == wrap_fold(ws.subrange(0, i as int), width as nat),
        decreases words@.len() - i,
    {
        let word = words[i].as_slice();
        let wl = word.len();
        let cl = current.len();
        proof {
            assert(ws.subrange(0, i + 1).drop_last() =~= ws.subrange(0, i as int));
            assert(ws.subrange(0, i + 1).last() == word@);
        }
        let ghost pre = out@.map_values(|w: Vec<char>| w@);
        if cl == 0 {
            if wl <= width {
                current = slice_chars(word, 0, wl);
            } else {
                let (full, rest) = chunk_word(word, width);
                append_lines(&mut out, full);
                current = rest;
            }
        } else if wl < width && cl <= width - 1 - wl {
            current.push(' ');
            let mut k: usize = 0;
            let ghost base = current@;
            while k < wl
                invariant
                    k <= wl,
                    wl == word@.len(),
                    current@ == base + word@.subrange(0, k as int),
                decreases wl - k,
            {
                current.push(word[k]);
                proof {
                    assert(word@.subrange(0, k + 1) =~= word@.subrange(0, k as int).push(word@[k as int]));
                }
                k = k + 1;
            }
            proof {
                assert(word@.subrange(0, wl as int) =~= word@);
            }
        } else {
            let line = current;
            out.push(line);
            proof {
                assert(out@.map_values(|w: Vec<char>| w@) =~= pre.push(line@));
            }
            if wl <= width {
                current = slice_chars(word, 0, wl);
            } else {
                let (full, rest) = chunk_word(word, width);
                append_lines(&mut out, full);
                current = rest;
            }
        }
        i = i + 1;
    }
    proof {
        assert(ws.subrange(0, words@.len() as int) =~= ws);
    }
    if current.len() > 0 {
        let line = current;
        let ghost pre = out@.map_values(|w: Vec<char>| w@);
        out.push(line);
        proof {
            assert(out@.map_values(|w: Vec<char>| w@) =~= pre.push(line@));
        }
    }
    let mut lines: Vec<String> = Vec::new();
    let mut j: usize = 0;
    while j < out.len()
        invariant
            j <= out@.len(),
            lines@.map_values(|s: String| s@) == out@.map_values(|w: Vec<char>| w@).subrange(0, j as int),
        decreases out@.len() - j,
    {
        let s = string_from_chars(out[j].as_slice());
        let ghost before = lines@.map_values(|s: String| s@);
        lines.push(s);
        proof {
            assert(lines@.map_values(|s: String| s@) =~= before.push(out@[j as int]@));
            assert(out@.map_values(|w: Vec<char>| w@).subrange(0, j + 1) =~= out@.map_values(|w: Vec<char>| w@).subrange(
                0,
                j as int,
            ).push(out@[j as int]@));
        }
        j = j + 1;
    }
    proof {
        assert(out@.map_values(|w: Vec<char>| w@).subrange(0, out@.len() as int) =~= out@.map_values(|w: Vec<char>| w@));
    }
    if lines.len() == 0 {
        lines.push(String::new());
        proof {
            assert(lines@.map_values(|s: String| s@) =~= seq![Seq::<char>::empty()]);
        }
    }
    lines
}

proof fn lemma_wrap_fold_fits(words: Seq<Seq<char>>, width: nat)
    requires
        width > 0,
    ensures
        forall|i: int| 0 <= i < wrap_fold(words, width).0.len() ==> (#[trigger] wrap_fold(words, width).0[i]).len()
            <= width,
        wrap_fold(words, width).1.len() <= width,
    decreases words.len(),
{
    if words.len() > 0 {
        lemma_wrap_fold_fits(words.drop_last(), width);
        let (out, current) = wrap_fold(words.drop_last(), width);
        let word = words.last();
        lemma_chunks_fit(word, width);
        let (full, rest) = chunks(word, width);
        assert forall|i: int| 0 <= i < (out + full).len() implies (#[trigger] (out + full)[i]).len() <= width by {
            if i >= out.len() {
                assert((out + full)[i] == full[i - out.len()]);
            }
        }
        assert forall|i: int| 0 <= i < (out.push(current) + full).len() implies (#[trigger] (out.push(current)
            + full)[i]).len() <= width by {
            if i > out.len() {
                assert((out.push(current) + full)[i] == full[i - out.len() - 1]);
            } else if i < out.len() {
                assert((out.push(current) + full)[i] == out[i]);
            }
        }
        assert forall|i: int| 0 <= i < out.push(current).len() implies (#[trigger] out.push(current)[i]).len()
            <= width by {
            if i < out.len() {
                assert(out.push(current)[i] == out[i]);
            }
        }
    }
}

/// Every wrapped line fits the width, and there is always a line.
pub proof fn law_wrapped_lines_fit(text: Seq<char>, width: nat)
    requires
        width > 0,
    ensures
        spec_wrap(text, width).len() >= 1,
        forall|i: int| 0 <= i < spec_wrap(text, width).len() ==> (#[trigger] spec_wrap(text, width)[i]).len() <= width,
{
    let (out, current) = wrap_fold(split_ws(text), width);
    lemma_wrap_fold_fits(split_ws(text), width);
    if current.len() > 0 {
        assert forall|i: int| 0 <= i < out.push(current).len() implies (#[trigger] out.push(current)[i]).len()
            <= width by {
            if i < out.len() {
                assert(out.push(current)[i] == out[i]);
            }
        }
    }
}

/// `s` without its whitespace characters.
pub open spec fn strip_ws(s: Seq<char>) -> Seq<char>
    decreases s.len(),
{
    if s.len() == 0 {
        Seq::empty()
    } else if is_ws(s.last()) {
        strip_ws(s.drop_last())
    } else {
        strip_ws(s.drop_last()).push(s.last())
    }
}

/// The pieces of `ss` joined end to end.
pub open spec fn concat_all(ss: Seq<Seq<char>>) -> Seq<char>
    decreases ss.len(),
{
    if ss.len() == 0 {
        Seq::empty()
    } else {
        concat_all(ss.drop_last()) + ss.last()
    }
}

/// The lines of `ss` with their whitespace removed, joined end to end.
pub open spec fn concat_stripped(ss: Seq<Seq<char>>) -> Seq<char>
    decreases ss.len(),
{
    if ss.len() == 0 {
        Seq::empty()
    } else {
        concat_stripped(ss.drop_last()) + strip_ws(ss.last())
    }
}

pub open spec fn no_ws(s: Seq<char>) -> bool {
    forall|i: int| 0 <= i < s.len() ==> !is_ws(#[trigger] s[i])
}

/// Every piece is a non-empty run without whitespace.
pub open spec fn all_words(ss: Seq<Seq<char>>) -> bool {
    forall|i: int| 0 <= i < ss.len() ==> (#[trigger] ss[i]).len() > 0 && no_ws(ss[i])
}

proof fn lemma_strip_concat(a: Seq<char>, b: Seq<char>)
    ensures
        strip_ws(a + b) == strip_ws(a) + strip_ws(b),
    decreases b.len(),
{
    if b.len() == 0 {
        assert(a + b =~= a);
        assert(strip_ws(a) + strip_ws(b) =~= strip_ws(a));
    } else {
        lemma_strip_concat(a, b.drop_last());
        assert((a + b).drop_last() =~= a + b.drop_last());
        assert((a + b).last() == b.last());
        if !is_ws(b.last()) {
            assert(strip_ws(a) + strip_ws(b.drop_last()).push(b.last()) =~= (strip_ws(a) + strip_ws(b.drop_last())).push(
                b.last(),
            ));
        }
    }
}

proof fn lemma_strip_no_ws(s: Seq<char>)
    requires
        no_ws(s),
    ensures
        strip_ws(s) == s,
    decreases s.len(),
{
    if s.len() > 0 {
        assert(no_ws(s.drop_last())) by {
            assert forall|i: int| 0 <= i < s.drop_last().len() implies !is_ws(#[trigger] s.drop_last()[i]) by {
                assert(s.drop_last()[i] == s[i]);
            }
        }
        lemma_strip_no_ws(s.drop_last());
        assert(!is_ws(s[s.len() - 1]));
        assert(s.drop_last().push(s.last()) =~= s);
    }
}

proof fn lemma_concat_all_append(a: Seq<Seq<char>>, b: Seq<Seq<char>>)
    ensures
        concat_all(a + b) == concat_all(a) + concat_all(b),
    decreases b.len(),
{
    if b.len() == 0 {
        assert(a + b =~= a);
        assert(concat_all(a) + concat_all(b) =~= concat_all(a));
    } else {
        lemma_concat_all_append(a, b.drop_last());
        assert((a + b).drop_last() =~= a + b.drop_last());
        assert((a + b).last() == b.last());
        assert(concat_all(a) + concat_all(b.drop_last()) + b.last() =~= concat_all(a) + (concat_all(b.drop_last())
            + b.last()));
    }
}

proof fn lemma_concat_stripped_append(a: Seq<Seq<char>>, b: Seq<Seq<char>>)
    ensures
        concat_stripped(a + b) == concat_stripped(a) + concat_stripped(b),
    decreases b.len(),
{
    if b.len() == 0 {
        assert(a + b =~= a);
        assert(concat_stripped(a) + concat_stripped(b) =~= concat_stripped(a));
    } else {
        lemma_concat_stripped_append(a, b.drop_last());
        assert((a + b).drop_last() =~= a + b.drop_last());
        assert((a + b).last() == b.last());
        assert(concat_stripped(a) + concat_stripped(b.drop_last()) + strip_ws(b.last()) =~= concat_stripped(a) + (
        concat_stripped(b.drop_last()) + strip_ws(b.last())));
    }
}

proof fn lemma_concat_stripped_words(ss: Seq<Seq<char>>)
    requires
        all_words(ss),
    ensures
        concat_stripped(ss) == concat_all(ss),
    decreases ss.len(),
{
    if ss.len() > 0 {
        assert(all_words(ss.drop_last())) by {
            assert forall|i: int| 0 <= i < ss.drop_last().len() implies (#[trigger] ss.drop_last()[i]).len() > 0 && no_ws(
                ss.drop_last()[i],
            ) by {
                assert(ss.drop_last()[i] == ss[i]);
            }
        }
        lemma_concat_stripped_words(ss.drop_last());
        assert(ss[ss.len() - 1] == ss.last());
        lemma_strip_no_ws(ss.last());
    }
}

proof fn lemma_ws_fold(s: Seq<char>)
    ensures
        all_words(ws_fold(s).0),
        no_ws(ws_fold(s).1),
        concat_all(ws_fold(s).0) + ws_fold(s).1 == strip_ws(s),
    decreases s.len(),
{
    if s.len() > 0 {
        lemma_ws_fold(s.drop_last());
        let (d, c) = ws_fold(s.drop_last());
        let x = s.last();
        if is_ws(x) {
            if c.len() > 0 {
                assert(d.push(c).drop_last() =~= d);
                assert(all_words(d.push(c))) by {
                    assert forall|i: int| 0 <= i < d.push(c).len() implies (#[trigger] d.push(c)[i]).len() > 0 && no_ws(
                        d.push(c)[i],
                    ) by {
                        if i < d.len() {
                            assert(d.push(c)[i] == d[i]);
                        }
                    }
                }
                assert(concat_all(d.push(c)) + Seq::<char>::empty() =~= concat_all(d) + c);
                assert(no_ws(Seq::<char>::empty()));
            }
        } else {
            assert(no_ws(c.push(x))) by {
                assert forall|i: int| 0 <= i < c.push(x).len() implies !is_ws(#[trigger] c.push(x)[i]) by {
                    if i < c.len() {
                        assert(c.push(x)[i] == c[i]);
                    }
                }
            }
            assert(concat_all(d) + c.push(x) =~= (concat_all(d) + c).push(x));
        }
    }
}

proof fn lemma_split_ws(s: Seq<char>)
    ensures
        all_words(split_ws(s)),
        concat_all(split_ws(s)) == strip_ws(s),
{
    lemma_ws_fold(s);
    let (d, c) = ws_fold(s);
    if c.len() > 0 {
        assert(d.push(c).drop_last() =~= d);
        assert(all_words(d.push(c))) by {
            assert forall|i: int| 0 <= i < d.push(c).len() implies (#[trigger] d.push(c)[i]).len() > 0 && no_ws(
                d.push(c)[i],
            ) by {
                if i < d.len() {
                    assert(d.push(c)[i] == d[i]);
                }
            }
        }
    } else {
        assert(concat_all(d) + c =~= concat_all(d));
    }
}

proof fn lemma_chunks_words(word: Seq<char>, width: nat)
    requires
        width > 0,
        word.len() > 0,
        no_ws(word),
    ensures
        all_words(chunks(word, width).0),
        chunks(word, width).1.len() > 0,
        no_ws(chunks(word, width).1),
        concat_all(chunks(word, width).0) + chunks(word, width).1 == word,
    decreases word.len(),
{
    if word.len() > width {
        let tail = word.subrange(width as int, word.len() as int);
        let head = word.subrange(0, width as int);
        assert(no_ws(tail)) by {
            assert forall|i: int| 0 <= i < tail.len() implies !is_ws(#[trigger] tail[i]) by {
                assert(tail[i] == word[i + width]);
            }
        }
        assert(no_ws(head)) by {
            assert forall|i: int| 0 <= i < head.len() implies !is_ws(#[trigger] head[i]) by {
                assert(head[i] == word[i]);
            }
        }
        lemma_chunks_words(tail, width);
        let (full, rest) = chunks(tail, width);
        lemma_concat_all_append(seq![head], full);
        assert(concat_all(seq![head]) == head) by {
            assert(seq![head].drop_last() =~= Seq::<Seq<char>>::empty());
            assert(seq![head].last() == head);
            reveal_with_fuel(concat_all, 2);
            assert(Seq::<char>::empty() + head =~= head);
        }
        assert(all_words(seq![head] + full)) by {
            assert forall|i: int| 0 <= i < (seq![head] + full).len() implies (#[trigger] (seq![head] + full)[i]).len() > 0
                && no_ws((seq![head] + full)[i]) by {
                if i > 0 {
                    assert((seq![head] + full)[i] == full[i - 1]);
                }
            }
        }
        assert(head + concat_all(full) + rest =~= head + (concat_all(full) + rest));
        assert(head + tail =~= word);
    }
}

proof fn lemma_wrap_fold_words(words: Seq<Seq<char>>, width: nat)
    requires
        width > 0,
        all_words(words),
    ensures
        all_nonempty(wrap_fold(words, width).0),
        concat_stripped(wrap_fold(words, width).0) + strip_ws(wrap_fold(words, width).1) == concat_all(words),
    decreases words.len(),
{
    if words.len() > 0 {
        assert(all_words(words.drop_last())) by {
            assert forall|i: int| 0 <= i < words.drop_last().len() implies (#[trigger] words.drop_last()[i]).len() > 0
                && no_ws(words.drop_last()[i]) by {
                assert(words.drop_last()[i] == words[i]);
            }
        }
        lemma_wrap_fold_words(words.drop_last(), width);
        let (out, current) = wrap_fold(words.drop_last(), width);
        let word = words.last();
        assert(word == words[words.len() - 1]);
        lemma_strip_no_ws(word);
        lemma_chunks_words(word, width);
        let (full, rest) = chunks(word, width);
        lemma_strip_no_ws(rest);
        lemma_concat_stripped_words(full);
        assert(all_nonempty(full)) by {
            assert forall|i: int| 0 <= i < full.len() implies (#[trigger] full[i]).len() > 0 by {
                assert(full[i].len() > 0 && no_ws(full[i]));
            }
        }
        assert(all_nonempty(seq![current]) <== current.len() > 0) by {
            if current.len() > 0 {
                assert forall|i: int| 0 <= i < seq![current].len() implies (#[trigger] seq![current][i]).len() > 0 by {
                    assert(seq![current][i] == current);
                }
            }
        }
        let pre = concat_stripped(out) + strip_ws(current);
        assert(pre == concat_all(words.drop_last()));
        if current.len() == 0 {
            assert(strip_ws(current) =~= Seq::<char>::empty());
            if word.len() <= width {
                assert(pre + word == concat_all(words));
            } else {
                lemma_concat_stripped_append(out, full);
                lemma_nonempty_append(out, full);
                assert(concat_stripped(out) + concat_all(full) + rest =~= pre + (concat_all(full) + rest));
            }
        } else if current.len() + 1 + word.len() <= width {
            lemma_strip_concat(current + seq![' '], word);
            lemma_strip_concat(current, seq![' ']);
            assert(strip_ws(seq![' ']) =~= Seq::<char>::empty()) by {
                assert(seq![' '].drop_last() =~= Seq::<char>::empty());
                assert(seq![' '].last() == ' ');
                assert(is_ws(' '));
                reveal_with_fuel(strip_ws, 2);
            }
            assert(concat_stripped(out) + (strip_ws(current) + Seq::<char>::empty() + word) =~= pre + word);
        } else {
            lemma_nonempty_append(out, seq![current]);
            assert(out.push(current) =~= out + seq![current]);
            assert(concat_stripped(out.push(current)) == concat_stripped(out) + strip_ws(current)) by {
                assert(out.push(current).drop_last() =~= out);
            }
            if word.len() <= width {
                assert(concat_stripped(out.push(current)) + word == pre + word);
            } else {
                lemma_concat_stripped_append(out.push(current), full);
                lemma_nonempty_append(out.push(current), full);
                assert(concat_stripped(out.push(current)) + concat_all(full) + rest =~= pre + (concat_all(full) + rest));
            }
        }
    }
}

pub open spec fn all_nonempty(ss: Seq<Seq<char>>) -> bool {
    forall|i: int| 0 <= i < ss.len() ==> (#[trigger] ss[i]).len() > 0
}

proof fn lemma_nonempty_append(a: Seq<Seq<char>>, b: Seq<Seq<char>>)
    requires
        all_nonempty(a),
        all_nonempty(b),
    ensures
        all_nonempty(a + b),
{
    assert forall|i: int| 0 <= i < (a + b).len() implies (#[trigger] (a + b)[i]).len() > 0 by {
        if i < a.len() {
            assert((a + b)[i] == a[i]);
        } else {
            assert((a + b)[i] == b[i - a.len()]);
        }
    }
}

/// Wrapping keeps the words and adds none: the wrapped lines with their
/// whitespace removed run together to `text` with its whitespace removed;
/// and no wrapped line is empty unless the whole result is the single empty
/// line.
pub proof fn law_wrap_keeps_words(text: Seq<char>, width: nat)
    requires
        width > 0,
    ensures
        concat_stripped(spec_wrap(text, width)) == strip_ws(text),
        spec_wrap(text, width) == seq![Seq::<char>::empty()] || forall|i: int|
            0 <= i < spec_wrap(text, width).len() ==> (#[trigger] spec_wrap(text, width)[i]).len() >= 1,
{
    lemma_split_ws(text);
    let words = split_ws(text);
    lemma_wrap_fold_words(words, width);
    let (out, current) = wrap_fold(words, width);
    if current.len() > 0 {
        assert(out.push(current).drop_last() =~= out);
        assert forall|i: int| 0 <= i < out.push(current).len() implies (#[trigger] out.push(current)[i]).len() >= 1 by {
            if i < out.len() {
                assert(out.push(current)[i] == out[i]);
            }
        }
    } else {
        assert(strip_ws(current) =~= Seq::<char>::empty());
        assert(concat_stripped(out) + strip_ws(current) =~= concat_stripped(out));
        if out.len() == 0 {
            let e = seq![Seq::<char>::empty()];
            assert(e.drop_last() =~= Seq::<Seq<char>>::empty());
            assert(strip_ws(Seq::<char>::empty()) =~= Seq::<char>::empty());
            assert(concat_stripped(e) =~= Seq::<char>::empty());
        }
    }
}

} // verus!
