use vstd::prelude::*;

use crate::text::{chars_of, push_char, string_of, string_of_range, strings_view};

verus! {

// ---------------------------------------------------------------------------
// Whitespace

/// Unicode's White_Space characters: those `char::is_whitespace` accepts.
pub open spec fn is_space(c: char) -> bool {
    ||| ('\u{9}' <= c && c <= '\u{d}')
    ||| c == ' '
    ||| c == '\u{85}'
    ||| c == '\u{a0}'
    ||| c == '\u{1680}'
    ||| ('\u{2000}' <= c && c <= '\u{200a}')
    ||| c == '\u{2028}'
    ||| c == '\u{2029}'
    ||| c == '\u{202f}'
    ||| c == '\u{205f}'
    ||| c == '\u{3000}'
}

/// Whether `c` is white space.
pub fn space(c: char) -> (r: bool)
    ensures
        r == is_space(c),
{
    ('\u{9}' <= c && c <= '\u{d}') || c == ' ' || c == '\u{85}' || c == '\u{a0}' || c == '\u{1680}'
        || ('\u{2000}' <= c && c <= '\u{200a}') || c == '\u{2028}' || c == '\u{2029}' || c == '\u{202f}'
        || c == '\u{205f}' || c == '\u{3000}'
}

/// `v` without its leading white space.
pub open spec fn trim_start(v: Seq<char>) -> Seq<char>
    decreases v.len(),
{
    if v.len() > 0 && is_space(v[0]) {
        trim_start(v.drop_first())
    } else {
        v
    }
}

/// `v` without its trailing white space.
pub open spec fn trim_end(v: Seq<char>) -> Seq<char>
    decreases v.len(),
{
    if v.len() > 0 && is_space(v.last()) {
        trim_end(v.drop_last())
    } else {
        v
    }
}

/// `v` without white space at either end (`str::trim`).
pub open spec fn trimmed(v: Seq<char>) -> Seq<char> {
    trim_end(trim_start(v))
}

/// `s` without white space at either end.
pub fn trim_text(s: &str) -> (r: String)
    ensures
        r@ == trimmed(s@),
{
    let v = chars_of(s);
    let mut a: usize = 0;
    assert(v@.skip(0) =~= s@);
    while a < v.len() && space(v[a])
        invariant
            v@ == s@,
            a <= v@.len(),
            trim_start(v@.skip(a as int)) == trim_start(s@),
        decreases v.len() - a,
    {
        assert(v@.skip(a as int).drop_first() =~= v@.skip(a + 1));
        a = a + 1;
    }
    assert(trim_start(s@) == v@.skip(a as int));
    let mut b: usize = v.len();
    assert(v@.subrange(a as int, b as int) =~= v@.skip(a as int));
    while b > a && space(v[b - 1])
        invariant
            v@ == s@,
            a <= b <= v@.len(),
            trim_end(v@.subrange(a as int, b as int)) == trimmed(s@),
        decreases b - a,
    {
        assert(v@.subrange(a as int, b as int).drop_last() =~= v@.subrange(a as int, b - 1));
        b = b - 1;
    }
    string_of_range(&v, a, b)
}

/// The value trimmed, or nothing when only white space is left.
pub fn string_or_none(value: &str) -> (r: Option<String>)
    ensures
        trimmed(value@).len() == 0 <==> r is None,
        r matches Some(t) ==> t@ == trimmed(value@),
{
    let t = trim_text(value);
    if t.unicode_len() == 0 {
        None
    } else {
        Some(t)
    }
}

// ---------------------------------------------------------------------------
// Cutting long words

/// `v` cut into pieces of `w` characters, the last one shorter; `v` whole when
/// it fits.
pub open spec fn hard_chunks(v: Seq<char>, w: nat) -> Seq<Seq<char>>
    decreases v.len(),
{
    if v.len() <= w {
        seq![v]
    } else if w == 0 {
        seq![Seq::empty(), v]
    } else {
        seq![v.take(w as int)] + hard_chunks(v.skip(w as int), w)
    }
}

/// The pieces of `s`, one after another.
pub open spec fn joined(s: Seq<Seq<char>>) -> Seq<char>
    decreases s.len(),
{
    if s.len() == 0 {
        Seq::empty()
    } else {
        s[0] + joined(s.drop_first())
    }
}

/// Cutting a word loses and adds nothing, and for a positive width no piece is
/// wider than it.
pub proof fn lemma_hard_chunks(v: Seq<char>, w: nat)
    ensures
        joined(hard_chunks(v, w)) == v,
        w > 0 ==> forall|i: int| 0 <= i < hard_chunks(v, w).len() ==> #[trigger] hard_chunks(v, w)[i].len() <= w,
        hard_chunks(v, w).len() > 0,
    decreases v.len(),
{
    reveal_with_fuel(joined, 3);
    if v.len() <= w {
        assert(seq![v].drop_first() =~= Seq::<Seq<char>>::empty());
        assert(v + Seq::<char>::empty() =~= v);
    } else if w == 0 {
        let s = seq![Seq::<char>::empty(), v];
        assert(s.drop_first() =~= seq![v]);
        assert(seq![v].drop_first() =~= Seq::<Seq<char>>::empty());
        assert(Seq::<char>::empty() + (v + Seq::<char>::empty()) =~= v);
    } else {
        let rest = hard_chunks(v.skip(w as int), w);
        lemma_hard_chunks(v.skip(w as int), w);
        let s = seq![v.take(w as int)] + rest;
        assert(s.drop_first() =~= rest);
        assert(v.take(w as int) + v.skip(w as int) =~= v);
    }
}

/// `value` cut into pieces of at most `width` characters.
pub fn split_text_hard(value: &str, width: usize) -> (r: Vec<String>)
    ensures
        strings_view(r@) == hard_chunks(value@, width as nat),
{
    let v = chars_of(value);
    let n = v.len();
    if n <= width {
        let mut r: Vec<String> = Vec::new();
        r.push(string_of(&v));
        assert(strings_view(r@) =~= seq![value@]);
        return r;
    }
    if width == 0 {
        let mut r: Vec<String> = Vec::new();
        r.push(String::new());
        r.push(string_of(&v));
        assert(strings_view(r@) =~= seq![Seq::<char>::empty(), value@]);
        return r;
    }
    let mut r: Vec<String> = Vec::new();
    let mut i: usize = 0;
    assert(v@.skip(0) =~= v@);
    while i < n && n - i > width
        invariant
            v@ == value@,
            n == v@.len(),
            width > 0,
            i <= n,
            strings_view(r@) + hard_chunks(v@.skip(i as int), width as nat) == hard_chunks(value@, width as nat),
        decreases n - i,
    {
        let piece = string_of_range(&v, i, i + width);
        let ghost rest = v@.skip(i as int);
        assert(rest.take(width as int) =~= piece@);
        assert(rest.skip(width as int) =~= v@.skip(i + width));
        let ghost prev = strings_view(r@);
        r.push(piece);
        assert(strings_view(r@) =~= prev.push(piece@));
        assert(hard_chunks(rest, width as nat) == seq![piece@] + hard_chunks(v@.skip(i + width), width as nat));
        assert(strings_view(r@) + hard_chunks(v@.skip(i + width), width as nat) =~= prev + (seq![piece@] + hard_chunks(v@.skip(i + width), width as nat)));
        i = i + width;
    }
    let last = string_of_range(&v, i, n);
    assert(last@ =~= v@.skip(i as int));
    assert(hard_chunks(v@.skip(i as int), width as nat) == seq![last@]);
    let ghost prev = strings_view(r@);
    r.push(last);
    assert(strings_view(r@) =~= prev + seq![last@]);
    r
}

// ---------------------------------------------------------------------------
// Lines and words

/// `cur` without the `'\r'` of a `"\r\n"` line ending.
pub open spec fn strip_cr(cur: Seq<char>) -> Seq<char> {
    if cur.len() > 0 && cur.last() == '\r' {
        cur.drop_last()
    } else {
        cur
    }
}

/// The lines of `v` after the partial line `cur`: split at `'\n'` or
/// `"\r\n"`, the last line ending optional (`str::lines`).
pub open spec fn lines_from(v: Seq<char>, cur: Seq<char>) -> Seq<Seq<char>>
    decreases v.len(),
{
    if v.len() == 0 {
        if cur.len() > 0 {
            seq![cur]
        } else {
            Seq::empty()
        }
    } else if v[0] == '\n' {
        seq![strip_cr(cur)] + lines_from(v.drop_first(), Seq::empty())
    } else {
        lines_from(v.drop_first(), cur.push(v[0]))
    }
}

/// The lines of `v`.
pub open spec fn text_lines_of(v: Seq<char>) -> Seq<Seq<char>> {
    lines_from(v, Seq::empty())
}

/// The words of `v` after the partial word `cur`: the runs of characters
/// between white space (`str::split_whitespace`).
pub open spec fn words_from(v: Seq<char>, cur: Seq<char>) -> Seq<Seq<char>>
    decreases v.len(),
{
    if v.len() == 0 {
        if cur.len() > 0 {
            seq![cur]
        } else {
            Seq::empty()
        }
    } else if is_space(v[0]) {
        (if cur.len() > 0 {
            seq![cur]
        } else {
            Seq::empty()
        }) + words_from(v.drop_first(), Seq::empty())
    } else {
        words_from(v.drop_first(), cur.push(v[0]))
    }
}

/// The words of `v`.
pub open spec fn words_of(v: Seq<char>) -> Seq<Seq<char>> {
    words_from(v, Seq::empty())
}

/// The lines of `value`.
pub fn text_lines(value: &str) -> (r: Vec<String>)
    ensures
        strings_view(r@) == text_lines_of(value@),
{
    let v = chars_of(value);
    let mut r: Vec<String> = Vec::new();
    let mut start: usize = 0;
    let mut i: usize = 0;
    assert(v@.skip(0) =~= v@);
    assert(v@.subrange(0, 0) =~= Seq::<char>::empty());
    while i < v.len()
        invariant
            v@ == value@,
            start <= i <= v@.len(),
            strings_view(r@) + lines_from(v@.skip(i as int), v@.subrange(start as int, i as int)) == text_lines_of(value@),
        decreases v.len() - i,
    {
        let ghost prev = strings_view(r@);
        let ghost rest = v@.skip(i as int);
        assert(rest.drop_first() =~= v@.skip(i + 1));
        if v[i] == '\n' {
            let mut end = i;
            if end > start && v[end - 1] == '\r' {
                end = end - 1;
            }
            let line = string_of_range(&v, start, end);
            assert(line@ =~= strip_cr(v@.subrange(start as int, i as int)));
            r.push(line);
            assert(strings_view(r@) =~= prev.push(line@));
            assert(v@.subrange(i + 1, i + 1) =~= Seq::<char>::empty());
            assert(strings_view(r@) + lines_from(v@.skip(i + 1), Seq::empty()) =~= prev + (seq![line@] + lines_from(rest.drop_first(), Seq::empty())));
            start = i + 1;
        } else {
            assert(v@.subrange(start as int, i + 1) =~= v@.subrange(start as int, i as int).push(v@[i as int]));
        }
        i = i + 1;
    }
    if start < v.len() {
        let line = string_of_range(&v, start, v.len());
        let ghost prev = strings_view(r@);
        r.push(line);
        assert(strings_view(r@) =~= prev + seq![line@]);
    } else {
        assert(strings_view(r@) =~= strings_view(r@) + Seq::<Seq<char>>::empty());
    }
    r
}

/// The words of `value`.
pub fn text_words(value: &str) -> (r: Vec<String>)
    ensures
        strings_view(r@) == words_of(value@),
{
    let v = chars_of(value);
    let mut r: Vec<String> = Vec::new();
    let mut start: usize = 0;
    let mut i: usize = 0;
    assert(v@.skip(0) =~= v@);
    assert(v@.subrange(0, 0) =~= Seq::<char>::empty());
    while i < v.len()
        invariant
            v@ == value@,
            start <= i <= v@.len(),
            strings_view(r@) + words_from(v@.skip(i as int), v@.subrange(start as int, i as int)) == words_of(value@),
        decreases v.len() - i,
    {
        let ghost prev = strings_view(r@);
        let ghost rest = v@.skip(i as int);
        let ghost cur = v@.subrange(start as int, i as int);
        assert(rest.drop_first() =~= v@.skip(i + 1));
        if space(v[i]) {
            if start < i {
                let word = string_of_range(&v, start, i);
                r.push(word);
                assert(strings_view(r@) =~= prev.push(word@));
                assert(strings_view(r@) + words_from(v@.skip(i + 1), Seq::empty()) =~= prev + (seq![cur] + words_from(rest.drop_first(), Seq::empty())));
            } else {
                assert(cur.len() == 0);
                assert(prev + words_from(v@.skip(i + 1), Seq::empty()) =~= prev + (Seq::<Seq<char>>::empty() + words_from(rest.drop_first(), Seq::empty())));
            }
            assert(v@.subrange(i + 1, i + 1) =~= Seq::<char>::empty());
            start = i + 1;
        } else {
            assert(v@.subrange(start as int, i + 1) =~= cur.push(v@[i as int]));
        }
        i = i + 1;
    }
    if start < v.len() {
        let word = string_of_range(&v, start, v.len());
        let ghost prev = strings_view(r@);
        r.push(word);
        assert(strings_view(r@) =~= prev + seq![word@]);
    } else {
        assert(strings_view(r@) =~= strings_view(r@) + Seq::<Seq<char>>::empty());
    }
    r
}

// ---------------------------------------------------------------------------
// Wrapping text

/// The lines finished so far and the line being filled.
pub type WrapState = (Seq<Seq<char>>, Seq<char>);

/// Adding one piece of a word: it goes on the current line after a space when
/// the line stays within `w`, else it starts a new line.
pub open spec fn chunk_step(st: WrapState, chunk: Seq<char>, w: nat) -> WrapState {
    if st.1.len() > 0 && st.1.len() + 1 + chunk.len() > w {
        (st.0.push(st.1), chunk)
    } else if st.1.len() > 0 {
        (st.0, st.1 + seq![' '] + chunk)
    } else {
        (st.0, chunk)
    }
}

/// Adding the pieces `cs`, one after another.
pub open spec fn chunks_fold(st: WrapState, cs: Seq<Seq<char>>, w: nat) -> WrapState
    decreases cs.len(),
{
    if cs.len() == 0 {
        st
    } else {
        chunk_step(chunks_fold(st, cs.drop_last(), w), cs.last(), w)
    }
}

/// Adding the words `ws`, each cut into pieces no wider than `w`.
pub open spec fn words_fold(st: WrapState, ws: Seq<Seq<char>>, w: nat) -> WrapState
    decreases ws.len(),
{
    if ws.len() == 0 {
        st
    } else {
        chunks_fold(words_fold(st, ws.drop_last(), w), hard_chunks(ws.last(), w), w)
    }
}

/// Adding a paragraph: an empty one is one empty line (none after another
/// empty line), any other is its words wrapped.
pub open spec fn paragraph_step(lines: Seq<Seq<char>>, p: Seq<char>, w: nat) -> Seq<Seq<char>> {
    if p.len() == 0 {
        if lines.len() == 0 || lines.last().len() > 0 {
            lines.push(Seq::empty())
        } else {
            lines
        }
    } else {
        let st = words_fold((lines, Seq::empty()), words_of(p), w);
        if st.1.len() > 0 {
            st.0.push(st.1)
        } else {
            st.0
        }
    }
}

/// Adding the paragraphs `ps`.
pub open spec fn paragraphs_fold(lines: Seq<Seq<char>>, ps: Seq<Seq<char>>, w: nat) -> Seq<Seq<char>>
    decreases ps.len(),
{
    if ps.len() == 0 {
        lines
    } else {
        paragraph_step(paragraphs_fold(lines, ps.drop_last(), w), ps.last(), w)
    }
}

/// `v` wrapped at `w` characters, paragraph by paragraph; one empty line for
/// a text with no line.
pub open spec fn wrapped(v: Seq<char>, w: nat) -> Seq<Seq<char>> {
    let ls = paragraphs_fold(Seq::empty(), text_lines_of(v), w);
    if ls.len() == 0 {
        seq![Seq::empty()]
    } else {
        ls
    }
}

/// `value` wrapped into lines of at most `width` characters, long words cut.
pub fn wrap_text(value: &str, width: usize) -> (r: Vec<String>)
    ensures
        strings_view(r@) == wrapped(value@, width as nat),
{
    let ghost w = width as nat;
    let paragraphs = text_lines(value);
    let ghost ps = strings_view(paragraphs@);
    let mut lines: Vec<String> = Vec::new();
    let mut k: usize = 0;
    assert(ps.take(0) =~= Seq::<Seq<char>>::empty());
    while k < paragraphs.len()
        invariant
            ps == strings_view(paragraphs@),
            ps == text_lines_of(value@),
            w == width as nat,
            k <= paragraphs@.len(),
            strings_view(lines@) == paragraphs_fold(Seq::empty(), ps.take(k as int), w),
        decreases paragraphs.len() - k,
    {
        assert(ps.take(k + 1).drop_last() =~= ps.take(k as int));
        assert(ps.take(k + 1).last() == paragraphs@[k as int]@);
        let paragraph = &paragraphs[k];
        let ghost before = strings_view(lines@);
        if paragraph.unicode_len() == 0 {
            if lines.len() == 0 || lines[lines.len() - 1].unicode_len() > 0 {
                lines.push(String::new());
                assert(strings_view(lines@) =~= before.push(Seq::empty()));
            }
        } else {
            let words = text_words(paragraph.as_str());
            let ghost ws = strings_view(words@);
            let mut current = String::new();
            let mut j: usize = 0;
            assert(ws.take(0) =~= Seq::<Seq<char>>::empty());
            while j < words.len()
                invariant
                    ws == strings_view(words@),
                    w == width as nat,
                    j <= words@.len(),
                    (strings_view(lines@), current@) == words_fold((before, Seq::empty()), ws.take(j as int), w),
                decreases words.len() - j,
            {
                assert(ws.take(j + 1).drop_last() =~= ws.take(j as int));
                assert(ws.take(j + 1).last() == words@[j as int]@);
                let chunks = split_text_hard(words[j].as_str(), width);
                let ghost cs = strings_view(chunks@);
                let ghost start = (strings_view(lines@), current@);
                let mut m: usize = 0;
                assert(cs.take(0) =~= Seq::<Seq<char>>::empty());
                while m < chunks.len()
                    invariant
                        cs == strings_view(chunks@),
                        w == width as nat,
                        m <= chunks@.len(),
                        (strings_view(lines@), current@) == chunks_fold(start, cs.take(m as int), w),
                    decreases chunks.len() - m,
                {
                    assert(cs.take(m + 1).drop_last() =~= cs.take(m as int));
                    assert(cs.take(m + 1).last() == chunks@[m as int]@);
                    let chunk = &chunks[m];
                    let cur_len = current.unicode_len();
                    let chunk_len = chunk.unicode_len();
                    let too_long = chunk_len >= width || cur_len >= width - chunk_len;
                    assert(too_long == (cur_len + 1 + chunk_len > width));
                    let ghost prev = strings_view(lines@);
                    if cur_len > 0 && too_long {
                        let finished = current;
                        lines.push(finished);
                        assert(strings_view(lines@) =~= prev.push(finished@));
                        current = chunk.clone();
                    } else if cur_len > 0 {
                        push_char(&mut current, ' ');
                        current.append(chunk.as_str());
                    } else {
                        current = chunk.clone();
                    }
                    m = m + 1;
                }
                assert(cs.take(cs.len() as int) =~= cs);
                j = j + 1;
            }
            assert(ws.take(ws.len() as int) =~= ws);
            if current.unicode_len() > 0 {
                let ghost prev = strings_view(lines@);
                lines.push(current);
                assert(strings_view(lines@) =~= prev.push(current@));
            }
        }
        k = k + 1;
    }
    assert(ps.take(ps.len() as int) =~= ps);
    if lines.len() == 0 {
        lines.push(String::new());
        assert(strings_view(lines@) =~= seq![Seq::<char>::empty()]);
    }
    lines
}

/// Every line of `lines` is at most `w` characters long.
pub open spec fn all_fit(lines: Seq<Seq<char>>, w: nat) -> bool {
    forall|i: int| 0 <= i < lines.len() ==> #[trigger] lines[i].len() <= w
}

proof fn lemma_chunks_fold_fit(st: WrapState, cs: Seq<Seq<char>>, w: nat)
    requires
        all_fit(st.0, w),
        st.1.len() <= w,
        all_fit(cs, w),
    ensures
        all_fit(chunks_fold(st, cs, w).0, w),
        chunks_fold(st, cs, w).1.len() <= w,
    decreases cs.len(),
{
    if cs.len() > 0 {
        assert(all_fit(cs.drop_last(), w)) by {
            assert forall|i: int| 0 <= i < cs.drop_last().len() implies #[trigger] cs.drop_last()[i].len() <= w by {
                assert(cs.drop_last()[i] == cs[i]);
            }
        }
        lemma_chunks_fold_fit(st, cs.drop_last(), w);
        assert(cs.last() == cs[cs.len() - 1]);
        let mid = chunks_fold(st, cs.drop_last(), w);
        if mid.1.len() > 0 && mid.1.len() + 1 + cs.last().len() > w {
            assert(all_fit(mid.0.push(mid.1), w)) by {
                assert forall|i: int| 0 <= i < mid.0.push(mid.1).len() implies #[trigger] mid.0.push(mid.1)[i].len() <= w by {
                    if i < mid.0.len() {
                        assert(mid.0.push(mid.1)[i] == mid.0[i]);
                    }
                }
            }
        }
    }
}

proof fn lemma_words_fold_fit(st: WrapState, ws: Seq<Seq<char>>, w: nat)
    requires
        w > 0,
        all_fit(st.0, w),
        st.1.len() <= w,
    ensures
        all_fit(words_fold(st, ws, w).0, w),
        words_fold(st, ws, w).1.len() <= w,
    decreases ws.len(),
{
    if ws.len() > 0 {
        lemma_words_fold_fit(st, ws.drop_last(), w);
        lemma_hard_chunks(ws.last(), w);
        lemma_chunks_fold_fit(words_fold(st, ws.drop_last(), w), hard_chunks(ws.last(), w), w);
    }
}

proof fn lemma_paragraphs_fold_fit(lines: Seq<Seq<char>>, ps: Seq<Seq<char>>, w: nat)
    requires
        w > 0,
        all_fit(lines, w),
    ensures
        all_fit(paragraphs_fold(lines, ps, w), w),
    decreases ps.len(),
{
    if ps.len() > 0 {
        lemma_paragraphs_fold_fit(lines, ps.drop_last(), w);
        let before = paragraphs_fold(lines, ps.drop_last(), w);
        let p = ps.last();
        if p.len() == 0 {
            assert forall|i: int| 0 <= i < before.push(Seq::<char>::empty()).len() implies #[trigger] before.push(Seq::<char>::empty())[i].len() <= w by {
                if i < before.len() {
                    assert(before.push(Seq::<char>::empty())[i] == before[i]);
                }
            }
        } else {
            lemma_words_fold_fit((before, Seq::empty()), words_of(p), w);
            let st = words_fold((before, Seq::empty()), words_of(p), w);
            assert forall|i: int| 0 <= i < st.0.push(st.1).len() implies #[trigger] st.0.push(st.1)[i].len() <= w by {
                if i < st.0.len() {
                    assert(st.0.push(st.1)[i] == st.0[i]);
                }
            }
        }
    }
}

/// Wrapping at a positive width gives no line wider than that width, and at
/// least one line.
pub proof fn lemma_wrapped_fits(v: Seq<char>, w: nat)
    requires
        w > 0,
    ensures
        all_fit(wrapped(v, w), w),
        wrapped(v, w).len() > 0,
{
    lemma_paragraphs_fold_fit(Seq::empty(), text_lines_of(v), w);
}

// ---------------------------------------------------------------------------
// Boxes and fields of the `info` card

/// The width of the card, frame included.
pub const INFO_WIDTH: usize = 64;

/// The width inside the frame.
pub const INFO_INNER_WIDTH: usize = INFO_WIDTH - 2;

/// The width labels are padded to.
pub const INFO_LABEL_WIDTH: usize = 14;

/// `n` copies of `c`.
pub open spec fn repeated(c: char, n: nat) -> Seq<char> {
    Seq::new(n, |i: int| c)
}

/// A string of `n` copies of `c`.
pub fn repeat_char(c: char, n: usize) -> (r: String)
    ensures
        r@ == repeated(c, n as nat),
{
    let mut r = String::new();
    let mut i: usize = 0;
    while i < n
        invariant
            i <= n,
            r@ == repeated(c, i as nat),
        decreases n - i,
    {
        push_char(&mut r, c);
        i = i + 1;
        assert(r@ =~= repeated(c, i as nat));
    }
    r
}

/// The top line of the title box.
pub open spec fn box_top_text() -> Seq<char> {
    seq!['╭'] + repeated('─', INFO_INNER_WIDTH as nat) + seq!['╮']
}

/// The bottom line of a box.
pub open spec fn box_bottom_text() -> Seq<char> {
    seq!['╰'] + repeated('─', INFO_INNER_WIDTH as nat) + seq!['╯']
}

/// The top line of a section box with its title.
pub open spec fn section_top_text(title: Seq<char>) -> Seq<char> {
    let prefix = "╭─ "@ + title + " "@;
    prefix + repeated('─', (INFO_WIDTH - prefix.len() - 1) as nat) + seq!['╮']
}

/// The top line of the title box.
pub fn plain_box_top() -> (r: String)
    ensures
        r@ == box_top_text(),
{
    let mut r = String::new();
    push_char(&mut r, '╭');
    let fill = repeat_char('─', INFO_INNER_WIDTH);
    r.append(fill.as_str());
    push_char(&mut r, '╮');
    r
}

/// The bottom line of the title box.
pub fn plain_box_bottom() -> (r: String)
    ensures
        r@ == box_bottom_text(),
{
    let mut r = String::new();
    push_char(&mut r, '╰');
    let fill = repeat_char('─', INFO_INNER_WIDTH);
    r.append(fill.as_str());
    push_char(&mut r, '╯');
    r
}

/// The top line of a section box: the title, then the frame up to the width.
pub fn section_top(title: &str) -> (r: String)
    requires
        title@.len() + 5 <= INFO_WIDTH,
    ensures
        r@ == section_top_text(title@),
        r@.len() == INFO_WIDTH,
{
    proof {
        reveal_strlit("╭─ ");
        reveal_strlit(" ");
    }
    let mut prefix = String::new();
    prefix.append("╭─ ");
    prefix.append(title);
    prefix.append(" ");
    let fill = repeat_char('─', INFO_WIDTH - prefix.unicode_len() - 1);
    let mut r = prefix;
    r.append(fill.as_str());
    push_char(&mut r, '╮');
    r
}

/// The bottom line of a section box.
pub fn section_bottom() -> (r: String)
    ensures
        r@ == box_bottom_text(),
{
    plain_box_bottom()
}

/// `label` padded with spaces to `n` characters (a longer label is kept whole).
pub open spec fn padded(label: Seq<char>, n: nat) -> Seq<char> {
    if label.len() < n {
        label + repeated(' ', (n - label.len()) as nat)
    } else {
        label
    }
}

/// A field on one line: the padded label, the value, then two spaces and the
/// suffix where there is one.
pub open spec fn single_line_field(label: Seq<char>, value: Seq<char>, suffix: Option<Seq<char>>) -> Seq<char> {
    let line = "  "@ + padded(label, INFO_LABEL_WIDTH as nat) + value;
    match suffix {
        Some(s) => line + "  "@ + s,
        None => line,
    }
}

/// The width a field value is wrapped to.
pub open spec fn field_value_width() -> nat {
    (INFO_WIDTH - 2 - INFO_LABEL_WIDTH - 2) as nat
}

/// A wrapped field: the label beside the first line, the other lines under
/// the first.
pub open spec fn wrapped_field(label: Seq<char>, value: Seq<char>) -> Seq<Seq<char>> {
    let ws = wrapped(value, field_value_width());
    if ws.len() == 0 {
        seq!["  "@ + padded(label, INFO_LABEL_WIDTH as nat)]
    } else {
        Seq::new(ws.len(), |i: int| if i == 0 {
            "  "@ + padded(label, INFO_LABEL_WIDTH as nat) + ws[0]
        } else {
            "  "@ + repeated(' ', INFO_LABEL_WIDTH as nat) + ws[i]
        })
    }
}

/// `label` padded to the label width.
pub fn pad_label(label: &str) -> (r: String)
    ensures
        r@ == padded(label@, INFO_LABEL_WIDTH as nat),
{
    let n = label.unicode_len();
    let mut r = String::new();
    r.append(label);
    if n < INFO_LABEL_WIDTH {
        let fill = repeat_char(' ', INFO_LABEL_WIDTH - n);
        r.append(fill.as_str());
    }
    r
}

/// Appends a field on one line.
pub fn push_single_line_field(lines: &mut Vec<String>, label: &str, value: &str, suffix: Option<&str>)
    ensures
        strings_view(final(lines)@) == strings_view(old(lines)@).push(
            single_line_field(label@, value@, match suffix { Some(s) => Some(s@), None => None }),
        ),
{
    proof {
        reveal_strlit("  ");
    }
    let mut line = String::new();
    line.append("  ");
    let padded_label = pad_label(label);
    line.append(padded_label.as_str());
    line.append(value);
    if let Some(suffix) = suffix {
        line.append("  ");
        line.append(suffix);
    }
    let ghost prev = strings_view(lines@);
    lines.push(line);
    assert(strings_view(lines@) =~= prev.push(line@));
}

/// Appends a field whose value is wrapped beside and under its label.
pub fn push_wrapped_field(lines: &mut Vec<String>, label: &str, value: &str)
    ensures
        strings_view(final(lines)@) == strings_view(old(lines)@) + wrapped_field(label@, value@),
{
    proof {
        reveal_strlit("  ");
    }
    let ws = wrap_text(value, INFO_WIDTH - 2 - INFO_LABEL_WIDTH - 2);
    let ghost wv = strings_view(ws@);
    let ghost start = strings_view(lines@);
    let padded_label = pad_label(label);
    if ws.len() == 0 {
        let mut line = String::new();
        line.append("  ");
        line.append(padded_label.as_str());
        lines.push(line);
        assert(strings_view(lines@) =~= start + wrapped_field(label@, value@));
        return;
    }
    let blank = repeat_char(' ', INFO_LABEL_WIDTH);
    let mut i: usize = 0;
    while i < ws.len()
        invariant
            wv == strings_view(ws@),
            wv == wrapped(value@, field_value_width()),
            wv.len() > 0,
            i <= ws@.len(),
            padded_label@ == padded(label@, INFO_LABEL_WIDTH as nat),
            blank@ == repeated(' ', INFO_LABEL_WIDTH as nat),
            strings_view(lines@) == start + wrapped_field(label@, value@).take(i as int),
        decreases ws.len() - i,
    {
        let mut line = String::new();
        line.append("  ");
        if i == 0 {
            line.append(padded_label.as_str());
        } else {
            line.append(blank.as_str());
        }
        line.append(ws[i].as_str());
        let ghost prev = strings_view(lines@);
        lines.push(line);
        assert(line@ == wrapped_field(label@, value@)[i as int]);
        assert(wrapped_field(label@, value@).take(i + 1) =~= wrapped_field(label@, value@).take(i as int).push(line@));
        assert(strings_view(lines@) =~= prev.push(line@));
        i = i + 1;
    }
    assert(wrapped_field(label@, value@).take(wv.len() as int) =~= wrapped_field(label@, value@));
}

/// Adding one token to a line of tokens that starts with `ind` and separates
/// tokens by `gap`: a line that would grow past the card's width is finished
/// and the token starts the next one.
pub open spec fn token_step(st: WrapState, t: Seq<char>, ind: Seq<char>, gap: Seq<char>) -> WrapState {
    let cur = st.1;
    let candidate = if trimmed(cur).len() == 0 {
        ind + t
    } else {
        cur + gap + t
    };
    if cur != ind && candidate.len() > INFO_WIDTH {
        (st.0.push(cur), ind + t)
    } else if cur == ind {
        (st.0, cur + t)
    } else {
        (st.0, cur + gap + t)
    }
}

/// Adding the tokens `ts`, one after another.
pub open spec fn tokens_fold(st: WrapState, ts: Seq<Seq<char>>, ind: Seq<char>, gap: Seq<char>) -> WrapState
    decreases ts.len(),
{
    if ts.len() == 0 {
        st
    } else {
        token_step(tokens_fold(st, ts.drop_last(), ind, gap), ts.last(), ind, gap)
    }
}

/// The tokens laid out in lines indented by `indent` spaces, `gap` spaces
/// apart.
pub open spec fn wrapped_tokens(ts: Seq<Seq<char>>, indent: nat, gap: nat) -> Seq<Seq<char>> {
    let ind = repeated(' ', indent);
    let st = tokens_fold((Seq::empty(), ind), ts, ind, repeated(' ', gap));
    if st.1 != ind {
        st.0.push(st.1)
    } else {
        st.0
    }
}

/// Lays out `tokens` in indented lines that keep within the card's width.
pub fn wrap_tokens(tokens: &Vec<String>, indent: usize, gap: usize) -> (r: Vec<String>)
    ensures
        strings_view(r@) == wrapped_tokens(strings_view(tokens@), indent as nat, gap as nat),
{
    let ghost ts = strings_view(tokens@);
    let ghost ind = repeated(' ', indent as nat);
    let ghost g = repeated(' ', gap as nat);
    let indent_str = repeat_char(' ', indent);
    let gap_str = repeat_char(' ', gap);
    let mut lines: Vec<String> = Vec::new();
    let mut current = indent_str.clone();
    let mut i: usize = 0;
    assert(ts.take(0) =~= Seq::<Seq<char>>::empty());
    while i < tokens.len()
        invariant
            ts == strings_view(tokens@),
            indent_str@ == ind,
            gap_str@ == g,
            ind == repeated(' ', indent as nat),
            g == repeated(' ', gap as nat),
            i <= tokens@.len(),
            (strings_view(lines@), current@) == tokens_fold((Seq::empty(), ind), ts.take(i as int), ind, g),
        decreases tokens.len() - i,
    {
        assert(ts.take(i + 1).drop_last() =~= ts.take(i as int));
        assert(ts.take(i + 1).last() == tokens@[i as int]@);
        let token = &tokens[i];
        let blank = trim_text(current.as_str()).unicode_len() == 0;
        let cand_len = if blank {
            indent.saturating_add(token.unicode_len())
        } else {
            current.unicode_len().saturating_add(gap).saturating_add(token.unicode_len())
        };
        let at_indent = crate::text::str_eq(current.as_str(), indent_str.as_str());
        let ghost prev = strings_view(lines@);
        if !at_indent && cand_len > INFO_WIDTH {
            let finished = current;
            lines.push(finished);
            assert(strings_view(lines@) =~= prev.push(finished@));
            let mut next = indent_str.clone();
            next.append(token.as_str());
            current = next;
        } else if at_indent {
            current.append(token.as_str());
        } else {
            current.append(gap_str.as_str());
            current.append(token.as_str());
        }
        i = i + 1;
    }
    assert(ts.take(ts.len() as int) =~= ts);
    if !crate::text::str_eq(current.as_str(), indent_str.as_str()) {
        let ghost prev = strings_view(lines@);
        lines.push(current);
        assert(strings_view(lines@) =~= prev.push(current@));
    }
    lines
}

// ---------------------------------------------------------------------------
// Wrapping keeps the text

/// The characters of `v` that are not white space, in order.
pub open spec fn non_space(v: Seq<char>) -> Seq<char>
    decreases v.len(),
{
    if v.len() == 0 {
        Seq::empty()
    } else {
        (if is_space(v[0]) {
            Seq::empty()
        } else {
            seq![v[0]]
        }) + non_space(v.drop_first())
    }
}

proof fn lemma_non_space_concat(a: Seq<char>, b: Seq<char>)
    ensures
        non_space(a + b) == non_space(a) + non_space(b),
    decreases a.len(),
{
    if a.len() == 0 {
        assert(a + b =~= b);
        assert(non_space(a) + non_space(b) =~= non_space(b));
    } else {
        lemma_non_space_concat(a.drop_first(), b);
        assert((a + b).drop_first() =~= a.drop_first() + b);
        assert((a + b)[0] == a[0]);
        let h: Seq<char> = if is_space(a[0]) { Seq::empty() } else { seq![a[0]] };
        assert(h + (non_space(a.drop_first()) + non_space(b)) =~= (h + non_space(a.drop_first())) + non_space(b));
    }
}

proof fn lemma_non_space_single(c: char)
    ensures
        non_space(seq![c]) == (if is_space(c) { Seq::<char>::empty() } else { seq![c] }),
{
    reveal_with_fuel(non_space, 2);
    assert(seq![c].drop_first() =~= Seq::<char>::empty());
    assert(seq![c][0] == c);
    let h: Seq<char> = if is_space(c) { Seq::empty() } else { seq![c] };
    assert(h + Seq::<char>::empty() =~= h);
}

proof fn lemma_joined_push(s: Seq<Seq<char>>, x: Seq<char>)
    ensures
        joined(s.push(x)) == joined(s) + x,
    decreases s.len(),
{
    if s.len() == 0 {
        reveal_with_fuel(joined, 2);
        assert(s.push(x) =~= seq![x]);
        assert(seq![x].drop_first() =~= Seq::<Seq<char>>::empty());
        assert(x + Seq::<char>::empty() =~= x);
        assert(Seq::<char>::empty() + x =~= x);
    } else {
        lemma_joined_push(s.drop_first(), x);
        assert(s.push(x).drop_first() =~= s.drop_first().push(x));
        assert(s.push(x)[0] == s[0]);
        assert(s[0] + (joined(s.drop_first()) + x) =~= (s[0] + joined(s.drop_first())) + x);
    }
}

proof fn lemma_joined_cons(x: Seq<char>, s: Seq<Seq<char>>)
    ensures
        joined(seq![x] + s) == x + joined(s),
{
    assert((seq![x] + s).drop_first() =~= s);
    assert((seq![x] + s)[0] == x);
}

/// What a wrap state holds of the text, white space aside.
pub open spec fn kept_text(st: WrapState) -> Seq<char> {
    non_space(joined(st.0)) + non_space(st.1)
}

proof fn lemma_chunk_step_keeps(st: WrapState, c: Seq<char>, w: nat)
    ensures
        kept_text(chunk_step(st, c, w)) == kept_text(st) + non_space(c),
{
    let lines = st.0;
    let cur = st.1;
    if cur.len() > 0 && cur.len() + 1 + c.len() > w {
        lemma_joined_push(lines, cur);
        lemma_non_space_concat(joined(lines), cur);
    } else if cur.len() > 0 {
        lemma_non_space_concat(cur + seq![' '], c);
        lemma_non_space_concat(cur, seq![' ']);
        lemma_non_space_single(' ');
        assert(non_space(cur) + Seq::<char>::empty() =~= non_space(cur));
    } else {
        assert(cur =~= Seq::<char>::empty());
        assert(non_space(cur) =~= Seq::<char>::empty());
    }
}

proof fn lemma_chunks_fold_keeps(st: WrapState, cs: Seq<Seq<char>>, w: nat)
    ensures
        kept_text(chunks_fold(st, cs, w)) == kept_text(st) + non_space(joined(cs)),
    decreases cs.len(),
{
    if cs.len() == 0 {
        assert(non_space(joined(cs)) =~= Seq::<char>::empty());
        assert(kept_text(st) + Seq::<char>::empty() =~= kept_text(st));
    } else {
        let init = cs.drop_last();
        lemma_chunks_fold_keeps(st, init, w);
        lemma_chunk_step_keeps(chunks_fold(st, init, w), cs.last(), w);
        assert(init.push(cs.last()) =~= cs);
        lemma_joined_push(init, cs.last());
        lemma_non_space_concat(joined(init), cs.last());
    }
}

proof fn lemma_words_fold_keeps(st: WrapState, ws: Seq<Seq<char>>, w: nat)
    ensures
        kept_text(words_fold(st, ws, w)) == kept_text(st) + non_space(joined(ws)),
    decreases ws.len(),
{
    if ws.len() == 0 {
        assert(non_space(joined(ws)) =~= Seq::<char>::empty());
        assert(kept_text(st) + Seq::<char>::empty() =~= kept_text(st));
    } else {
        let init = ws.drop_last();
        lemma_words_fold_keeps(st, init, w);
        lemma_hard_chunks(ws.last(), w);
        lemma_chunks_fold_keeps(words_fold(st, init, w), hard_chunks(ws.last(), w), w);
        assert(init.push(ws.last()) =~= ws);
        lemma_joined_push(init, ws.last());
        lemma_non_space_concat(joined(init), ws.last());
    }
}

proof fn lemma_words_from_keeps(v: Seq<char>, cur: Seq<char>)
    ensures
        non_space(joined(words_from(v, cur))) == non_space(cur) + non_space(v),
    decreases v.len(),
{
    if v.len() == 0 {
        if cur.len() > 0 {
            lemma_joined_cons(cur, Seq::empty());
            assert(seq![cur] + Seq::<Seq<char>>::empty() =~= seq![cur]);
            assert(cur + Seq::<char>::empty() =~= cur);
        } else {
            assert(cur =~= Seq::<char>::empty());
        }
        assert(non_space(cur) + Seq::<char>::empty() =~= non_space(cur));
    } else if is_space(v[0]) {
        lemma_words_from_keeps(v.drop_first(), Seq::empty());
        let rest = words_from(v.drop_first(), Seq::empty());
        if cur.len() > 0 {
            lemma_joined_cons(cur, rest);
            lemma_non_space_concat(cur, joined(rest));
        } else {
            assert(Seq::<Seq<char>>::empty() + rest =~= rest);
            assert(cur =~= Seq::<char>::empty());
        }
        assert(Seq::<char>::empty() + non_space(v.drop_first()) =~= non_space(v.drop_first()));
        let h: Seq<char> = Seq::empty();
        assert(non_space(v) == h + non_space(v.drop_first()));
    } else {
        lemma_words_from_keeps(v.drop_first(), cur.push(v[0]));
        assert(cur.push(v[0]) =~= cur + seq![v[0]]);
        lemma_non_space_concat(cur, seq![v[0]]);
        lemma_non_space_single(v[0]);
        assert(non_space(v) == seq![v[0]] + non_space(v.drop_first()));
        assert(non_space(cur) + seq![v[0]] + non_space(v.drop_first()) =~= non_space(cur) + (seq![v[0]] + non_space(v.drop_first())));
    }
}

proof fn lemma_paragraphs_fold_keeps(lines: Seq<Seq<char>>, ps: Seq<Seq<char>>, w: nat)
    ensures
        non_space(joined(paragraphs_fold(lines, ps, w))) == non_space(joined(lines)) + non_space(joined(ps)),
    decreases ps.len(),
{
    if ps.len() == 0 {
        assert(non_space(joined(ps)) =~= Seq::<char>::empty());
        assert(non_space(joined(lines)) + Seq::<char>::empty() =~= non_space(joined(lines)));
    } else {
        let init = ps.drop_last();
        let p = ps.last();
        lemma_paragraphs_fold_keeps(lines, init, w);
        let before = paragraphs_fold(lines, init, w);
        assert(init.push(p) =~= ps);
        lemma_joined_push(init, p);
        lemma_non_space_concat(joined(init), p);
        if p.len() == 0 {
            assert(non_space(p) =~= Seq::<char>::empty());
            lemma_joined_push(before, Seq::empty());
            assert(joined(before) + Seq::<char>::empty() =~= joined(before));
        } else {
            let st0: WrapState = (before, Seq::empty());
            lemma_words_fold_keeps(st0, words_of(p), w);
            lemma_words_from_keeps(p, Seq::empty());
            assert(non_space(Seq::<char>::empty()) =~= Seq::<char>::empty());
            assert(kept_text(st0) =~= non_space(joined(before)));
            let st = words_fold(st0, words_of(p), w);
            if st.1.len() > 0 {
                lemma_joined_push(st.0, st.1);
                lemma_non_space_concat(joined(st.0), st.1);
            } else {
                assert(st.1 =~= Seq::<char>::empty());
                assert(non_space(joined(st.0)) + non_space(st.1) =~= non_space(joined(st.0)));
            }
        }
        assert(non_space(joined(lines)) + non_space(joined(init)) + non_space(p) =~= non_space(joined(lines)) + (non_space(joined(init)) + non_space(p)));
    }
}

proof fn lemma_lines_from_keeps(v: Seq<char>, cur: Seq<char>)
    ensures
        non_space(joined(lines_from(v, cur))) == non_space(cur) + non_space(v),
    decreases v.len(),
{
    if v.len() == 0 {
        if cur.len() > 0 {
            lemma_joined_cons(cur, Seq::empty());
            assert(seq![cur] + Seq::<Seq<char>>::empty() =~= seq![cur]);
            assert(cur + Seq::<char>::empty() =~= cur);
        } else {
            assert(cur =~= Seq::<char>::empty());
        }
        assert(non_space(cur) + Seq::<char>::empty() =~= non_space(cur));
    } else if v[0] == '\n' {
        lemma_lines_from_keeps(v.drop_first(), Seq::empty());
        let rest = lines_from(v.drop_first(), Seq::empty());
        lemma_joined_cons(strip_cr(cur), rest);
        lemma_non_space_concat(strip_cr(cur), joined(rest));
        if cur.len() > 0 && cur.last() == '\r' {
            assert(cur =~= cur.drop_last() + seq!['\r']);
            lemma_non_space_concat(cur.drop_last(), seq!['\r']);
            lemma_non_space_single('\r');
            assert(non_space(cur.drop_last()) + Seq::<char>::empty() =~= non_space(cur.drop_last()));
        }
        assert(is_space('\n'));
        assert(Seq::<char>::empty() + non_space(v.drop_first()) =~= non_space(v.drop_first()));
        let h: Seq<char> = Seq::empty();
        assert(non_space(v) == h + non_space(v.drop_first()));
    } else {
        lemma_lines_from_keeps(v.drop_first(), cur.push(v[0]));
        assert(cur.push(v[0]) =~= cur + seq![v[0]]);
        lemma_non_space_concat(cur, seq![v[0]]);
        lemma_non_space_single(v[0]);
        assert(non_space(cur) + non_space(seq![v[0]]) + non_space(v.drop_first()) =~= non_space(cur) + (non_space(seq![v[0]]) + non_space(v.drop_first())));
        assert(non_space(v) == non_space(seq![v[0]]) + non_space(v.drop_first()));
    }
}

/// Wrapping loses, adds and reorders nothing but white space: the
/// characters of the lines, white space aside, are those of the text.
pub proof fn law_wrapping_keeps_the_text(v: Seq<char>, w: nat)
    ensures
        non_space(joined(wrapped(v, w))) == non_space(v),
{
    lemma_lines_from_keeps(v, Seq::empty());
    assert(non_space(Seq::<char>::empty()) =~= Seq::<char>::empty());
    assert(Seq::<char>::empty() + non_space(v) =~= non_space(v));
    lemma_paragraphs_fold_keeps(Seq::empty(), text_lines_of(v), w);
    assert(joined(Seq::<Seq<char>>::empty()) =~= Seq::<char>::empty());
    assert(Seq::<char>::empty() + non_space(joined(text_lines_of(v))) =~= non_space(joined(text_lines_of(v))));
    let ls = paragraphs_fold(Seq::empty(), text_lines_of(v), w);
    if ls.len() == 0 {
        lemma_joined_cons(Seq::empty(), Seq::empty());
        assert(seq![Seq::<char>::empty()] + Seq::<Seq<char>>::empty() =~= seq![Seq::<char>::empty()]);
        assert(joined(ls) =~= Seq::<char>::empty());
    }
}

// ---------------------------------------------------------------------------
// The shape of wrapped lines

/// `v` holds no white space.
pub open spec fn space_free(v: Seq<char>) -> bool {
    forall|i: int| 0 <= i < v.len() ==> !is_space(#[trigger] v[i])
}

/// A line that is empty, or starts and ends with a character that is not
/// white space.
pub open spec fn edges_trimmed(l: Seq<char>) -> bool {
    l.len() == 0 || (!is_space(l[0]) && !is_space(l.last()))
}

/// Every line of `lines` has trimmed edges.
pub open spec fn all_edges_trimmed(lines: Seq<Seq<char>>) -> bool {
    forall|i: int| 0 <= i < lines.len() ==> edges_trimmed(#[trigger] lines[i])
}

/// The part of a line before its first space: the piece the line started with.
pub open spec fn first_piece(l: Seq<char>) -> Seq<char>
    decreases l.len(),
{
    if l.len() == 0 || l[0] == ' ' {
        Seq::empty()
    } else {
        seq![l[0]] + first_piece(l.drop_first())
    }
}

/// A piece of a word as the wrapping places it: no white space in it, and
/// empty only at width zero.
pub open spec fn piece_ok(c: Seq<char>, w: nat) -> bool {
    space_free(c) && (w > 0 ==> c.len() > 0)
}

proof fn lemma_first_piece_after_space(a: Seq<char>, b: Seq<char>)
    ensures
        first_piece(a + seq![' '] + b) == first_piece(a),
    decreases a.len(),
{
    let x = a + seq![' '] + b;
    if a.len() == 0 {
        assert(x[0] == ' ');
    } else if a[0] != ' ' {
        assert(x[0] == a[0]);
        assert(x.drop_first() =~= a.drop_first() + seq![' '] + b);
        lemma_first_piece_after_space(a.drop_first(), b);
    } else {
        assert(x[0] == ' ');
    }
}

proof fn lemma_first_piece_whole(c: Seq<char>)
    requires
        space_free(c),
    ensures
        first_piece(c) == c,
    decreases c.len(),
{
    if c.len() > 0 {
        assert(is_space(' '));
        assert(c[0] != ' ');
        assert forall|i: int| 0 <= i < c.drop_first().len() implies !is_space(#[trigger] c.drop_first()[i]) by {
            assert(c.drop_first()[i] == c[i + 1]);
        }
        lemma_first_piece_whole(c.drop_first());
        assert(seq![c[0]] + c.drop_first() =~= c);
    }
}

proof fn lemma_words_from_shape(v: Seq<char>, cur: Seq<char>)
    requires
        space_free(cur),
    ensures
        forall|i: int| 0 <= i < words_from(v, cur).len() ==> (#[trigger] words_from(v, cur)[i]).len() > 0
            && space_free(words_from(v, cur)[i]),
    decreases v.len(),
{
    if v.len() == 0 {
        if cur.len() > 0 {
            assert(words_from(v, cur) == seq![cur]);
            assert(words_from(v, cur)[0] == cur);
        }
    } else {
        if is_space(v[0]) {
            lemma_words_from_shape(v.drop_first(), Seq::empty());
            let head: Seq<Seq<char>> = if cur.len() > 0 { seq![cur] } else { Seq::empty() };
            let rest = words_from(v.drop_first(), Seq::empty());
            assert(words_from(v, cur) == head + rest);
            if cur.len() > 0 {
                assert(head[0] == cur);
            }
            assert forall|i: int| 0 <= i < (head + rest).len() implies (#[trigger] (head + rest)[i]).len() > 0
                && space_free((head + rest)[i]) by {
                if i >= head.len() {
                    assert((head + rest)[i] == rest[i - head.len()]);
                }
            }
        } else {
            let next = cur.push(v[0]);
            assert forall|i: int| 0 <= i < next.len() implies !is_space(#[trigger] next[i]) by {
                if i < cur.len() {
                    assert(next[i] == cur[i]);
                }
            }
            lemma_words_from_shape(v.drop_first(), next);
            assert(words_from(v, cur) == words_from(v.drop_first(), next));
        }
    }
}

proof fn lemma_hard_chunks_shape(v: Seq<char>, w: nat)
    requires
        v.len() > 0,
        space_free(v),
    ensures
        forall|i: int| 0 <= i < hard_chunks(v, w).len() ==> piece_ok(#[trigger] hard_chunks(v, w)[i], w),
    decreases v.len(),
{
    if v.len() <= w {
    } else if w == 0 {
        assert(space_free(Seq::<char>::empty()));
    } else {
        let head = v.take(w as int);
        let tail = v.skip(w as int);
        assert forall|i: int| 0 <= i < head.len() implies !is_space(#[trigger] head[i]) by {
            assert(head[i] == v[i]);
        }
        assert forall|i: int| 0 <= i < tail.len() implies !is_space(#[trigger] tail[i]) by {
            assert(tail[i] == v[i + w]);
        }
        lemma_hard_chunks_shape(tail, w);
        let cs = seq![head] + hard_chunks(tail, w);
        assert forall|i: int| 0 <= i < cs.len() implies piece_ok(#[trigger] cs[i], w) by {
            if i > 0 {
                assert(cs[i] == hard_chunks(tail, w)[i - 1]);
            }
        }
    }
}

/// Each finished line of `ls` was ended because the piece that starts the
/// line after it (`cur` after the last) did not fit beside it within `w`.
pub open spec fn breaks_forced(ls: Seq<Seq<char>>, cur: Seq<char>, w: nat) -> bool {
    forall|i: int| 0 <= i < ls.len() ==> (#[trigger] ls[i]).len() + 1 + first_piece(ls.push(cur)[i + 1]).len() > w
}

/// A paragraph being filled: its breaks were forced, and the line being
/// filled is empty only before the first piece (or at width zero).
pub open spec fn filling(st: WrapState, w: nat) -> bool {
    breaks_forced(st.0, st.1, w) && (w > 0 && st.1.len() == 0 ==> st.0.len() == 0)
}

/// The lines and the line being filled all have trimmed edges.
pub open spec fn trimmed_state(st: WrapState) -> bool {
    all_edges_trimmed(st.0) && edges_trimmed(st.1)
}

proof fn lemma_space_free_trimmed(c: Seq<char>)
    requires
        space_free(c),
    ensures
        edges_trimmed(c),
{
    if c.len() > 0 {
        assert(!is_space(c[0]));
        assert(!is_space(c[c.len() - 1]));
    }
}

proof fn lemma_chunk_step_shape(st: WrapState, c: Seq<char>, w: nat)
    requires
        piece_ok(c, w),
    ensures
        trimmed_state(st) ==> trimmed_state(chunk_step(st, c, w)),
        filling(st, w) ==> filling(chunk_step(st, c, w), w),
{
    let (ls, cur) = st;
    let next = chunk_step(st, c, w);
    lemma_space_free_trimmed(c);
    if cur.len() > 0 && cur.len() + 1 + c.len() > w {
        assert(next == (ls.push(cur), c));
        if trimmed_state(st) {
            assert forall|i: int| 0 <= i < ls.push(cur).len() implies edges_trimmed(#[trigger] ls.push(cur)[i]) by {
                if i < ls.len() {
                    assert(ls.push(cur)[i] == ls[i]);
                }
            }
        }
        if filling(st, w) {
            lemma_first_piece_whole(c);
            let nls = ls.push(cur);
            assert forall|i: int| 0 <= i < nls.len() implies (#[trigger] nls[i]).len() + 1 + first_piece(nls.push(c)[i + 1]).len() > w by {
                if i < ls.len() {
                    assert(nls[i] == ls[i]);
                    assert(nls.push(c)[i + 1] == ls.push(cur)[i + 1]);
                } else {
                    assert(nls[i] == cur);
                    assert(nls.push(c)[i + 1] == c);
                }
            }
        }
    } else if cur.len() > 0 {
        let joined_line = cur + seq![' '] + c;
        assert(next == (ls, joined_line));
        assert(w > 0);
        assert(c.len() > 0);
        if trimmed_state(st) {
            assert(joined_line[0] == cur[0]);
            assert(joined_line.last() == c.last());
        }
        if filling(st, w) {
            lemma_first_piece_after_space(cur, c);
            assert forall|i: int| 0 <= i < ls.len() implies (#[trigger] ls[i]).len() + 1 + first_piece(ls.push(joined_line)[i + 1]).len() > w by {
                if i + 1 < ls.len() {
                    assert(ls.push(joined_line)[i + 1] == ls.push(cur)[i + 1]);
                } else {
                    assert(ls.push(joined_line)[i + 1] == joined_line);
                    assert(ls.push(cur)[i + 1] == cur);
                }
            }
        }
    } else {
        assert(next == (ls, c));
        if filling(st, w) && w == 0 {
            assert forall|i: int| 0 <= i < ls.len() implies (#[trigger] ls[i]).len() + 1 + first_piece(ls.push(c)[i + 1]).len() > w by {}
        }
    }
}

proof fn lemma_chunks_fold_shape(st: WrapState, cs: Seq<Seq<char>>, w: nat)
    requires
        forall|i: int| 0 <= i < cs.len() ==> piece_ok(#[trigger] cs[i], w),
    ensures
        trimmed_state(st) ==> trimmed_state(chunks_fold(st, cs, w)),
        filling(st, w) ==> filling(chunks_fold(st, cs, w), w),
    decreases cs.len(),
{
    if cs.len() > 0 {
        assert forall|i: int| 0 <= i < cs.drop_last().len() implies piece_ok(#[trigger] cs.drop_last()[i], w) by {
            assert(cs.drop_last()[i] == cs[i]);
        }
        lemma_chunks_fold_shape(st, cs.drop_last(), w);
        assert(piece_ok(cs[cs.len() - 1], w));
        lemma_chunk_step_shape(chunks_fold(st, cs.drop_last(), w), cs.last(), w);
    }
}

proof fn lemma_words_fold_shape(st: WrapState, ws: Seq<Seq<char>>, w: nat)
    requires
        forall|i: int| 0 <= i < ws.len() ==> (#[trigger] ws[i]).len() > 0 && space_free(ws[i]),
    ensures
        trimmed_state(st) ==> trimmed_state(words_fold(st, ws, w)),
        filling(st, w) ==> filling(words_fold(st, ws, w), w),
    decreases ws.len(),
{
    if ws.len() > 0 {
        assert forall|i: int| 0 <= i < ws.drop_last().len() implies (#[trigger] ws.drop_last()[i]).len() > 0
            && space_free(ws.drop_last()[i]) by {
            assert(ws.drop_last()[i] == ws[i]);
        }
        lemma_words_fold_shape(st, ws.drop_last(), w);
        assert(ws.last() == ws[ws.len() - 1]);
        lemma_hard_chunks_shape(ws.last(), w);
        lemma_chunks_fold_shape(words_fold(st, ws.drop_last(), w), hard_chunks(ws.last(), w), w);
    }
}

proof fn lemma_paragraphs_fold_trimmed(lines: Seq<Seq<char>>, ps: Seq<Seq<char>>, w: nat)
    requires
        all_edges_trimmed(lines),
    ensures
        all_edges_trimmed(paragraphs_fold(lines, ps, w)),
    decreases ps.len(),
{
    if ps.len() > 0 {
        lemma_paragraphs_fold_trimmed(lines, ps.drop_last(), w);
        let before = paragraphs_fold(lines, ps.drop_last(), w);
        let p = ps.last();
        if p.len() == 0 {
            let after = before.push(Seq::<char>::empty());
            assert forall|i: int| 0 <= i < after.len() implies edges_trimmed(#[trigger] after[i]) by {
                if i < before.len() {
                    assert(after[i] == before[i]);
                }
            }
        } else {
            lemma_words_from_shape(p, Seq::empty());
            lemma_words_fold_shape((before, Seq::empty()), words_of(p), w);
            let st = words_fold((before, Seq::empty()), words_of(p), w);
            assert forall|i: int| 0 <= i < st.0.push(st.1).len() implies edges_trimmed(#[trigger] st.0.push(st.1)[i]) by {
                if i < st.0.len() {
                    assert(st.0.push(st.1)[i] == st.0[i]);
                }
            }
        }
    }
}

/// No wrapped line starts or ends with white space: pieces are joined by
/// single spaces and nothing else is added.
pub proof fn law_wrapped_lines_have_trimmed_edges(v: Seq<char>, w: nat)
    ensures
        forall|i: int| 0 <= i < wrapped(v, w).len() ==> edges_trimmed(#[trigger] wrapped(v, w)[i]),
{
    lemma_paragraphs_fold_trimmed(Seq::empty(), text_lines_of(v), w);
    let ls = paragraphs_fold(Seq::empty(), text_lines_of(v), w);
    if ls.len() == 0 {
        assert(wrapped(v, w)[0] == Seq::<char>::empty());
    }
}

proof fn lemma_lines_without_break(v: Seq<char>, cur: Seq<char>)
    requires
        !v.contains('\n'),
    ensures
        lines_from(v, cur) == (if (cur + v).len() > 0 { seq![cur + v] } else { Seq::<Seq<char>>::empty() }),
    decreases v.len(),
{
    if v.len() == 0 {
        assert(cur + v =~= cur);
    } else {
        assert(v[0] != '\n');
        assert(!v.drop_first().contains('\n')) by {
            if v.drop_first().contains('\n') {
                let k = choose|k: int| 0 <= k < v.drop_first().len() && v.drop_first()[k] == '\n';
                assert(v[k + 1] == '\n');
            }
        }
        lemma_lines_without_break(v.drop_first(), cur.push(v[0]));
        assert(cur.push(v[0]) + v.drop_first() =~= cur + v);
    }
}

/// Within a paragraph, wrapping breaks a line only where it must: the piece
/// that starts each next line would not have fit after a space on the line
/// before.
pub proof fn law_wrapping_breaks_only_where_forced(v: Seq<char>, w: nat)
    requires
        !v.contains('\n'),
    ensures
        forall|i: int| 0 <= i < wrapped(v, w).len() - 1 ==>
            (#[trigger] wrapped(v, w)[i]).len() + 1 + first_piece(wrapped(v, w)[i + 1]).len() > w,
{
    lemma_lines_without_break(v, Seq::empty());
    assert(Seq::<char>::empty() + v =~= v);
    let empty_lines = Seq::<Seq<char>>::empty();
    if v.len() > 0 {
        let ps = text_lines_of(v);
        assert(ps == seq![v]);
        assert(ps.drop_last() =~= empty_lines);
        assert(ps.last() == v);
        assert(paragraphs_fold(empty_lines, ps.drop_last(), w) == empty_lines);
        assert(paragraphs_fold(empty_lines, ps, w) == paragraph_step(empty_lines, v, w));
        lemma_words_from_shape(v, Seq::empty());
        assert(filling((empty_lines, Seq::empty()), w));
        lemma_words_fold_shape((empty_lines, Seq::empty()), words_of(v), w);
        let st = words_fold((empty_lines, Seq::empty()), words_of(v), w);
        let lines = wrapped(v, w);
        if st.1.len() > 0 {
            assert(lines == st.0.push(st.1));
            assert forall|i: int| 0 <= i < lines.len() - 1 implies
                (#[trigger] lines[i]).len() + 1 + first_piece(lines[i + 1]).len() > w by {
                assert(lines[i] == st.0[i]);
                assert(lines[i + 1] == st.0.push(st.1)[i + 1]);
            }
        } else if st.0.len() > 0 {
            assert(lines == st.0);
            assert forall|i: int| 0 <= i < lines.len() - 1 implies
                (#[trigger] lines[i]).len() + 1 + first_piece(lines[i + 1]).len() > w by {
                assert(st.0.push(st.1)[i + 1] == st.0[i + 1]);
            }
        }
    } else {
        assert(text_lines_of(v) == empty_lines);
    }
}

} // verus!
