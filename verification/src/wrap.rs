//! Word wrapping of panel text, as the analysis and detail panels show it.
use vstd::prelude::*;
use crate::text::{is_space, space, chars_of, string_of, views};

verus! {

broadcast use vstd::string::group_string_axioms;

// ----------------------------------------------------------------------------
// Lines (`str::lines`)
// ----------------------------------------------------------------------------

/// Index of the first `'\n'` in `s`, or `s.len()` when there is none.
pub open spec fn newline_at(s: Seq<char>) -> nat
    decreases s.len(),
{
    if s.len() == 0 || s[0] == '\n' {
        0
    } else {
        1 + newline_at(s.drop_first())
    }
}

/// The first newline lies within `s`, and is a newline when it is not the end.
pub proof fn lemma_newline_at_bound(s: Seq<char>)
    ensures
        newline_at(s) <= s.len(),
        newline_at(s) < s.len() ==> s[newline_at(s) as int] == '\n',
    decreases s.len(),
{
    if s.len() > 0 && s[0] != '\n' {
        lemma_newline_at_bound(s.drop_first());
    }
}

/// The first newline is at `j` when none comes before `j` and `j` is a newline or the end.
pub(crate) proof fn lemma_newline_at(s: Seq<char>, j: int)
    requires
        0 <= j <= s.len(),
        forall|k: int| 0 <= k < j ==> #[trigger] s[k] != '\n',
        j == s.len() || s[j] == '\n',
    ensures
        newline_at(s) == j,
    decreases j,
{
    if j > 0 {
        assert forall|k: int| 0 <= k < j - 1 implies #[trigger] s.drop_first()[k] != '\n' by {
            assert(s.drop_first()[k] == s[k + 1]);
        }
        lemma_newline_at(s.drop_first(), j - 1);
    }
}

/// A line without the `'\r'` of a `"\r\n"` ending.
pub open spec fn strip_cr(line: Seq<char>) -> Seq<char> {
    if line.len() > 0 && line.last() == '\r' {
        line.drop_last()
    } else {
        line
    }
}

/// The lines of `s`, as `str::lines` yields them: split at `"\n"` or `"\r\n"`;
/// a final line ending is optional and yields no empty last line.
pub open spec fn lines(s: Seq<char>) -> Seq<Seq<char>>
    decreases s.len(),
{
    let i = newline_at(s);
    if i >= s.len() {
        if s.len() == 0 {
            Seq::empty()
        } else {
            seq![s]
        }
    } else {
        seq![strip_cr(s.take(i as int))] + lines(s.skip(i as int + 1))
    }
}

// ----------------------------------------------------------------------------
// Words (`str::split_whitespace`)
// ----------------------------------------------------------------------------

/// Length of the run of non-whitespace characters at the start of `s`.
pub open spec fn run_len(s: Seq<char>) -> nat
    decreases s.len(),
{
    if s.len() == 0 || is_space(s[0]) {
        0
    } else {
        1 + run_len(s.drop_first())
    }
}

/// A leading run lies within `s`, and is not empty when `s` starts with a non-space.
pub proof fn lemma_run_len_bound(s: Seq<char>)
    ensures
        run_len(s) <= s.len(),
        s.len() > 0 && !is_space(s[0]) ==> run_len(s) > 0,
    decreases s.len(),
{
    if s.len() > 0 && !is_space(s[0]) {
        lemma_run_len_bound(s.drop_first());
    }
}

proof fn lemma_run_len(s: Seq<char>, j: int)
    requires
        0 <= j <= s.len(),
        forall|k: int| 0 <= k < j ==> !is_space(#[trigger] s[k]),
        j == s.len() || is_space(s[j]),
    ensures
        run_len(s) == j,
    decreases j,
{
    if j > 0 {
        assert forall|k: int| 0 <= k < j - 1 implies !is_space(#[trigger] s.drop_first()[k]) by {
            assert(s.drop_first()[k] == s[k + 1]);
        }
        lemma_run_len(s.drop_first(), j - 1);
    }
}

/// The maximal runs of non-whitespace characters of `s`, in order.
pub open spec fn words(s: Seq<char>) -> Seq<Seq<char>>
    decreases s.len(),
{
    if s.len() == 0 {
        Seq::empty()
    } else if is_space(s[0]) {
        words(s.drop_first())
    } else {
        let r = run_len(s);
        if 0 < r <= s.len() {
            seq![s.take(r as int)] + words(s.skip(r as int))
        } else {
            Seq::empty()
        }
    }
}

// ----------------------------------------------------------------------------
// Greedy wrapping
// ----------------------------------------------------------------------------

/// `word` cut into pieces of `width` characters; the last piece may be shorter.
pub open spec fn chunks(word: Seq<char>, width: nat) -> Seq<Seq<char>>
    decreases word.len(),
{
    if width == 0 || word.len() <= width {
        seq![word]
    } else {
        seq![word.take(width as int)] + chunks(word.skip(width as int), width)
    }
}

/// One step of the greedy wrap: the finished rows and the row being filled,
/// after `word` is placed.
pub open spec fn place(st: (Seq<Seq<char>>, Seq<char>), word: Seq<char>, width: nat) -> (
    Seq<Seq<char>>,
    Seq<char>,
) {
    let (rows, cur) = st;
    let sep: nat = if cur.len() == 0 {
        0
    } else {
        1
    };
    if cur.len() + sep + word.len() <= width {
        (rows, if cur.len() == 0 {
            word
        } else {
            cur + seq![' '] + word
        })
    } else {
        let rows1 = if cur.len() > 0 {
            rows.push(cur)
        } else {
            rows
        };
        if word.len() > width {
            let cs = chunks(word, width);
            (rows1 + cs.drop_last(), cs.last())
        } else {
            (rows1, word)
        }
    }
}

/// Places every word of `ws`, in order.
pub open spec fn place_all(st: (Seq<Seq<char>>, Seq<char>), ws: Seq<Seq<char>>, width: nat) -> (
    Seq<Seq<char>>,
    Seq<char>,
)
    decreases ws.len(),
{
    if ws.len() == 0 {
        st
    } else {
        place_all(place(st, ws[0], width), ws.drop_first(), width)
    }
}

/// The rows one line wraps into: an empty line stays one empty row; otherwise its
/// words are placed greedily and the last unfinished row, if any, is kept.
pub open spec fn wrap_line(line: Seq<char>, width: nat) -> Seq<Seq<char>> {
    if line.len() == 0 {
        seq![Seq::empty()]
    } else {
        let (rows, cur) = place_all((Seq::empty(), Seq::empty()), words(line), width);
        if cur.len() > 0 {
            rows.push(cur)
        } else {
            rows
        }
    }
}

/// The rows of all lines `ls`, in order.
pub open spec fn wrap_lines(ls: Seq<Seq<char>>, width: nat) -> Seq<Seq<char>>
    decreases ls.len(),
{
    if ls.len() == 0 {
        Seq::empty()
    } else {
        wrap_line(ls[0], width) + wrap_lines(ls.drop_first(), width)
    }
}

/// What the panels show of `text` at `width` columns: with no width, its lines;
/// otherwise every line wrapped, and at least one (empty) row.
pub open spec fn wrapped(text: Seq<char>, width: nat) -> Seq<Seq<char>> {
    if width == 0 {
        lines(text)
    } else {
        let r = wrap_lines(lines(text), width);
        if r.len() == 0 {
            seq![Seq::empty()]
        } else {
            r
        }
    }
}

// ----------------------------------------------------------------------------
// Lemmas
// ----------------------------------------------------------------------------

proof fn lemma_place_rows(rows: Seq<Seq<char>>, cur: Seq<char>, word: Seq<char>, width: nat)
    ensures
        place((rows, cur), word, width).0 == rows + place((Seq::empty(), cur), word, width).0,
        place((rows, cur), word, width).1 == place((Seq::empty(), cur), word, width).1,
{
    let e = Seq::<Seq<char>>::empty();
    assert(rows.push(cur) =~= rows + e.push(cur));
    assert(rows =~= rows + e);
    if word.len() > width {
        let cs = chunks(word, width);
        assert(rows.push(cur) + cs.drop_last() =~= rows + (e.push(cur) + cs.drop_last()));
        assert(rows + cs.drop_last() =~= rows + (e + cs.drop_last()));
    }
}

proof fn lemma_chunks_long(word: Seq<char>, width: nat)
    requires
        width > 0,
        word.len() > width,
    ensures
        chunks(word, width) == seq![word.take(width as int)] + chunks(word.skip(width as int), width),
{
}

proof fn lemma_chunks_len(word: Seq<char>, width: nat)
    ensures
        chunks(word, width).len() >= 1,
    decreases word.len(),
{
    if width > 0 && word.len() > width {
        lemma_chunks_len(word.skip(width as int), width);
    }
}

proof fn lemma_words_space(s: Seq<char>)
    requires
        s.len() > 0,
        is_space(s[0]),
    ensures
        words(s) == words(s.drop_first()),
{
}

proof fn lemma_words_run(s: Seq<char>, j: int)
    requires
        0 < j <= s.len(),
        forall|k: int| 0 <= k < j ==> !is_space(#[trigger] s[k]),
        j == s.len() || is_space(s[j]),
    ensures
        words(s) == seq![s.take(j)] + words(s.skip(j)),
{
    lemma_run_len(s, j);
}

// ----------------------------------------------------------------------------
// Executable
// ----------------------------------------------------------------------------

fn push_row(out: &mut Vec<String>, v: &Vec<char>, from: usize, to: usize)
    requires
        from <= to <= v.len(),
    ensures
        views(final(out)@) == views(old(out)@).push(v@.subrange(from as int, to as int)),
{
    let s = string_of(v, from, to);
    out.push(s);
    assert(views(out@) =~= views(old(out)@).push(v@.subrange(from as int, to as int)));
}

/// Places `w[from..to]` into the row being filled (`cur`), emitting finished rows into `out`.
fn place_word(
    out: &mut Vec<String>,
    cur: &mut Vec<char>,
    w: &Vec<char>,
    from: usize,
    to: usize,
    width: usize,
)
    requires
        from < to <= w.len(),
        width > 0,
    ensures
        ({
            let (r, c) = place((Seq::empty(), old(cur)@), w@.subrange(from as int, to as int), width as nat);
            &&& views(final(out)@) == views(old(out)@) + r
            &&& final(cur)@ == c
        }),
{
    let ghost word = w@.subrange(from as int, to as int);
    let ghost e = Seq::<Seq<char>>::empty();
    let wlen = to - from;
    let clen = cur.len();
    let fits = if clen == 0 {
        wlen <= width
    } else {
        clen < width && wlen <= width - clen - 1
    };
    if fits {
        if clen > 0 {
            cur.push(' ');
        }
        let mut i = from;
        while i < to
            invariant
                from <= i <= to <= w.len(),
                cur@ == (if clen == 0 {
                    Seq::empty()
                } else {
                    old(cur)@ + seq![' ']
                }) + w@.subrange(from as int, i as int),
                out@ == old(out)@,
            decreases to - i,
        {
            cur.push(w[i]);
            i = i + 1;
            assert(cur@ =~= (if clen == 0 {
                Seq::empty()
            } else {
                old(cur)@ + seq![' ']
            }) + w@.subrange(from as int, i as int));
        }
        proof {
            if clen == 0 {
                assert(old(cur)@ =~= Seq::<char>::empty());
                assert(cur@ =~= word);
            }
            assert(views(out@) =~= views(old(out)@) + e);
        }
    } else {
        if clen > 0 {
            let c = string_of(cur, 0, clen);
            assert(c@ =~= old(cur)@);
            out.push(c);
            assert(views(out@) =~= views(old(out)@) + e.push(old(cur)@));
        } else {
            assert(views(out@) =~= views(old(out)@) + e);
        }
        let ghost rows1 = if old(cur)@.len() > 0 {
            e.push(old(cur)@)
        } else {
            e
        };
        cur.clear();
        if wlen > width {
            // Emit every full piece; the last piece starts the next row.
            let mut i = from;
            let ghost mut emitted: Seq<Seq<char>> = Seq::empty();
            proof {
                assert(w@.subrange(from as int, to as int).skip(0) =~= word);
            }
            while to - i > width
                invariant
                    from <= i < to <= w.len(),
                    width > 0,
                    word == w@.subrange(from as int, to as int),
                    chunks(word, width as nat) == emitted + chunks(
                        w@.subrange(i as int, to as int),
                        width as nat,
                    ),
                    views(out@) == views(old(out)@) + rows1 + emitted,
                decreases to - i,
            {
                let ghost rest = w@.subrange(i as int, to as int);
                proof {
                    lemma_chunks_long(rest, width as nat);
                    assert(rest.take(width as int) =~= w@.subrange(i as int, (i + width) as int));
                    assert(rest.skip(width as int) =~= w@.subrange((i + width) as int, to as int));
                }
                push_row(out, w, i, i + width);
                proof {
                    emitted = emitted.push(w@.subrange(i as int, (i + width) as int));
                    assert(views(out@) =~= views(old(out)@) + rows1 + emitted);
                }
                i = i + width;
                proof {
                    assert(chunks(word, width as nat) =~= emitted + chunks(
                        w@.subrange(i as int, to as int),
                        width as nat,
                    ));
                }
            }
            let mut k = i;
            while k < to
                invariant
                    i <= k <= to <= w.len(),
                    cur@ == w@.subrange(i as int, k as int),
                decreases to - k,
            {
                cur.push(w[k]);
                k = k + 1;
                assert(cur@ =~= w@.subrange(i as int, k as int));
            }
            proof {
                let last = w@.subrange(i as int, to as int);
                assert(chunks(last, width as nat) == seq![last]);
                let cs = chunks(word, width as nat);
                assert(cs =~= emitted.push(last));
                assert(cs.drop_last() =~= emitted);
                assert(views(out@) =~= views(old(out)@) + (rows1 + cs.drop_last()));
            }
        } else {
            let mut k = from;
            while k < to
                invariant
                    from <= k <= to <= w.len(),
                    cur@ == w@.subrange(from as int, k as int),
                decreases to - k,
            {
                cur.push(w[k]);
                k = k + 1;
                assert(cur@ =~= w@.subrange(from as int, k as int));
            }
        }
    }
}

/// Appends the rows of the line `v[from..to]` at `width > 0`.
fn wrap_line_into(out: &mut Vec<String>, v: &Vec<char>, from: usize, to: usize, width: usize)
    requires
        from <= to <= v.len(),
        width > 0,
    ensures
        views(final(out)@) == views(old(out)@) + wrap_line(
            v@.subrange(from as int, to as int),
            width as nat,
        ),
{
    let ghost line = v@.subrange(from as int, to as int);
    if from == to {
        push_row(out, v, from, to);
        assert(v@.subrange(from as int, to as int) =~= Seq::<char>::empty());
        assert(views(out@) =~= views(old(out)@) + seq![Seq::<char>::empty()]);
        return ;
    }
    let ghost e = Seq::<Seq<char>>::empty();
    let ghost goal = place_all((e, Seq::empty()), words(line), width as nat);
    let mut cur: Vec<char> = Vec::new();
    let ghost mut rows: Seq<Seq<char>> = Seq::empty();
    let mut p = from;
    proof {
        assert(line.skip(0) =~= line);
    }
    while p < to
        invariant
            from <= p <= to <= v.len(),
            width > 0,
            line == v@.subrange(from as int, to as int),
            place_all((rows, cur@), words(v@.subrange(p as int, to as int)), width as nat) == goal,
            views(out@) == views(old(out)@) + rows,
        decreases to - p,
    {
        let ghost rest = v@.subrange(p as int, to as int);
        if space(v[p]) {
            proof {
                lemma_words_space(rest);
                assert(rest.drop_first() =~= v@.subrange(p + 1, to as int));
            }
            p = p + 1;
        } else {
            let mut q = p + 1;
            while q < to && !space(v[q])
                invariant
                    p < q <= to <= v.len(),
                    forall|k: int| p <= k < q ==> !is_space(#[trigger] v@[k]),
                decreases to - q,
            {
                q = q + 1;
            }
            proof {
                assert forall|k: int| 0 <= k < q - p implies !is_space(#[trigger] rest[k]) by {
                    assert(rest[k] == v@[p + k]);
                }
                if q < to {
                    assert(rest[q - p] == v@[q as int]);
                }
                lemma_words_run(rest, q - p);
                assert(rest.take(q - p) =~= v@.subrange(p as int, q as int));
                assert(rest.skip(q - p) =~= v@.subrange(q as int, to as int));
            }
            let ghost word = v@.subrange(p as int, q as int);
            let ghost old_cur = cur@;
            let ghost before = views(out@);
            place_word(out, &mut cur, v, p, q, width);
            proof {
                lemma_place_rows(rows, old_cur, word, width as nat);
                let pr = place((Seq::<Seq<char>>::empty(), old_cur), word, width as nat);
                let r = pr.0;
                let ws = words(rest);
                let tail = words(v@.subrange(q as int, to as int));
                assert(ws[0] == word);
                assert(ws.drop_first() =~= tail);
                assert(place_all((rows, old_cur), ws, width as nat) == place_all(
                    place((rows, old_cur), word, width as nat),
                    tail,
                    width as nat,
                ));
                assert(views(out@) =~= views(old(out)@) + (rows + r));
                rows = rows + r;
            }
            p = q;
        }
    }
    proof {
        assert(v@.subrange(to as int, to as int) =~= Seq::<char>::empty());
    }
    if cur.len() > 0 {
        let n = cur.len();
        push_row(out, &cur, 0, n);
        assert(cur@.subrange(0, n as int) =~= cur@);
        assert(views(out@) =~= views(old(out)@) + rows.push(cur@));
    }
}

/// Wraps `text` into rows of at most `width` characters, breaking at whitespace
/// and cutting longer words; with `width == 0` it returns the lines of `text`.
pub fn word_wrap(text: &str, width: usize) -> (r: Vec<String>)
    ensures
        views(r@) == wrapped(text@, width as nat),
{
    let v = chars_of(text);
    let mut out: Vec<String> = Vec::new();
    let ghost all = lines(v@);
    let ghost target = if width == 0 {
        all
    } else {
        wrap_lines(all, width as nat)
    };
    let mut pos: usize = 0;
    proof {
        assert(v@.skip(0) =~= v@);
        assert(views(out@) =~= Seq::<Seq<char>>::empty());
    }
    while pos < v.len()
        invariant
            pos <= v.len(),
            v@ == text@,
            all == lines(v@),
            target == (if width == 0 {
                all
            } else {
                wrap_lines(all, width as nat)
            }),
            views(out@) + (if width == 0 {
                lines(v@.skip(pos as int))
            } else {
                wrap_lines(lines(v@.skip(pos as int)), width as nat)
            }) == target,
        decreases v.len() - pos,
    {
        let ghost rest = v@.skip(pos as int);
        let mut j = pos;
        while j < v.len() && v[j] != '\n'
            invariant
                pos <= j <= v.len(),
                forall|k: int| pos <= k < j ==> #[trigger] v@[k] != '\n',
            decreases v.len() - j,
        {
            j = j + 1;
        }
        proof {
            assert forall|k: int| 0 <= k < j - pos implies #[trigger] rest[k] != '\n' by {
                assert(rest[k] == v@[pos + k]);
            }
            if j < v.len() {
                assert(rest[j - pos] == v@[j as int]);
            }
            lemma_newline_at(rest, j - pos);
        }
        let mut end = j;
        if j < v.len() && end > pos && v[end - 1] == '\r' {
            end = end - 1;
        }
        let ghost line = v@.subrange(pos as int, end as int);
        proof {
            if j < v.len() {
                let seg = rest.take(j - pos);
                assert(seg =~= v@.subrange(pos as int, j as int));
                if j > pos && v@[j - 1] == '\r' {
                    assert(seg.last() == v@[j - 1]);
                    assert(strip_cr(seg) =~= line);
                } else {
                    assert(strip_cr(seg) =~= line);
                }
                assert(rest.skip(j - pos + 1) =~= v@.skip(j + 1));
                assert(lines(rest) == seq![line] + lines(v@.skip(j + 1)));
            } else {
                assert(line =~= rest);
                assert(rest.len() > 0);
                assert(lines(rest) == seq![line]);
                assert(v@.skip(j as int) =~= Seq::<char>::empty());
                assert(lines(v@.skip(j as int)) =~= Seq::<Seq<char>>::empty());
            }
        }
        let next = if j < v.len() {
            j + 1
        } else {
            j
        };
        let ghost before = views(out@);
        if width == 0 {
            push_row(&mut out, &v, pos, end);
            proof {
                assert(views(out@) + lines(v@.skip(next as int)) =~= before + lines(rest));
            }
        } else {
            wrap_line_into(&mut out, &v, pos, end, width);
            proof {
                let ls = lines(rest);
                assert(ls.drop_first() =~= lines(v@.skip(next as int)));
                assert(wrap_lines(ls, width as nat) == wrap_line(line, width as nat) + wrap_lines(
                    lines(v@.skip(next as int)),
                    width as nat,
                ));
                assert(views(out@) + wrap_lines(lines(v@.skip(next as int)), width as nat)
                    =~= before + wrap_lines(lines(rest), width as nat));
            }
        }
        pos = next;
    }
    proof {
        assert(v@.skip(pos as int) =~= Seq::<char>::empty());
        assert(lines(v@.skip(pos as int)) =~= Seq::<Seq<char>>::empty());
        assert(views(out@) =~= target);
    }
    if width > 0 && out.len() == 0 {
        out.push(String::new());
        assert(views(out@) =~= seq![Seq::<char>::empty()]);
    }
    out
}

// ----------------------------------------------------------------------------
// Laws
// ----------------------------------------------------------------------------

/// Every row of `rows` has at most `width` characters.
pub open spec fn rows_fit(rows: Seq<Seq<char>>, width: nat) -> bool {
    forall|i: int| 0 <= i < rows.len() ==> (#[trigger] rows[i]).len() <= width
}

proof fn lemma_chunks_fit(word: Seq<char>, width: nat)
    requires
        width > 0,
    ensures
        rows_fit(chunks(word, width), width) || word.len() <= width && chunks(word, width) == seq![word],
        word.len() > width ==> rows_fit(chunks(word, width), width),
    decreases word.len(),
{
    if word.len() > width {
        let rest = word.skip(width as int);
        lemma_chunks_fit(rest, width);
        let cs = chunks(word, width);
        assert(cs == seq![word.take(width as int)] + chunks(rest, width));
        if rest.len() <= width {
            assert(chunks(rest, width) == seq![rest]);
        }
        assert forall|i: int| 0 <= i < cs.len() implies (#[trigger] cs[i]).len() <= width by {
            if i > 0 {
                assert(cs[i] == chunks(rest, width)[i - 1]);
            }
        }
    }
}

proof fn lemma_place_fits(st: (Seq<Seq<char>>, Seq<char>), word: Seq<char>, width: nat)
    requires
        width > 0,
        rows_fit(st.0, width),
        st.1.len() <= width,
    ensures
        rows_fit(place(st, word, width).0, width),
        place(st, word, width).1.len() <= width,
{
    let (rows, cur) = st;
    let sep: nat = if cur.len() == 0 {
        0
    } else {
        1
    };
    if cur.len() + sep + word.len() <= width {
    } else {
        let rows1 = if cur.len() > 0 {
            rows.push(cur)
        } else {
            rows
        };
        assert(rows_fit(rows1, width)) by {
            assert forall|i: int| 0 <= i < rows1.len() implies (#[trigger] rows1[i]).len() <= width by {
                if i < rows.len() {
                    assert(rows1[i] == rows[i]);
                }
            }
        }
        if word.len() > width {
            lemma_chunks_fit(word, width);
            lemma_chunks_len(word, width);
            let cs = chunks(word, width);
            let r = rows1 + cs.drop_last();
            assert forall|i: int| 0 <= i < r.len() implies (#[trigger] r[i]).len() <= width by {
                if i < rows1.len() {
                    assert(r[i] == rows1[i]);
                } else {
                    assert(r[i] == cs[i - rows1.len()]);
                }
            }
            assert(cs.last() == cs[cs.len() - 1]);
        }
    }
}

proof fn lemma_place_all_fits(st: (Seq<Seq<char>>, Seq<char>), ws: Seq<Seq<char>>, width: nat)
    requires
        width > 0,
        rows_fit(st.0, width),
        st.1.len() <= width,
    ensures
        rows_fit(place_all(st, ws, width).0, width),
        place_all(st, ws, width).1.len() <= width,
    decreases ws.len(),
{
    if ws.len() > 0 {
        lemma_place_fits(st, ws[0], width);
        lemma_place_all_fits(place(st, ws[0], width), ws.drop_first(), width);
    }
}

proof fn lemma_wrap_lines_fit(ls: Seq<Seq<char>>, width: nat)
    requires
        width > 0,
    ensures
        rows_fit(wrap_lines(ls, width), width),
    decreases ls.len(),
{
    if ls.len() > 0 {
        lemma_wrap_lines_fit(ls.drop_first(), width);
        let line = ls[0];
        let first = wrap_line(line, width);
        if line.len() > 0 {
            let e = Seq::<Seq<char>>::empty();
            lemma_place_all_fits((e, Seq::empty()), words(line), width);
            let (rows, cur) = place_all((e, Seq::empty()), words(line), width);
            assert forall|i: int| 0 <= i < first.len() implies (#[trigger] first[i]).len() <= width by {
                if i < rows.len() {
                    assert(first[i] == rows[i]);
                }
            }
        }
        let all = wrap_lines(ls, width);
        let rest = wrap_lines(ls.drop_first(), width);
        assert(all == first + rest);
        assert forall|i: int| 0 <= i < all.len() implies (#[trigger] all[i]).len() <= width by {
            if i < first.len() {
                assert(all[i] == first[i]);
            } else {
                assert(all[i] == rest[i - first.len()]);
            }
        }
    }
}

/// With a width, no wrapped row is longer than the width.
pub proof fn lemma_wrapped_rows_fit(text: Seq<char>, width: nat)
    requires
        width > 0,
    ensures
        rows_fit(wrapped(text, width), width),
{
    lemma_wrap_lines_fit(lines(text), width);
}

// ----------------------------------------------------------------------------
// Wrapping keeps every visible character
// ----------------------------------------------------------------------------

/// The characters of `s` that are not whitespace, in order.
pub open spec fn visible(s: Seq<char>) -> Seq<char>
    decreases s.len(),
{
    if s.len() == 0 {
        Seq::empty()
    } else {
        visible(s.drop_last()) + (if is_space(s.last()) {
            Seq::empty()
        } else {
            seq![s.last()]
        })
    }
}

/// The characters of all `rows` that are not whitespace, in order.
pub open spec fn visible_rows(rows: Seq<Seq<char>>) -> Seq<char>
    decreases rows.len(),
{
    if rows.len() == 0 {
        Seq::empty()
    } else {
        visible_rows(rows.drop_last()) + visible(rows.last())
    }
}

proof fn lemma_visible_add(a: Seq<char>, b: Seq<char>)
    ensures
        visible(a + b) == visible(a) + visible(b),
    decreases b.len(),
{
    if b.len() == 0 {
        assert(a + b =~= a);
        assert(visible(a) + visible(b) =~= visible(a));
    } else {
        assert((a + b).drop_last() =~= a + b.drop_last());
        assert((a + b).last() == b.last());
        lemma_visible_add(a, b.drop_last());
        let tail: Seq<char> = if is_space(b.last()) {
            Seq::empty()
        } else {
            seq![b.last()]
        };
        assert(visible(a + b) == visible(a + b.drop_last()) + tail);
        assert(visible(b) == visible(b.drop_last()) + tail);
        assert(visible(a) + visible(b.drop_last()) + tail =~= visible(a) + (visible(b.drop_last())
            + tail));
    }
}

proof fn lemma_visible_rows_add(a: Seq<Seq<char>>, b: Seq<Seq<char>>)
    ensures
        visible_rows(a + b) == visible_rows(a) + visible_rows(b),
    decreases b.len(),
{
    if b.len() == 0 {
        assert(a + b =~= a);
        assert(visible_rows(a) + visible_rows(b) =~= visible_rows(a));
    } else {
        assert((a + b).drop_last() =~= a + b.drop_last());
        assert((a + b).last() == b.last());
        lemma_visible_rows_add(a, b.drop_last());
        assert(visible_rows(a) + visible_rows(b.drop_last()) + visible(b.last()) =~= visible_rows(
            a,
        ) + (visible_rows(b.drop_last()) + visible(b.last())));
    }
}

proof fn lemma_visible_rows_one(x: Seq<char>)
    ensures
        visible_rows(seq![x]) == visible(x),
{
    let e = Seq::<Seq<char>>::empty();
    assert(seq![x].drop_last() =~= e);
    assert(visible_rows(e) == Seq::<char>::empty());
    assert(seq![x].last() == x);
    assert(Seq::<char>::empty() + visible(x) =~= visible(x));
}

proof fn lemma_visible_space(c: char)
    requires
        is_space(c),
    ensures
        visible(seq![c]) == Seq::<char>::empty(),
{
    let e = Seq::<char>::empty();
    assert(seq![c].drop_last() =~= e);
    assert(visible(e) == e);
    assert(seq![c].last() == c);
    assert(e + e =~= e);
}

proof fn lemma_visible_words(s: Seq<char>)
    ensures
        visible_rows(words(s)) == visible(s),
    decreases s.len(),
{
    if s.len() == 0 {
    } else if is_space(s[0]) {
        lemma_visible_words(s.drop_first());
        assert(s =~= seq![s[0]] + s.drop_first());
        lemma_visible_add(seq![s[0]], s.drop_first());
        lemma_visible_space(s[0]);
        assert(Seq::<char>::empty() + visible(s.drop_first()) =~= visible(s.drop_first()));
    } else {
        lemma_run_len_bound(s);
        let r = run_len(s);
        lemma_visible_words(s.skip(r as int));
        assert(s =~= s.take(r as int) + s.skip(r as int));
        lemma_visible_add(s.take(r as int), s.skip(r as int));
        lemma_visible_rows_add(seq![s.take(r as int)], words(s.skip(r as int)));
        lemma_visible_rows_one(s.take(r as int));
    }
}

proof fn lemma_visible_chunks(w: Seq<char>, width: nat)
    ensures
        visible_rows(chunks(w, width)) == visible(w),
    decreases w.len(),
{
    if width == 0 || w.len() <= width {
        lemma_visible_rows_one(w);
    } else {
        lemma_visible_chunks(w.skip(width as int), width);
        assert(w =~= w.take(width as int) + w.skip(width as int));
        lemma_visible_add(w.take(width as int), w.skip(width as int));
        lemma_visible_rows_add(seq![w.take(width as int)], chunks(w.skip(width as int), width));
        lemma_visible_rows_one(w.take(width as int));
    }
}

/// The visible characters of a wrapping state: its finished rows, then its open row.
pub open spec fn visible_state(st: (Seq<Seq<char>>, Seq<char>)) -> Seq<char> {
    visible_rows(st.0) + visible(st.1)
}

proof fn lemma_visible_push(rows: Seq<Seq<char>>, cur: Seq<char>)
    ensures
        visible_rows(rows.push(cur)) == visible_rows(rows) + visible(cur),
{
    assert(rows.push(cur).drop_last() =~= rows);
}

proof fn lemma_visible_place(st: (Seq<Seq<char>>, Seq<char>), word: Seq<char>, width: nat)
    ensures
        visible_state(place(st, word, width)) == visible_state(st) + visible(word),
{
    let (rows, cur) = st;
    let sep: nat = if cur.len() == 0 {
        0
    } else {
        1
    };
    if cur.len() + sep + word.len() <= width {
        if cur.len() == 0 {
            assert(visible(cur) =~= Seq::<char>::empty());
            assert(visible_rows(rows) + visible(word) =~= visible_rows(rows) + Seq::<char>::empty()
                + visible(word));
        } else {
            lemma_visible_add(cur + seq![' '], word);
            lemma_visible_add(cur, seq![' ']);
            lemma_visible_space(' ');
            assert(visible(cur) + Seq::<char>::empty() =~= visible(cur));
            assert(visible_rows(rows) + (visible(cur) + visible(word)) =~= visible_rows(rows)
                + visible(cur) + visible(word));
        }
    } else {
        let rows1 = if cur.len() > 0 {
            rows.push(cur)
        } else {
            rows
        };
        lemma_visible_push(rows, cur);
        if cur.len() == 0 {
            assert(visible(cur) =~= Seq::<char>::empty());
            assert(visible_rows(rows) + Seq::<char>::empty() =~= visible_rows(rows));
        }
        assert(visible_rows(rows1) == visible_rows(rows) + visible(cur));
        if word.len() > width {
            let cs = chunks(word, width);
            lemma_chunks_len(word, width);
            lemma_visible_chunks(word, width);
            lemma_visible_rows_add(rows1, cs.drop_last());
            assert(cs =~= cs.drop_last().push(cs.last()));
            lemma_visible_push(cs.drop_last(), cs.last());
            assert(visible_rows(rows1) + visible_rows(cs.drop_last()) + visible(cs.last())
                =~= visible_rows(rows1) + (visible_rows(cs.drop_last()) + visible(cs.last())));
        }
    }
}

proof fn lemma_visible_place_all(
    st: (Seq<Seq<char>>, Seq<char>),
    ws: Seq<Seq<char>>,
    width: nat,
)
    ensures
        visible_state(place_all(st, ws, width)) == visible_state(st) + visible_rows(ws),
    decreases ws.len(),
{
    if ws.len() == 0 {
        assert(visible_state(st) + visible_rows(ws) =~= visible_state(st));
    } else {
        lemma_visible_place(st, ws[0], width);
        lemma_visible_place_all(place(st, ws[0], width), ws.drop_first(), width);
        assert(ws =~= seq![ws[0]] + ws.drop_first());
        lemma_visible_rows_add(seq![ws[0]], ws.drop_first());
        lemma_visible_rows_one(ws[0]);
        assert(visible_state(st) + visible(ws[0]) + visible_rows(ws.drop_first()) =~= visible_state(
            st,
        ) + (visible(ws[0]) + visible_rows(ws.drop_first())));
    }
}

proof fn lemma_visible_wrap_line(line: Seq<char>, width: nat)
    ensures
        visible_rows(wrap_line(line, width)) == visible(line),
{
    if line.len() == 0 {
        lemma_visible_rows_one(Seq::<char>::empty());
        assert(line =~= Seq::<char>::empty());
    } else {
        let e: (Seq<Seq<char>>, Seq<char>) = (Seq::empty(), Seq::empty());
        lemma_visible_place_all(e, words(line), width);
        lemma_visible_words(line);
        assert(visible_state(e) =~= Seq::<char>::empty());
        assert(visible_state(e) + visible_rows(words(line)) =~= visible_rows(words(line)));
        let (rows, cur) = place_all(e, words(line), width);
        lemma_visible_push(rows, cur);
        if cur.len() == 0 {
            assert(visible(cur) =~= Seq::<char>::empty());
            assert(visible_rows(rows) + visible(cur) =~= visible_rows(rows));
        }
    }
}

proof fn lemma_visible_wrap_lines(ls: Seq<Seq<char>>, width: nat)
    ensures
        visible_rows(wrap_lines(ls, width)) == visible_rows(ls),
    decreases ls.len(),
{
    if ls.len() == 0 {
    } else {
        lemma_visible_wrap_lines(ls.drop_first(), width);
        lemma_visible_wrap_line(ls[0], width);
        lemma_visible_rows_add(wrap_line(ls[0], width), wrap_lines(ls.drop_first(), width));
        assert(ls =~= seq![ls[0]] + ls.drop_first());
        lemma_visible_rows_add(seq![ls[0]], ls.drop_first());
        lemma_visible_rows_one(ls[0]);
    }
}

proof fn lemma_visible_strip_cr(line: Seq<char>)
    ensures
        visible(strip_cr(line)) == visible(line),
{
    if line.len() > 0 && line.last() == '\r' {
        assert(line =~= line.drop_last() + seq![line.last()]);
        lemma_visible_add(line.drop_last(), seq![line.last()]);
        lemma_visible_space('\r');
        assert(visible(line.drop_last()) + Seq::<char>::empty() =~= visible(line.drop_last()));
    }
}

proof fn lemma_visible_lines(s: Seq<char>)
    ensures
        visible_rows(lines(s)) == visible(s),
    decreases s.len(),
{
    lemma_newline_at_bound(s);
    let i = newline_at(s);
    if i >= s.len() {
        if s.len() == 0 {
        } else {
            lemma_visible_rows_one(s);
        }
    } else {
        let head = s.take(i as int);
        let rest = s.skip(i as int + 1);
        lemma_visible_lines(rest);
        lemma_visible_strip_cr(head);
        assert(s =~= head + seq![s[i as int]] + rest);
        lemma_visible_add(head + seq![s[i as int]], rest);
        lemma_visible_add(head, seq![s[i as int]]);
        lemma_visible_space(s[i as int]);
        assert(visible(head) + Seq::<char>::empty() =~= visible(head));
        lemma_visible_rows_add(seq![strip_cr(head)], lines(rest));
        lemma_visible_rows_one(strip_cr(head));
    }
}

/// With a width, wrapping keeps every visible character: the non-whitespace
/// characters of the rows, in order, are those of the text.
pub proof fn lemma_wrapped_keeps_visible(text: Seq<char>, width: nat)
    requires
        width > 0,
    ensures
        visible_rows(wrapped(text, width)) == visible(text),
{
    lemma_visible_lines(text);
    lemma_visible_wrap_lines(lines(text), width);
    if wrap_lines(lines(text), width).len() == 0 {
        lemma_visible_rows_one(Seq::<char>::empty());
    }
}

} // verus!
