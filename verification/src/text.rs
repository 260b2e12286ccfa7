//! Character-level text model: splitting member text into lines and
//! comma-separated fields, and a total lexicographic order on identifiers.
use vstd::prelude::*;

verus! {

use vstd::string::StrSliceExecFns;
use vstd::string::StringExecFns;

// ---------------------------------------------------------------------------
// Lexicographic order on character sequences (by Unicode code point).
// ---------------------------------------------------------------------------

/// Strict lexicographic order on character sequences, comparing code points.
pub open spec fn lex_lt(a: Seq<char>, b: Seq<char>) -> bool
    decreases a.len(),
{
    if b.len() == 0 {
        false
    } else if a.len() == 0 {
        true
    } else if (a[0] as u32) < (b[0] as u32) {
        true
    } else if a[0] == b[0] {
        lex_lt(a.drop_first(), b.drop_first())
    } else {
        false
    }
}

pub proof fn lemma_lex_total(a: Seq<char>, b: Seq<char>)
    ensures
        lex_lt(a, b) || lex_lt(b, a) || a == b,
    decreases a.len(),
{
    if a.len() == 0 && b.len() == 0 {
        assert(a =~= b);
    } else if a.len() > 0 && b.len() > 0 {
        if a[0] == b[0] {
            lemma_lex_total(a.drop_first(), b.drop_first());
            if a.drop_first() == b.drop_first() {
                assert forall|i: int| 0 <= i < a.len() implies a[i] == b[i] by {
                    if i > 0 {
                        assert(a[i] == a.drop_first()[i - 1]);
                        assert(b[i] == b.drop_first()[i - 1]);
                    }
                }
                assert(a =~= b);
            }
        } else {
            assert((a[0] as u32) != (b[0] as u32)) by {
                vstd::utf8::char_u32_cast(a[0], a[0] as u32);
                vstd::utf8::char_u32_cast(b[0], b[0] as u32);
            }
        }
    }
}

pub proof fn lemma_lex_trans(a: Seq<char>, b: Seq<char>, c: Seq<char>)
    requires
        lex_lt(a, b),
        lex_lt(b, c),
    ensures
        lex_lt(a, c),
    decreases a.len(),
{
    if a.len() > 0 && b.len() > 0 && c.len() > 0 {
        if a[0] == b[0] && b[0] == c[0] {
            lemma_lex_trans(a.drop_first(), b.drop_first(), c.drop_first());
        }
    }
}

/// Compare two strings in the lexicographic order `lex_lt`.
pub fn str_lex_lt(a: &str, b: &str) -> (r: bool)
    ensures
        r == lex_lt(a@, b@),
{
    let alen = a.unicode_len();
    let blen = b.unicode_len();
    let mut i: usize = 0;
    proof {
        assert(a@.skip(0) =~= a@);
        assert(b@.skip(0) =~= b@);
    }
    loop
        invariant
            i <= alen,
            i <= blen,
            alen == a@.len(),
            blen == b@.len(),
            lex_lt(a@, b@) == lex_lt(a@.skip(i as int), b@.skip(i as int)),
        decreases alen - i,
    {
        if i >= blen {
            return false;
        }
        if i >= alen {
            return true;
        }
        let ca = a.get_char(i);
        let cb = b.get_char(i);
        if (ca as u32) < (cb as u32) {
            return true;
        }
        if (ca as u32) > (cb as u32) {
            return false;
        }
        proof {
            assert(ca == cb) by {
                vstd::utf8::char_u32_cast(ca, ca as u32);
                vstd::utf8::char_u32_cast(cb, cb as u32);
            }
            assert(a@.skip(i as int).drop_first() =~= a@.skip(i + 1));
            assert(b@.skip(i as int).drop_first() =~= b@.skip(i + 1));
        }
        i = i + 1;
    }
}

/// Decide whether two strings hold the same character sequence.
pub fn str_eq_value(a: &str, b: &str) -> (r: bool)
    ensures
        r == (a@ == b@),
{
    let alen = a.unicode_len();
    let blen = b.unicode_len();
    if alen != blen {
        proof {
            if a@ == b@ {
                assert(a@.len() == b@.len());
            }
        }
        return false;
    }
    let mut i: usize = 0;
    while i < alen
        invariant
            i <= alen,
            alen == a@.len(),
            alen == b@.len(),
            forall|j: int| 0 <= j < i ==> a@[j] == b@[j],
        decreases alen - i,
    {
        let ca = a.get_char(i);
        let cb = b.get_char(i);
        if ca != cb {
            proof {
                if a@ == b@ {
                    assert(a@[i as int] == b@[i as int]);
                }
            }
            return false;
        }
        i = i + 1;
    }
    proof {
        assert(a@ =~= b@);
    }
    true
}

// ---------------------------------------------------------------------------
// Splitting on a separator character.
// ---------------------------------------------------------------------------

/// Split a character sequence on a separator. The result always holds one
/// segment more than the number of separators; segments may be empty.
pub open spec fn split_on(s: Seq<char>, sep: char) -> Seq<Seq<char>>
    decreases s.len(),
{
    if s.len() == 0 {
        seq![Seq::<char>::empty()]
    } else {
        let rest = split_on(s.drop_last(), sep);
        if s.last() == sep {
            rest.push(Seq::<char>::empty())
        } else {
            rest.update(rest.len() - 1, rest.last().push(s.last()))
        }
    }
}

pub proof fn lemma_split_on_len(s: Seq<char>, sep: char)
    ensures
        split_on(s, sep).len() >= 1,
    decreases s.len(),
{
    if s.len() > 0 {
        lemma_split_on_len(s.drop_last(), sep);
    }
}

/// Split a string on a separator character, as `split_on` describes.
pub fn split_str(s: &str, sep: char) -> (r: Vec<String>)
    ensures
        r.deep_view() == split_on(s@, sep),
{
    let n = s.unicode_len();
    let mut r: Vec<String> = Vec::new();
    let mut start: usize = 0;
    let mut i: usize = 0;
    proof {
        assert(s@.take(0) =~= Seq::<char>::empty());
        assert(s@.subrange(0, 0) =~= Seq::<char>::empty());
        assert(r.deep_view() =~= Seq::<Seq<char>>::empty());
        assert(r.deep_view().push(s@.subrange(0, 0)) =~~= split_on(s@.take(0), sep));
    }
    while i < n
        invariant
            start <= i <= n,
            n == s@.len(),
            r.deep_view().push(s@.subrange(start as int, i as int)) == split_on(
                s@.take(i as int),
                sep,
            ),
        decreases n - i,
    {
        let c = s.get_char(i);
        let ghost prev = split_on(s@.take(i as int), sep);
        proof {
            assert(s@.take(i + 1).drop_last() =~= s@.take(i as int));
            assert(s@.take(i + 1).last() == s@[i as int]);
        }
        if c == sep {
            let ghost pre = r.deep_view();
            let seg = String::from_str(s.substring_char(start, i));
            r.push(seg);
            start = i + 1;
            proof {
                assert(r.deep_view() =~= pre.push(seg@));
                assert(split_on(s@.take(i + 1), sep) == prev.push(Seq::<char>::empty()));
                assert(s@.subrange(start as int, (i + 1) as int) =~= Seq::<char>::empty());
                assert(r.deep_view().push(s@.subrange(start as int, (i + 1) as int)) =~~= prev.push(
                    Seq::<char>::empty(),
                ));
            }
        } else {
            proof {
                lemma_split_on_len(s@.take(i as int), sep);
                assert(prev.last() == s@.subrange(start as int, i as int));
                assert(s@.subrange(start as int, i as int).push(s@[i as int]) =~= s@.subrange(
                    start as int,
                    (i + 1) as int,
                ));
                assert(split_on(s@.take(i + 1), sep) == prev.update(
                    prev.len() - 1,
                    s@.subrange(start as int, (i + 1) as int),
                ));
                assert(r.deep_view().push(s@.subrange(start as int, (i + 1) as int)) =~~= prev.update(
                    prev.len() - 1,
                    s@.subrange(start as int, (i + 1) as int),
                ));
            }
        }
        i = i + 1;
    }
    let ghost pre = r.deep_view();
    let seg = String::from_str(s.substring_char(start, n));
    r.push(seg);
    proof {
        assert(s@.take(n as int) =~= s@);
        assert(r.deep_view() =~= pre.push(seg@));
        assert(r.deep_view() =~~= split_on(s@, sep));
    }
    r
}

// ---------------------------------------------------------------------------
// Lines: members are line-oriented, '\n'-separated, with an optional final
// newline; a trailing carriage return on a line is discarded.
// ---------------------------------------------------------------------------

/// Discard one trailing carriage return, if present.
pub open spec fn strip_cr(l: Seq<char>) -> Seq<char> {
    if l.len() > 0 && l.last() == '\r' {
        l.drop_last()
    } else {
        l
    }
}

/// Discard one trailing carriage return from every element.
pub open spec fn strip_cr_all(s: Seq<Seq<char>>) -> Seq<Seq<char>>
    decreases s.len(),
{
    if s.len() == 0 {
        Seq::<Seq<char>>::empty()
    } else {
        strip_cr_all(s.drop_last()).push(strip_cr(s.last()))
    }
}

/// The lines of a text: '\n'-separated, one optional final line ending,
/// each line with a trailing '\r' stripped. An empty text has no lines.
pub open spec fn spec_lines(s: Seq<char>) -> Seq<Seq<char>> {
    if s.len() == 0 {
        Seq::<Seq<char>>::empty()
    } else {
        let body = if s.last() == '\n' {
            s.drop_last()
        } else {
            s
        };
        strip_cr_all(split_on(body, '\n'))
    }
}

/// Split a text into lines, as `spec_lines` describes.
pub fn text_lines(s: &str) -> (r: Vec<String>)
    ensures
        r.deep_view() == spec_lines(s@),
{
    let n = s.unicode_len();
    if n == 0 {
        let r: Vec<String> = Vec::new();
        proof {
            assert(r.deep_view() =~= spec_lines(s@));
        }
        return r;
    }
    let last = s.get_char(n - 1);
    let body: &str = if last == '\n' {
        s.substring_char(0, n - 1)
    } else {
        s
    };
    proof {
        if last == '\n' {
            assert(s@.subrange(0, n - 1) =~= s@.drop_last());
        }
    }
    let raw = split_str(body, '\n');
    let mut r: Vec<String> = Vec::new();
    let mut i: usize = 0;
    proof {
        assert(raw.deep_view().take(0) =~= Seq::<Seq<char>>::empty());
        assert(r.deep_view() =~~= strip_cr_all(raw.deep_view().take(0)));
    }
    while i < raw.len()
        invariant
            i <= raw.len(),
            raw.deep_view() == split_on(body@, '\n'),
            spec_lines(s@) == strip_cr_all(raw.deep_view()),
            r.deep_view() == strip_cr_all(raw.deep_view().take(i as int)),
        decreases raw.len() - i,
    {
        proof {
            assert(raw.deep_view().take(i + 1).drop_last() =~= raw.deep_view().take(i as int));
            assert(raw.deep_view()[i as int] == raw@[i as int]@);
        }
        let ghost pre = r.deep_view();
        let line = &raw[i];
        let llen = line.as_str().unicode_len();
        if llen > 0 && line.as_str().get_char(llen - 1) == '\r' {
            let stripped = String::from_str(line.as_str().substring_char(0, llen - 1));
            proof {
                assert(line@.subrange(0, llen - 1) =~= line@.drop_last());
            }
            r.push(stripped);
            proof {
                assert(r.deep_view() =~= pre.push(stripped@));
            }
        } else {
            let kept = line.clone();
            r.push(kept);
            proof {
                assert(r.deep_view() =~= pre.push(kept@));
            }
        }
        proof {
            assert(r.deep_view() == strip_cr_all(raw.deep_view().take(i + 1)));
        }
        i = i + 1;
    }
    proof {
        assert(raw.deep_view().take(raw.deep_view().len() as int) =~= raw.deep_view());
    }
    r
}

// ---------------------------------------------------------------------------
// Rows: every non-empty line of a member, split on commas.
// ---------------------------------------------------------------------------

/// The rows carried by a sequence of lines: empty lines are skipped, every
/// other line is split on commas.
pub open spec fn rows_of_lines(lines: Seq<Seq<char>>) -> Seq<Seq<Seq<char>>>
    decreases lines.len(),
{
    if lines.len() == 0 {
        Seq::<Seq<Seq<char>>>::empty()
    } else {
        let rest = rows_of_lines(lines.drop_last());
        if lines.last().len() == 0 {
            rest
        } else {
            rest.push(split_on(lines.last(), ','))
        }
    }
}

/// The rows of a member text: its non-empty lines, each split on commas.
pub open spec fn spec_rows(text: Seq<char>) -> Seq<Seq<Seq<char>>> {
    rows_of_lines(spec_lines(text))
}

/// Split a member text into rows of fields, as `spec_rows` describes.
pub fn text_rows(text: &str) -> (r: Vec<Vec<String>>)
    ensures
        r.deep_view() == spec_rows(text@),
{
    let lines = text_lines(text);
    let mut r: Vec<Vec<String>> = Vec::new();
    let mut i: usize = 0;
    proof {
        assert(lines.deep_view().take(0) =~= Seq::<Seq<char>>::empty());
        assert(r.deep_view() =~~= rows_of_lines(lines.deep_view().take(0)));
    }
    while i < lines.len()
        invariant
            i <= lines.len(),
            lines.deep_view() == spec_lines(text@),
            r.deep_view() == rows_of_lines(lines.deep_view().take(i as int)),
        decreases lines.len() - i,
    {
        proof {
            assert(lines.deep_view().take(i + 1).drop_last() =~= lines.deep_view().take(i as int));
            assert(lines.deep_view()[i as int] == lines@[i as int]@);
        }
        let ghost pre = r.deep_view();
        let line = &lines[i];
        if !line.as_str().is_empty() {
            let row = split_str(line.as_str(), ',');
            r.push(row);
            proof {
                assert(r.deep_view() =~= pre.push(row.deep_view()));
                assert(r.deep_view() == rows_of_lines(lines.deep_view().take(i + 1)));
            }
        } else {
            proof {
                assert(r.deep_view() == rows_of_lines(lines.deep_view().take(i + 1)));
            }
        }
        i = i + 1;
    }
    proof {
        assert(lines.deep_view().take(lines.deep_view().len() as int) =~= lines.deep_view());
    }
    r
}

} // verus!
