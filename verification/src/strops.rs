//! Character-sequence operations the wire-protocol layer is built on:
//! line splitting, separator splitting, whitespace tokenization and
//! substring search, each an executable function proved against a
//! spec-level definition over `Seq<char>`.
use vstd::prelude::*;

verus! {

/// The views of a vector of strings, in order.
pub open spec fn views_of(v: Seq<String>) -> Seq<Seq<char>> {
    Seq::new(v.len(), |i: int| v[i]@)
}

/// Whitespace as the tokenizer understands it: space, tab, carriage
/// return and line feed.
pub open spec fn is_wsp(c: char) -> bool {
    c == ' ' || c == '\t' || c == '\r' || c == '\n'
}

/// Number of characters before the first occurrence of `sep`
/// (the whole length when `sep` does not occur).
pub open spec fn seg_len(s: Seq<char>, sep: char) -> nat
    decreases s.len(),
{
    if s.len() == 0 || s[0] == sep {
        0
    } else {
        (1 + seg_len(s.drop_first(), sep)) as nat
    }
}

/// Length of the maximal leading run of non-whitespace characters.
pub open spec fn run_len(s: Seq<char>) -> nat
    decreases s.len(),
{
    if s.len() == 0 || is_wsp(s[0]) {
        0
    } else {
        (1 + run_len(s.drop_first())) as nat
    }
}

pub proof fn lemma_seg_len_le(s: Seq<char>, sep: char)
    ensures
        seg_len(s, sep) <= s.len(),
    decreases s.len(),
{
    if s.len() == 0 || s[0] == sep {
    } else {
        lemma_seg_len_le(s.drop_first(), sep);
    }
}

pub proof fn lemma_run_len_le(s: Seq<char>)
    ensures
        run_len(s) <= s.len(),
    decreases s.len(),
{
    if s.len() == 0 || is_wsp(s[0]) {
    } else {
        lemma_run_len_le(s.drop_first());
    }
}

/// The segments of `s` around the separator `sep`, as `str::split`
/// yields them: one segment more than there are separators, an empty
/// input giving one empty segment.
pub open spec fn split_on(s: Seq<char>, sep: char) -> Seq<Seq<char>>
    decreases s.len(),
{
    let k = seg_len(s, sep);
    if k >= s.len() {
        seq![s]
    } else {
        seq![s.take(k as int)] + split_on(s.skip(k as int + 1), sep)
    }
}

/// The whitespace-separated tokens of `s`, in order, each non-empty.
pub open spec fn tokens_of(s: Seq<char>) -> Seq<Seq<char>>
    decreases s.len(),
{
    if s.len() == 0 {
        Seq::empty()
    } else if is_wsp(s[0]) {
        tokens_of(s.drop_first())
    } else {
        let k = run_len(s);
        if k >= s.len() {
            seq![s]
        } else {
            seq![s.take(k as int)] + tokens_of(s.skip(k as int))
        }
    }
}

/// A line terminated by a newline loses one trailing carriage return,
/// as `str::lines` strips it.
pub open spec fn strip_cr(l: Seq<char>) -> Seq<char> {
    if l.len() > 0 && l[l.len() - 1] == '\r' {
        l.drop_last()
    } else {
        l
    }
}

/// The lines of `s` as `str::lines` yields them: split at `\n`, a
/// carriage return just before the `\n` stripped, no empty line after
/// a final terminator, and a final unterminated line kept whole.
pub open spec fn lines_of(s: Seq<char>) -> Seq<Seq<char>>
    decreases s.len(),
{
    if s.len() == 0 {
        Seq::empty()
    } else {
        let k = seg_len(s, '\n');
        if k >= s.len() {
            seq![s]
        } else {
            seq![strip_cr(s.take(k as int))] + lines_of(s.skip(k as int + 1))
        }
    }
}

/// `needle` occurs as a contiguous substring of `hay`.
pub open spec fn contains_seq(hay: Seq<char>, needle: Seq<char>) -> bool {
    exists|i: int|
        0 <= i && i + needle.len() <= hay.len() && #[trigger] hay.subrange(i, i + needle.len())
            == needle
}

fn is_wsp_exec(c: char) -> (r: bool)
    ensures
        r == is_wsp(c),
{
    c == ' ' || c == '\t' || c == '\r' || c == '\n'
}

/// First index of `sep` in `s`, or the length when `sep` is absent.
fn seg_len_exec(s: &str, sep: char) -> (k: usize)
    ensures
        k == seg_len(s@, sep),
    decreases s@.len(),
{
    let n = s.unicode_len();
    if n == 0 || s.get_char(0) == sep {
        0
    } else {
        let rest = s.substring_char(1, n);
        assert(rest@ == s@.drop_first());
        let r = seg_len_exec(rest, sep);
        proof {
            lemma_seg_len_le(rest@, sep);
        }
        1 + r
    }
}

fn run_len_exec(s: &str) -> (k: usize)
    ensures
        k == run_len(s@),
    decreases s@.len(),
{
    let n = s.unicode_len();
    if n == 0 || is_wsp_exec(s.get_char(0)) {
        0
    } else {
        let rest = s.substring_char(1, n);
        assert(rest@ == s@.drop_first());
        let r = run_len_exec(rest);
        proof {
            lemma_run_len_le(rest@);
        }
        1 + r
    }
}

/// Character-for-character string equality.
pub fn str_eq(a: &str, b: &str) -> (r: bool)
    ensures
        r == (a@ == b@),
    decreases a@.len(),
{
    let na = a.unicode_len();
    let nb = b.unicode_len();
    if na != nb {
        assert(a@ != b@);
        false
    } else if na == 0 {
        assert(a@ =~= b@);
        true
    } else if a.get_char(0) != b.get_char(0) {
        assert(a@ != b@);
        false
    } else {
        let ra = a.substring_char(1, na);
        let rb = b.substring_char(1, nb);
        assert(ra@ == a@.drop_first());
        assert(rb@ == b@.drop_first());
        let r = str_eq(ra, rb);
        proof {
            if ra@ == rb@ {
                assert forall|i: int| 0 <= i < a@.len() implies a@[i] == b@[i] by {
                    if i > 0 {
                        assert(a@[i] == a@.drop_first()[i - 1]);
                        assert(b@[i] == b@.drop_first()[i - 1]);
                    }
                }
                assert(a@ =~= b@);
            } else {
                assert(a@ != b@) by {
                    if a@ == b@ {
                        assert(a@.drop_first() =~= b@.drop_first());
                    }
                }
            }
        }
        r
    }
}

/// Whether `needle` occurs as a substring of `hay`.
pub fn contains_sub(hay: &str, needle: &str) -> (r: bool)
    ensures
        r == contains_seq(hay@, needle@),
    decreases hay@.len(),
{
    let nh = hay.unicode_len();
    let nn = needle.unicode_len();
    if nn > nh {
        assert(!contains_seq(hay@, needle@));
        false
    } else if nn == 0 {
        proof {
            let w: int = 0;
            assert(hay@.subrange(w, w + needle@.len()) =~= needle@);
        }
        true
    } else if str_eq(hay.substring_char(0, nn), needle) {
        proof {
            let w: int = 0;
            assert(hay@.subrange(w, w + needle@.len()) == needle@);
        }
        true
    } else {
        let rest = hay.substring_char(1, nh);
        assert(rest@ == hay@.drop_first());
        let r = contains_sub(rest, needle);
        proof {
            if r {
                let i = choose|i: int|
                    0 <= i && i + needle@.len() <= rest@.len() && #[trigger] rest@.subrange(
                        i,
                        i + needle@.len(),
                    ) == needle@;
                assert(hay@.subrange(i + 1, i + 1 + needle@.len()) =~= rest@.subrange(
                    i,
                    i + needle@.len(),
                ));
                assert(contains_seq(hay@, needle@));
            } else {
                if contains_seq(hay@, needle@) {
                    let i = choose|i: int|
                        0 <= i && i + needle@.len() <= hay@.len() && #[trigger] hay@.subrange(
                            i,
                            i + needle@.len(),
                        ) == needle@;
                    if i == 0 {
                        assert(hay@.subrange(0, nn as int) == needle@);
                    } else {
                        assert(rest@.subrange(i - 1, i - 1 + needle@.len()) =~= hay@.subrange(
                            i,
                            i + needle@.len(),
                        ));
                        assert(contains_seq(rest@, needle@));
                    }
                }
            }
        }
        r
    }
}

/// Whether `s` ends with `suffix`.
pub fn str_ends_with(s: &str, suffix: &str) -> (r: bool)
    ensures
        r == (suffix@.len() <= s@.len() && s@.subrange(
            s@.len() - suffix@.len(),
            s@.len() as int,
        ) == suffix@),
{
    let n = s.unicode_len();
    let m = suffix.unicode_len();
    if m > n {
        false
    } else {
        str_eq(s.substring_char(n - m, n), suffix)
    }
}

/// The segments of `s` around `sep`, as owned strings.
pub fn split_char(s: &str, sep: char) -> (r: Vec<String>)
    ensures
        views_of(r@) == split_on(s@, sep),
        r@.len() >= 1,
    decreases s@.len(),
{
    let n = s.unicode_len();
    let k = seg_len_exec(s, sep);
    proof {
        lemma_seg_len_le(s@, sep);
    }
    if k >= n {
        let head = s.to_owned();
        let r = vec![head];
        assert(views_of(r@) =~= split_on(s@, sep));
        r
    } else {
        let head = s.substring_char(0, k).to_owned();
        assert(head@ == s@.take(k as int));
        let tail = s.substring_char(k + 1, n);
        assert(tail@ == s@.skip(k as int + 1));
        let mut r = split_char(tail, sep);
        let ghost old_r = r@;
        r.insert(0, head);
        assert(views_of(r@) =~= seq![head@] + views_of(old_r));
        assert(views_of(r@) =~= split_on(s@, sep));
        r
    }
}

/// The whitespace-separated tokens of `s`, as owned strings.
pub fn tokens_vec(s: &str) -> (r: Vec<String>)
    ensures
        views_of(r@) == tokens_of(s@),
    decreases s@.len(),
{
    let n = s.unicode_len();
    if n == 0 {
        let r: Vec<String> = Vec::new();
        assert(views_of(r@) =~= tokens_of(s@));
        r
    } else if is_wsp_exec(s.get_char(0)) {
        let rest = s.substring_char(1, n);
        assert(rest@ == s@.drop_first());
        tokens_vec(rest)
    } else {
        let k = run_len_exec(s);
        proof {
            lemma_run_len_le(s@);
        }
        if k >= n {
            let r = vec![s.to_owned()];
            assert(views_of(r@) =~= tokens_of(s@));
            r
        } else {
            let head = s.substring_char(0, k).to_owned();
            assert(head@ == s@.take(k as int));
            let tail = s.substring_char(k, n);
            assert(tail@ == s@.skip(k as int));
            let mut r = tokens_vec(tail);
            let ghost old_r = r@;
            r.insert(0, head);
            assert(views_of(r@) =~= seq![head@] + views_of(old_r));
            assert(views_of(r@) =~= tokens_of(s@));
            r
        }
    }
}

/// The lines of `s`, as owned strings, with `str::lines` semantics.
pub fn lines_vec(s: &str) -> (r: Vec<String>)
    ensures
        views_of(r@) == lines_of(s@),
    decreases s@.len(),
{
    let n = s.unicode_len();
    if n == 0 {
        let r: Vec<String> = Vec::new();
        assert(views_of(r@) =~= lines_of(s@));
        r
    } else {
        let k = seg_len_exec(s, '\n');
        proof {
            lemma_seg_len_le(s@, '\n');
        }
        if k >= n {
            let r = vec![s.to_owned()];
            assert(views_of(r@) =~= lines_of(s@));
            r
        } else {
            let head = if k > 0 && s.get_char(k - 1) == '\r' {
                let h = s.substring_char(0, k - 1).to_owned();
                assert(h@ =~= strip_cr(s@.take(k as int)));
                h
            } else {
                let h = s.substring_char(0, k).to_owned();
                assert(h@ =~= strip_cr(s@.take(k as int)));
                h
            };
            let tail = s.substring_char(k + 1, n);
            assert(tail@ == s@.skip(k as int + 1));
            let mut r = lines_vec(tail);
            let ghost old_r = r@;
            r.insert(0, head);
            assert(views_of(r@) =~= seq![head@] + views_of(old_r));
            assert(views_of(r@) =~= lines_of(s@));
            r
        }
    }
}

} // verus!
