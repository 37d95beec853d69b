//! The text model: a document as a sequence of chars, its lines, and
//! substring containment.
use vstd::prelude::*;
use vstd::string::{StrSliceExecFns, StringSliceAdditionalSpecFns};
use vstd::utf8::*;

verus! {

/// Whether `pat` occurs in `text` as a contiguous run of chars.
pub open spec fn contains(text: Seq<char>, pat: Seq<char>) -> bool {
    exists|i: int|
        0 <= i && i + pat.len() <= text.len() && #[trigger] text.subrange(i, i + pat.len()) == pat
}

/// Index of the first `'\n'` in `s`, or the length of `s` when it has none.
pub open spec fn line_end(s: Seq<char>) -> nat
    decreases s.len(),
{
    if s.len() == 0 {
        0
    } else if s[0] == '\n' {
        0
    } else {
        1 + line_end(s.drop_first())
    }
}

/// A line that a `'\n'` ended, without the `'\r'` of a `"\r\n"` ending.
pub open spec fn strip_cr(line: Seq<char>) -> Seq<char> {
    if line.len() > 0 && line.last() == '\r' {
        line.drop_last()
    } else {
        line
    }
}

/// The lines of `s`: it is cut after each `'\n'`; a line loses its `"\n"` or
/// `"\r\n"` ending; text after the last `'\n'` is one more line, and a final
/// `'\n'` adds no empty line.
pub open spec fn lines(s: Seq<char>) -> Seq<Seq<char>>
    decreases s.len(),
{
    if s.len() == 0 {
        seq![]
    } else {
        let e = line_end(s) as int;
        if e < s.len() {
            seq![strip_cr(s.take(e))] + lines(s.skip(e + 1))
        } else {
            seq![s]
        }
    }
}

/// `line_end` is the first position holding `'\n'`, or the end.
proof fn lemma_line_end(s: Seq<char>, k: int)
    requires
        0 <= k <= s.len(),
        forall|j: int| 0 <= j < k ==> s[j] != '\n',
        k == s.len() || s[k] == '\n',
    ensures
        line_end(s) == k,
    decreases k,
{
    if k > 0 {
        lemma_line_end(s.drop_first(), k - 1);
    }
}

/// The chars of `s`, in order.
pub(crate) fn chars_of(s: &str) -> (r: Vec<char>)
    ensures
        r@ == s@,
{
    let mut r: Vec<char> = Vec::new();
    for c in it: s.chars()
        invariant
            r@ == it.seq().take(it.index() as int),
    {
        r.push(c);
    }
    r
}


/// Whether `pat` occurs in `text`.
pub(crate) fn contains_chars(text: &Vec<char>, pat: &Vec<char>) -> (r: bool)
    ensures
        r == contains(text@, pat@),
{
    if pat.len() > text.len() {
        return false;
    }
    let last: usize = text.len() - pat.len();
    let mut i: usize = 0;
    while i <= last
        invariant
            last == text.len() - pat.len(),
            pat.len() <= text.len(),
            0 <= i <= last + 1,
            forall|k: int| 0 <= k < i ==> #[trigger] text@.subrange(k, k + pat.len()) != pat@,
        decreases last + 1 - i,
    {
        let mut j: usize = 0;
        while j < pat.len() && text[i + j] == pat[j]
            invariant
                i <= last,
                last == text.len() - pat.len(),
                0 <= j <= pat.len(),
                forall|t: int| 0 <= t < j ==> text@[i + t] == pat@[t],
            decreases pat.len() - j,
        {
            j = j + 1;
        }
        if j == pat.len() {
            assert(text@.subrange(i as int, i + pat.len()) =~= pat@);
            return true;
        }
        assert(text@.subrange(i as int, i + pat.len())[j as int] != pat@[j as int]);
        i = i + 1;
    }
    assert forall|k: int| 0 <= k && k + pat.len() <= text.len() implies
        #[trigger] text@.subrange(k, k + pat.len()) != pat@ by {}
    false
}

/// The UTF-8 encoding of a concatenation is the concatenation of the encodings.
proof fn lemma_encode_concat(a: Seq<char>, b: Seq<char>)
    ensures
        encode_utf8(a + b) == encode_utf8(a) + encode_utf8(b),
    decreases a.len(),
{
    if a.len() > 0 {
        assert((a + b).drop_first() =~= a.drop_first() + b);
        lemma_encode_concat(a.drop_first(), b);
        assert(encode_utf8(a + b) =~= encode_utf8(a) + encode_utf8(b));
    }
}

/// The end of an encoded prefix is a char boundary of the whole encoding.
proof fn lemma_prefix_boundary(a: Seq<char>, b: Seq<char>)
    ensures
        is_char_boundary(encode_utf8(a + b), encode_utf8(a).len() as int),
    decreases a.len(),
{
    broadcast use encode_utf8_valid_utf8;

    if a.len() > 0 {
        let ab = a + b;
        lemma_encode_concat(a, b);
        encode_utf8_first_scalar(ab);
        assert(ab.drop_first() =~= a.drop_first() + b);
        assert(pop_first_scalar(encode_utf8(ab)) =~= encode_utf8(a.drop_first() + b));
        lemma_encode_concat(a.drop_first(), b);
        lemma_prefix_boundary(a.drop_first(), b);
    }
}

/// Splits `s` after its first `k` chars.
fn split_at_char<'a>(s: &'a str, k: usize) -> (r: (&'a str, &'a str))
    requires
        k <= s@.len(),
    ensures
        r.0@ == s@.take(k as int),
        r.1@ == s@.skip(k as int),
{
    broadcast use encode_utf8_decode_utf8;

    let head = s.substring_char(0, k);
    proof {
        assert(s@ =~= s@.take(k as int) + s@.skip(k as int));
        lemma_encode_concat(s@.take(k as int), s@.skip(k as int));
        lemma_prefix_boundary(s@.take(k as int), s@.skip(k as int));
        assert(head.spec_bytes() == encode_utf8(s@.take(k as int)));
        assert(s.spec_bytes() == encode_utf8(s@));
    }
    let n = head.as_bytes().len();
    assert(n == encode_utf8(s@.take(k as int)).len());
    let r = s.split_at(n);
    proof {
        let n = encode_utf8(s@.take(k as int)).len() as int;
        assert(encode_utf8(s@) == encode_utf8(s@.take(k as int)) + encode_utf8(s@.skip(k as int)));
        assert(r.0.spec_bytes() =~= encode_utf8(s@.take(k as int)));
        assert(r.1.spec_bytes() =~= encode_utf8(s@.skip(k as int)));
        assert(r.0.spec_bytes() == encode_utf8(r.0@));
        assert(r.1.spec_bytes() == encode_utf8(r.1@));
        assert(decode_utf8(encode_utf8(r.0@)) == decode_utf8(encode_utf8(s@.take(k as int))));
        assert(decode_utf8(encode_utf8(r.1@)) == decode_utf8(encode_utf8(s@.skip(k as int))));
    }
    r
}


/// The views of a sequence of string slices.
pub open spec fn views(v: Seq<&str>) -> Seq<Seq<char>> {
    v.map_values(|s: &str| s@)
}

/// The lines of `contents`, as slices of it, in order.
pub fn split_lines<'a>(contents: &'a str) -> (r: Vec<&'a str>)
    ensures
        views(r@) == lines(contents@),
{
    let cs = chars_of(contents);
    let mut out: Vec<&'a str> = Vec::new();
    let mut rest: &'a str = contents;
    let mut start: usize = 0;
    assert(rest@ =~= cs@.skip(0));
    assert(views(out@) =~= Seq::<Seq<char>>::empty());
    while start < cs.len()
        invariant
            cs@ == contents@,
            start <= cs.len(),
            rest@ == cs@.skip(start as int),
            lines(contents@) == views(out@) + lines(rest@),
        decreases cs.len() - start,
    {
        let mut e: usize = start;
        while e < cs.len() && cs[e] != '\n'
            invariant
                start <= e <= cs.len(),
                forall|j: int| start <= j < e ==> cs@[j] != '\n',
            decreases cs.len() - e,
        {
            e = e + 1;
        }
        proof {
            lemma_line_end(rest@, e - start);
        }
        if e < cs.len() {
            let stop: usize = if e > start && cs[e - 1] == '\r' {
                e - 1
            } else {
                e
            };
            let (line, _) = split_at_char(rest, stop - start);
            let (_, tail) = split_at_char(rest, e - start + 1);
            proof {
                assert(line@ =~= strip_cr(rest@.take(e - start)));
                assert(tail@ =~= cs@.skip(e + 1));
                assert(views(out@.push(line)) =~= views(out@) + seq![line@]);
                assert(lines(rest@) == seq![line@] + lines(tail@));
                assert(views(out@) + (seq![line@] + lines(tail@)) =~= (views(out@) + seq![line@])
                    + lines(tail@));
            }
            out.push(line);
            rest = tail;
            start = e + 1;
        } else {
            proof {
                assert(lines(rest@) == seq![rest@]);
                assert(views(out@.push(rest)) =~= views(out@) + seq![rest@]);
            }
            out.push(rest);
            return out;
        }
    }
    assert(rest@.len() == 0);
    assert(views(out@) + lines(rest@) =~= views(out@));
    out
}

} // verus!
