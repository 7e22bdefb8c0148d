//! Text as sequences of characters.
//!
//! The document is a sequence of lines, each a sequence of characters.
//! Loading splits a flat text on `'\n'`; saving joins the lines with `'\n'`
//! and appends no trailing newline. The two are exact inverses
//! ([`lemma_split_join_round_trip`]). This module also holds small verified
//! helpers for building status texts (literals and decimal numbers).

use vstd::prelude::*;
use vstd::string::StrSliceExecFns;

verus! {

/// The abstract contents of a vector of lines: one `Seq<char>` per line.
pub open spec fn lines_view(b: Seq<Vec<char>>) -> Seq<Seq<char>> {
    Seq::new(b.len(), |i: int| b[i]@)
}

/// Split a text on `'\n'`. Every text yields at least one line; a trailing
/// newline yields a trailing empty line.
pub open spec fn split_lines(s: Seq<char>) -> Seq<Seq<char>>
    decreases s.len(),
{
    if s.len() == 0 {
        seq![Seq::<char>::empty()]
    } else if s[0] == '\n' {
        seq![Seq::<char>::empty()] + split_lines(s.skip(1))
    } else {
        let rest = split_lines(s.skip(1));
        seq![seq![s[0]] + rest[0]] + rest.skip(1)
    }
}

/// Join lines with `'\n'`, appending no trailing newline.
pub open spec fn join_lines(ls: Seq<Seq<char>>) -> Seq<char>
    decreases ls.len(),
{
    if ls.len() == 0 {
        Seq::empty()
    } else if ls.len() == 1 {
        ls[0]
    } else {
        ls[0] + seq!['\n'] + join_lines(ls.skip(1))
    }
}

pub proof fn lemma_split_lines_nonempty(s: Seq<char>)
    ensures
        split_lines(s).len() >= 1,
{
}

/// Joining after appending one more line appends a newline and that line.
pub proof fn lemma_join_push(ls: Seq<Seq<char>>, x: Seq<char>)
    requires
        ls.len() >= 1,
    ensures
        join_lines(ls.push(x)) == join_lines(ls) + seq!['\n'] + x,
    decreases ls.len(),
{
    if ls.len() == 1 {
        let p = ls.push(x);
        assert(p.len() == 2);
        assert(p.skip(1) =~= seq![x]);
        assert(join_lines(seq![x]) == x);
        assert(join_lines(p) == p[0] + seq!['\n'] + join_lines(p.skip(1)));
        assert(join_lines(ls.push(x)) == ls[0] + seq!['\n'] + x);
    } else {
        assert(ls.push(x).skip(1) =~= ls.skip(1).push(x));
        lemma_join_push(ls.skip(1), x);
        assert(join_lines(ls.push(x)) =~= join_lines(ls) + seq!['\n'] + x);
    }
}

/// Serializing a loaded text gives the text back, for every text: splitting
/// on newlines and joining with newlines are exact inverses.
pub proof fn lemma_split_join_round_trip(s: Seq<char>)
    ensures
        join_lines(split_lines(s)) == s,
    decreases s.len(),
{
    if s.len() == 0 {
    } else if s[0] == '\n' {
        lemma_split_join_round_trip(s.skip(1));
        lemma_split_lines_nonempty(s.skip(1));
        let rest = split_lines(s.skip(1));
        let parts = seq![Seq::<char>::empty()] + rest;
        assert(split_lines(s) == parts);
        assert(parts.len() >= 2);
        assert(parts.skip(1) =~= rest);
        assert(parts[0] =~= Seq::<char>::empty());
        assert(join_lines(parts) == parts[0] + seq!['\n'] + join_lines(parts.skip(1)));
        assert(join_lines(parts) =~= s);
    } else {
        lemma_split_join_round_trip(s.skip(1));
        let rest = split_lines(s.skip(1));
        lemma_split_lines_nonempty(s.skip(1));
        let parts = seq![seq![s[0]] + rest[0]] + rest.skip(1);
        assert(split_lines(s) == parts);
        if rest.len() == 1 {
            assert(parts.len() == 1);
            assert(join_lines(rest) == rest[0]);
            assert(join_lines(parts) =~= s);
        } else {
            assert(parts.len() >= 2);
            assert(parts.skip(1) =~= rest.skip(1));
            assert(join_lines(parts) == parts[0] + seq!['\n'] + join_lines(parts.skip(1)));
            assert(join_lines(rest) == rest[0] + seq!['\n'] + join_lines(rest.skip(1)));
            assert(join_lines(parts) =~= seq![s[0]] + join_lines(rest));
            assert(seq![s[0]] + join_lines(rest) =~= s);
            assert(join_lines(parts) =~= s);
        }
    }
}

/// The first line of a split extended to the left with characters `p`.
pub open spec fn prepend_first(p: Seq<char>, ls: Seq<Seq<char>>) -> Seq<Seq<char>> {
    seq![p + ls[0]] + ls.skip(1)
}

/// Split a text into its lines.
pub fn split_text(text: &Vec<char>) -> (r: Vec<Vec<char>>)
    ensures
        lines_view(r@) == split_lines(text@),
        r@.len() >= 1,
{
    let mut out: Vec<Vec<char>> = Vec::new();
    let mut cur: Vec<char> = Vec::new();
    let n = text.len();
    let mut i: usize = 0;
    proof {
        assert(text@.skip(0) =~= text@);
        lemma_split_lines_nonempty(text@);
        let sp = split_lines(text@);
        assert(prepend_first(Seq::<char>::empty(), sp)[0] =~= sp[0]);
        assert(prepend_first(Seq::<char>::empty(), sp) =~= sp);
        assert(lines_view(out@) + prepend_first(cur@, split_lines(text@.skip(0))) =~= sp);
    }
    while i < n
        invariant
            i <= n,
            n == text@.len(),
            split_lines(text@) =~= lines_view(out@) + prepend_first(cur@, split_lines(text@.skip(i as int))),
        decreases n - i,
    {
        let c = text[i];
        proof {
            assert(text@.skip(i as int).len() > 0);
            assert(text@.skip(i as int)[0] == c);
            assert(text@.skip(i as int).skip(1) =~= text@.skip(i + 1));
        }
        if c == '\n' {
            let ghost old_out = out@;
            let ghost old_cur = cur@;
            out.push(cur);
            cur = Vec::new();
            proof {
                lemma_split_lines_nonempty(text@.skip(i + 1));
                assert(lines_view(out@) =~= lines_view(old_out).push(old_cur));
                let rest = split_lines(text@.skip(i + 1));
                assert(prepend_first(old_cur, seq![Seq::<char>::empty()] + rest)
                    =~= seq![old_cur] + rest);
                assert(prepend_first(Seq::<char>::empty(), rest)[0] =~= rest[0]);
                assert(prepend_first(Seq::<char>::empty(), rest) =~= rest);
                assert(lines_view(out@) + prepend_first(cur@, rest)
                    =~= lines_view(old_out) + prepend_first(old_cur, split_lines(text@.skip(i as int))));
            }
        } else {
            let ghost old_cur = cur@;
            cur.push(c);
            proof {
                let rest = split_lines(text@.skip(i + 1));
                lemma_split_lines_nonempty(text@.skip(i + 1));
                assert(split_lines(text@.skip(i as int))
                    =~= seq![seq![c] + rest[0]] + rest.skip(1));
                assert(prepend_first(old_cur, split_lines(text@.skip(i as int)))[0]
                    =~= (old_cur.push(c)) + rest[0]);
                assert(prepend_first(old_cur, split_lines(text@.skip(i as int)))
                    =~= prepend_first(cur@, rest));
            }
        }
        i += 1;
    }
    proof {
        assert(text@.skip(n as int) =~= Seq::<char>::empty());
        lemma_split_lines_nonempty(Seq::<char>::empty());
        assert(split_lines(Seq::<char>::empty()) =~= seq![Seq::<char>::empty()]);
        assert(prepend_first(cur@, split_lines(Seq::<char>::empty())) =~= seq![cur@]);
    }
    let ghost final_cur = cur@;
    out.push(cur);
    proof {
        assert(lines_view(out@) =~= split_lines(text@));
    }
    out
}

/// Append every character of `src` to `dst`.
pub fn push_line(dst: &mut Vec<char>, src: &Vec<char>)
    ensures
        final(dst)@ == old(dst)@ + src@,
{
    let n = src.len();
    let mut i: usize = 0;
    while i < n
        invariant
            i <= n,
            n == src@.len(),
            dst@ =~= old(dst)@ + src@.take(i as int),
        decreases n - i,
    {
        dst.push(src[i]);
        i += 1;
    }
    proof {
        assert(old(dst)@ + src@.take(n as int) =~= old(dst)@ + src@);
    }
}

/// Append the characters of `src` between `from` and `to` to `dst`.
pub fn push_sub(dst: &mut Vec<char>, src: &Vec<char>, from: usize, to: usize)
    requires
        from <= to <= src@.len(),
    ensures
        final(dst)@ == old(dst)@ + src@.subrange(from as int, to as int),
{
    let mut j: usize = from;
    while j < to
        invariant
            from <= j <= to <= src@.len(),
            dst@ =~= old(dst)@ + src@.subrange(from as int, j as int),
        decreases to - j,
    {
        dst.push(src[j]);
        proof {
            i_step_sub(src@, from as int, j as int);
        }
        j += 1;
    }
    proof {
        assert(old(dst)@ + src@.subrange(from as int, to as int) =~= dst@);
    }
}

proof fn i_step_sub(s: Seq<char>, from: int, j: int)
    requires
        0 <= from <= j < s.len(),
    ensures
        s.subrange(from, j).push(s[j]) =~= s.subrange(from, j + 1),
{
}

/// Join lines with `'\n'` into one flat text, with no trailing newline.
pub fn join_text(lines: &Vec<Vec<char>>) -> (r: Vec<char>)
    requires
        lines@.len() >= 1,
    ensures
        r@ == join_lines(lines_view(lines@)),
{
    let mut r: Vec<char> = Vec::new();
    push_line(&mut r, &lines[0]);
    proof {
        assert(lines_view(lines@).take(1) =~= seq![lines@[0]@]);
        assert(join_lines(lines_view(lines@).take(1)) == lines@[0]@);
        assert(r@ =~= lines@[0]@);
    }
    let n = lines.len();
    let mut i: usize = 1;
    while i < n
        invariant
            1 <= i <= n,
            n == lines@.len(),
            r@ == join_lines(lines_view(lines@).take(i as int)),
        decreases n - i,
    {
        let ghost old_r = r@;
        r.push('\n');
        push_line(&mut r, &lines[i]);
        proof {
            let lv = lines_view(lines@);
            lemma_join_push(lv.take(i as int), lv[i as int]);
            assert(lv.take(i as int).push(lv[i as int]) =~= lv.take(i + 1));
            assert(r@ =~= old_r + seq!['\n'] + lv[i as int]);
        }
        i += 1;
    }
    proof {
        assert(lines_view(lines@).take(n as int) =~= lines_view(lines@));
    }
    r
}

/// Copy one line.
pub fn copy_line(src: &Vec<char>) -> (r: Vec<char>)
    ensures
        r@ == src@,
{
    let mut r: Vec<char> = Vec::new();
    push_line(&mut r, src);
    proof {
        assert(Seq::<char>::empty() + src@ =~= src@);
    }
    r
}

/// Copy a vector of lines.
pub fn copy_lines(src: &Vec<Vec<char>>) -> (r: Vec<Vec<char>>)
    ensures
        lines_view(r@) == lines_view(src@),
{
    let mut r: Vec<Vec<char>> = Vec::new();
    let n = src.len();
    let mut i: usize = 0;
    while i < n
        invariant
            i <= n,
            n == src@.len(),
            r@.len() == i,
            forall|j: int| 0 <= j < i ==> r@[j]@ == src@[j]@,
        decreases n - i,
    {
        let line = copy_line(&src[i]);
        r.push(line);
        i += 1;
    }
    proof {
        assert(lines_view(r@) =~= lines_view(src@));
    }
    r
}

/// Compare two lines character by character.
pub fn line_equal(a: &Vec<char>, b: &Vec<char>) -> (r: bool)
    ensures
        r == (a@ == b@),
{
    if a.len() != b.len() {
        proof {
            assert(a@ != b@);
        }
        return false;
    }
    let n = a.len();
    let mut i: usize = 0;
    while i < n
        invariant
            i <= n,
            n == a@.len(),
            n == b@.len(),
            forall|j: int| 0 <= j < i ==> a@[j] == b@[j],
        decreases n - i,
    {
        if a[i] != b[i] {
            return false;
        }
        i += 1;
    }
    proof {
        assert(a@ =~= b@);
    }
    true
}

/// Compare two vectors of lines, by content.
pub fn lines_equal(a: &Vec<Vec<char>>, b: &Vec<Vec<char>>) -> (r: bool)
    ensures
        r == (lines_view(a@) == lines_view(b@)),
{
    if a.len() != b.len() {
        proof {
            assert(lines_view(a@).len() != lines_view(b@).len());
        }
        return false;
    }
    let n = a.len();
    let mut i: usize = 0;
    while i < n
        invariant
            i <= n,
            n == a@.len(),
            n == b@.len(),
            forall|j: int| 0 <= j < i ==> lines_view(a@)[j] == lines_view(b@)[j],
        decreases n - i,
    {
        if !line_equal(&a[i], &b[i]) {
            proof {
                assert(lines_view(a@)[i as int] != lines_view(b@)[i as int]);
            }
            return false;
        }
        i += 1;
    }
    proof {
        assert(lines_view(a@) =~= lines_view(b@));
    }
    true
}

/// The characters of a string slice.
pub fn chars_of_str(s: &str) -> (r: Vec<char>)
    ensures
        r@ == s@,
{
    let mut r: Vec<char> = Vec::new();
    push_str_chars(&mut r, s);
    proof {
        assert(Seq::<char>::empty() + s@ =~= s@);
    }
    r
}

/// Append the characters of a string slice.
pub fn push_str_chars(dst: &mut Vec<char>, s: &str)
    ensures
        final(dst)@ == old(dst)@ + s@,
{
    let n = s.unicode_len();
    let mut i: usize = 0;
    while i < n
        invariant
            i <= n,
            n == s@.len(),
            dst@ =~= old(dst)@ + s@.take(i as int),
        decreases n - i,
    {
        dst.push(s.get_char(i));
        i += 1;
    }
    proof {
        assert(old(dst)@ + s@.take(n as int) =~= old(dst)@ + s@);
    }
}

/// The decimal digit character for `d`.
pub open spec fn spec_digit(d: int) -> char {
    if d == 0 {
        '0'
    } else if d == 1 {
        '1'
    } else if d == 2 {
        '2'
    } else if d == 3 {
        '3'
    } else if d == 4 {
        '4'
    } else if d == 5 {
        '5'
    } else if d == 6 {
        '6'
    } else if d == 7 {
        '7'
    } else if d == 8 {
        '8'
    } else {
        '9'
    }
}

/// The decimal digits of `n`, most significant first, no leading zeros
/// (a single `'0'` for zero).
pub open spec fn spec_nat_str(n: int) -> Seq<char>
    decreases n,
{
    if n < 10 {
        seq![spec_digit(n)]
    } else {
        spec_nat_str(n / 10).push(spec_digit(n % 10))
    }
}

fn digit_char(d: usize) -> (c: char)
    requires
        d < 10,
    ensures
        c == spec_digit(d as int),
{
    if d == 0 {
        '0'
    } else if d == 1 {
        '1'
    } else if d == 2 {
        '2'
    } else if d == 3 {
        '3'
    } else if d == 4 {
        '4'
    } else if d == 5 {
        '5'
    } else if d == 6 {
        '6'
    } else if d == 7 {
        '7'
    } else if d == 8 {
        '8'
    } else {
        '9'
    }
}

/// Append the decimal rendering of `n`.
pub fn push_usize(dst: &mut Vec<char>, n: usize)
    ensures
        final(dst)@ == old(dst)@ + spec_nat_str(n as int),
    decreases n,
{
    if n < 10 {
        dst.push(digit_char(n));
        proof {
            assert(dst@ =~= old(dst)@ + spec_nat_str(n as int));
        }
    } else {
        push_usize(dst, n / 10);
        dst.push(digit_char(n % 10));
        proof {
            assert(dst@ =~= old(dst)@ + spec_nat_str(n as int));
        }
    }
}

} // verus!
