//! Text as a sequence of lines: splitting at newlines, joining with
//! newlines, and decimal rendering of cursor coordinates.

use vstd::prelude::*;

verus! {

/// The lines a text falls into when cut at every `'\n'`.
/// A text always holds at least one (possibly empty) line.
pub open spec fn split_lines(s: Seq<char>) -> Seq<Seq<char>>
    decreases s.len(),
{
    if s.len() == 0 {
        seq![Seq::<char>::empty()]
    } else if s[0] == '\n' {
        seq![Seq::<char>::empty()] + split_lines(s.skip(1))
    } else {
        let rest = split_lines(s.skip(1));
        seq![seq![s[0]] + rest[0]] + rest.skip(1)
    }
}

/// The text a sequence of lines denotes: the lines with `'\n'` between them.
pub open spec fn join_lines(lines: Seq<Seq<char>>) -> Seq<char>
    decreases lines.len(),
{
    if lines.len() == 0 {
        Seq::<char>::empty()
    } else if lines.len() == 1 {
        lines[0]
    } else {
        lines[0] + seq!['\n'] + join_lines(lines.skip(1))
    }
}

/// A single line never holds a newline character.
pub open spec fn line_ok(l: Seq<char>) -> bool {
    !l.contains('\n')
}

/// A well-formed line sequence: nonempty, and no line holds a newline.
pub open spec fn lines_ok(lines: Seq<Seq<char>>) -> bool {
    &&& lines.len() >= 1
    &&& forall|i: int| 0 <= i < lines.len() ==> line_ok(#[trigger] lines[i])
}

pub proof fn lemma_split_lines_len(s: Seq<char>)
    ensures
        split_lines(s).len() >= 1,
    decreases s.len(),
{
    if s.len() == 0 {
    } else if s[0] == '\n' {
        lemma_split_lines_len(s.skip(1));
    } else {
        lemma_split_lines_len(s.skip(1));
    }
}

/// Splitting always yields a well-formed line sequence.
pub proof fn lemma_split_lines_ok(s: Seq<char>)
    ensures
        lines_ok(split_lines(s)),
    decreases s.len(),
{
    if s.len() == 0 {
        assert(!Seq::<char>::empty().contains('\n'));
    } else if s[0] == '\n' {
        lemma_split_lines_ok(s.skip(1));
        lemma_split_lines_len(s.skip(1));
        assert(!Seq::<char>::empty().contains('\n'));
        assert forall|i: int| 0 <= i < split_lines(s).len() implies line_ok(
            #[trigger] split_lines(s)[i],
        ) by {
            if i >= 1 {
                assert(split_lines(s)[i] == split_lines(s.skip(1))[i - 1]);
            }
        }
    } else {
        lemma_split_lines_ok(s.skip(1));
        lemma_split_lines_len(s.skip(1));
        let rest = split_lines(s.skip(1));
        let first = seq![s[0]] + rest[0];
        assert(line_ok(first)) by {
            assert(forall|j: int| 0 <= j < first.len() ==> #[trigger] first[j] != '\n');
        }
        assert forall|i: int| 0 <= i < split_lines(s).len() implies line_ok(
            #[trigger] split_lines(s)[i],
        ) by {
            if i >= 1 {
                assert(split_lines(s)[i] == rest.skip(1)[i - 1]);
                assert(rest.skip(1)[i - 1] == rest[i]);
            }
        }
    }
}

/// Joining the lines a text was split into gives the text back.
pub proof fn lemma_join_split(s: Seq<char>)
    ensures
        join_lines(split_lines(s)) == s,
    decreases s.len(),
{
    if s.len() == 0 {
        assert(join_lines(split_lines(s)) =~= s);
    } else if s[0] == '\n' {
        lemma_join_split(s.skip(1));
        lemma_split_lines_len(s.skip(1));
        let rest = split_lines(s.skip(1));
        let whole = seq![Seq::<char>::empty()] + rest;
        assert(whole.skip(1) =~= rest);
        assert(whole[0] + seq!['\n'] + join_lines(rest) =~= s);
    } else {
        lemma_join_split(s.skip(1));
        lemma_split_lines_len(s.skip(1));
        let rest = split_lines(s.skip(1));
        let whole = seq![seq![s[0]] + rest[0]] + rest.skip(1);
        if rest.len() == 1 {
            assert(join_lines(rest) == rest[0]);
            assert(whole.len() == 1);
            assert(join_lines(whole) == seq![s[0]] + rest[0]);
            assert(seq![s[0]] + rest[0] =~= s);
        } else {
            assert(whole.len() >= 2);
            assert(whole.skip(1) =~= rest.skip(1));
            assert(join_lines(whole) == whole[0] + seq!['\n'] + join_lines(rest.skip(1)));
            assert(join_lines(rest) == rest[0] + seq!['\n'] + join_lines(rest.skip(1)));
            assert(whole[0] + seq!['\n'] + join_lines(rest.skip(1)) =~= seq![s[0]] + (rest[0]
                + seq!['\n'] + join_lines(rest.skip(1))));
            assert(seq![s[0]] + s.skip(1) =~= s);
        }
    }
}

/// Appending a line to a nonempty line sequence appends a newline and the
/// line to the joined text.
pub proof fn lemma_join_push(lines: Seq<Seq<char>>, x: Seq<char>)
    requires
        lines.len() >= 1,
    ensures
        join_lines(lines.push(x)) == join_lines(lines) + seq!['\n'] + x,
    decreases lines.len(),
{
    if lines.len() == 1 {
        let p = lines.push(x);
        assert(p.skip(1) =~= seq![x]);
        assert(join_lines(p.skip(1)) == x);
        assert(join_lines(p) == p[0] + seq!['\n'] + x);
        assert(p[0] == lines[0]);
        assert(join_lines(lines) == lines[0]);
    } else {
        lemma_join_push(lines.skip(1), x);
        let p = lines.push(x);
        assert(p.skip(1) =~= lines.skip(1).push(x));
        assert(join_lines(p) == p[0] + seq!['\n'] + join_lines(lines.skip(1).push(x)));
        assert(join_lines(p) =~= join_lines(lines) + seq!['\n'] + x);
    }
}

/// Relies on `String`'s `FromIterator<char>` implementation: collecting
/// characters yields the string holding exactly those characters in order.
#[verifier::external_body]
pub fn chars_to_string(v: &Vec<char>) -> (r: String)
    ensures
        r@ == v@,
{
    v.iter().collect()
}

/// The characters of a string slice, gathered one by one.
pub fn str_to_chars(s: &str) -> (r: Vec<char>)
    ensures
        r@ == s@,
{
    let n = s.unicode_len();
    let mut out: Vec<char> = Vec::new();
    let mut i: usize = 0;
    while i < n
        invariant
            i <= n,
            n == s@.len(),
            out@ =~= s@.take(i as int),
        decreases n - i,
    {
        out.push(s.get_char(i));
        i = i + 1;
        assert(out@ =~= s@.take(i as int));
    }
    assert(out@ =~= s@);
    out
}

/// A copy of the characters of `v` between `from` and `to`.
pub fn chars_range(v: &Vec<char>, from: usize, to: usize) -> (r: Vec<char>)
    requires
        from <= to <= v@.len(),
    ensures
        r@ == v@.subrange(from as int, to as int),
{
    let mut out: Vec<char> = Vec::new();
    let mut i: usize = from;
    while i < to
        invariant
            from <= i <= to <= v@.len(),
            out@ =~= v@.subrange(from as int, i as int),
        decreases to - i,
    {
        out.push(v[i]);
        i = i + 1;
        assert(out@ =~= v@.subrange(from as int, i as int));
    }
    out
}

/// The decimal digit character for a value below ten.
pub open spec fn dec_digit(d: nat) -> char {
    if d == 0 {
        '0'
    } else if d == 1 {
        '1'
    } else if d == 2 {
        '2'
    } else if d == 3 {
        '3'
    } else if d == 4 {
        '4'
    } else if d == 5 {
        '5'
    } else if d == 6 {
        '6'
    } else if d == 7 {
        '7'
    } else if d == 8 {
        '8'
    } else {
        '9'
    }
}

/// The decimal rendering of a number, most significant digit first.
pub open spec fn dec_chars(n: nat) -> Seq<char>
    decreases n,
{
    if n < 10 {
        seq![dec_digit(n)]
    } else {
        dec_chars(n / 10).push(dec_digit(n % 10))
    }
}

fn dec_digit_exec(d: u128) -> (c: char)
    requires
        d < 10,
    ensures
        c == dec_digit(d as nat),
{
    if d == 0 {
        '0'
    } else if d == 1 {
        '1'
    } else if d == 2 {
        '2'
    } else if d == 3 {
        '3'
    } else if d == 4 {
        '4'
    } else if d == 5 {
        '5'
    } else if d == 6 {
        '6'
    } else if d == 7 {
        '7'
    } else if d == 8 {
        '8'
    } else {
        '9'
    }
}

fn push_dec(n: u128, out: &mut Vec<char>)
    ensures
        final(out)@ == old(out)@ + dec_chars(n as nat),
    decreases n,
{
    if n < 10 {
        out.push(dec_digit_exec(n));
        assert(out@ =~= old(out)@ + dec_chars(n as nat));
    } else {
        push_dec(n / 10, out);
        out.push(dec_digit_exec(n % 10));
        assert((n / 10) as nat == (n as nat) / 10);
        assert((n % 10) as nat == (n as nat) % 10);
        assert(out@ =~= old(out)@ + dec_chars(n as nat));
    }
}

/// The decimal rendering of a number as characters.
pub fn dec_chars_exec(n: u128) -> (r: Vec<char>)
    ensures
        r@ == dec_chars(n as nat),
{
    let mut out: Vec<char> = Vec::new();
    push_dec(n, &mut out);
    assert(out@ =~= dec_chars(n as nat));
    out
}

} // verus!
