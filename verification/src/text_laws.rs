//! What the pieces of text are that everything shown is made of.

use vstd::prelude::*;
use crate::confirm;
use crate::disk;
use crate::preflight;
use crate::text;

verus! {

// ---------------------------------------------------------------------------
// Numbers
// ---------------------------------------------------------------------------

/// The number that a row of decimal digits stands for.
pub open spec fn value(s: Seq<char>) -> int
    decreases s.len(),
{
    if s.len() == 0 {
        0
    } else {
        10 * value(s.drop_last()) + (s.last() as int - '0' as int)
    }
}

/// A number is written in decimal digits that stand for it, without a zero in
/// front but for zero itself.
pub proof fn numbers_are_written_in_decimal(n: nat)
    ensures
        text::dec(n).len() > 0,
        forall|i: int| 0 <= i < text::dec(n).len() ==> '0' <= #[trigger] text::dec(n)[i] <= '9',
        value(text::dec(n)) == n,
        n > 0 ==> text::dec(n)[0] != '0',
    decreases n,
{
    reveal_strlit("0123456789");
    let s = text::dec(n);
    if n < 10 {
        assert(s.drop_last() =~= Seq::empty());
        assert(value(s.drop_last()) == 0);
        assert(s.last() as int == '0' as int + n);
    } else {
        numbers_are_written_in_decimal(n / 10);
        assert(s.drop_last() =~= text::dec(n / 10));
        assert(s.last() as int == '0' as int + n % 10);
        assert forall|i: int| 0 <= i < s.len() implies '0' <= #[trigger] s[i] <= '9' by {
            if i < s.len() - 1 {
                assert(s[i] == text::dec(n / 10)[i]);
            }
        }
        assert(s[0] == text::dec(n / 10)[0]);
    }
}

/// A number below zero is written with a minus in front, any other as it is.
pub proof fn negative_numbers_have_a_minus(i: int)
    ensures
        i >= 0 ==> text::signed_dec(i) == text::dec(i as nat),
        i < 0 ==> text::signed_dec(i) == seq!['-'] + text::dec((-i) as nat),
{
    reveal_strlit("-");
    assert("-"@ =~= seq!['-']);
}

// ---------------------------------------------------------------------------
// Joining and filling
// ---------------------------------------------------------------------------

/// Nothing joined is nothing, one part is itself, and between any two
/// neighbours the separator stands once.
pub proof fn parts_are_joined_by_the_separator(
    a: Seq<Seq<char>>,
    b: Seq<Seq<char>>,
    part: Seq<char>,
    sep: Seq<char>,
)
    ensures
        text::joined(Seq::empty(), sep) == Seq::<char>::empty(),
        text::joined(seq![part], sep) == part,
        a.len() > 0 && b.len() > 0 ==> text::joined(a + b, sep) == text::joined(a, sep) + sep
            + text::joined(b, sep),
    decreases b.len(),
{
    if a.len() > 0 && b.len() > 0 {
        let head = b.drop_last();
        assert((a + b).drop_last() =~= a + head);
        assert((a + b).last() == b.last());
        if head.len() > 0 {
            parts_are_joined_by_the_separator(a, head, part, sep);
            assert(text::joined(a, sep) + sep + text::joined(head, sep) + sep + b.last() =~= text::joined(
                a,
                sep,
            ) + sep + (text::joined(head, sep) + sep + b.last()));
        } else {
            assert(a + head =~= a);
            assert(b.last() == b[0]);
        }
    }
}

/// Lines stand one behind the other, each with a line feed behind it.
pub proof fn every_line_ends_in_a_line_feed(
    a: Seq<Seq<char>>,
    b: Seq<Seq<char>>,
    line: Seq<char>,
)
    ensures
        text::lines(Seq::empty()) == Seq::<char>::empty(),
        text::lines(seq![line]) == line.push('\n'),
        text::lines(a + b) == text::lines(a) + text::lines(b),
    decreases b.len(),
{
    reveal_strlit("\n");
    assert("\n"@ =~= seq!['\n']);
    let one = seq![line];
    assert(one.drop_last() =~= Seq::empty());
    assert(text::lines(one.drop_last()) =~= Seq::empty());
    assert(text::lines(one) =~= line.push('\n'));
    if b.len() == 0 {
        assert(a + b =~= a);
        assert(text::lines(a) + text::lines(b) =~= text::lines(a));
    } else {
        let head = b.drop_last();
        every_line_ends_in_a_line_feed(a, head, line);
        assert((a + b).drop_last() =~= a + head);
        assert((a + b).last() == b.last());
        assert(text::lines(a) + text::lines(head) + b.last() + "\n"@ =~= text::lines(a) + (
        text::lines(head) + b.last() + "\n"@));
    }
}

/// A text is filled up with blanks to the width of its column, behind it or in
/// front of it; one that is wider stays as it is.
pub proof fn columns_are_filled_with_blanks(s: Seq<char>, width: nat)
    ensures
        ({
            let l = text::left_aligned(s, width);
            let r = text::right_aligned(s, width);
            let n = if s.len() < width {
                width
            } else {
                s.len()
            };
            &&& l.len() == n
            &&& r.len() == n
            &&& l.subrange(0, s.len() as int) == s
            &&& r.subrange(n - s.len(), n as int) == s
            &&& forall|i: int| s.len() <= i < n ==> #[trigger] l[i] == ' '
            &&& forall|i: int| 0 <= i < n - s.len() ==> #[trigger] r[i] == ' '
        }),
{
    let l = text::left_aligned(s, width);
    let r = text::right_aligned(s, width);
    assert(l.subrange(0, s.len() as int) =~= s);
    assert(r.subrange(r.len() - s.len(), r.len() as int) =~= s);
}

// ---------------------------------------------------------------------------
// Parts of text
// ---------------------------------------------------------------------------

/// A text begins with another exactly when something can be put behind the
/// other to get it, and ends with it when something can be put in front.
pub proof fn beginnings_and_ends(s: Seq<char>, part: Seq<char>, rest: Seq<char>)
    ensures
        text::starts_with(part + rest, part),
        text::ends_with(rest + part, part),
        text::starts_with(s, part) ==> s == part + s.subrange(part.len() as int, s.len() as int),
        text::ends_with(s, part) ==> s == s.subrange(0, s.len() - part.len()) + part,
{
    assert((part + rest).subrange(0, part.len() as int) =~= part);
    assert((rest + part).subrange(rest.len() as int, (rest + part).len() as int) =~= part);
    if text::starts_with(s, part) {
        assert(s =~= part + s.subrange(part.len() as int, s.len() as int));
    }
    if text::ends_with(s, part) {
        assert(s =~= s.subrange(0, s.len() - part.len()) + part);
    }
}

/// White space is what Unicode takes for it: the blank, the ASCII controls from
/// the tabulator to the carriage return, and the wider blanks and line ends.
pub proof fn white_space(c: char)
    ensures
        c as int <= 0x7f ==> (text::is_white(c) <==> c == ' ' || c == '\t' || c == '\n' || c as int
            == 0x0b || c as int == 0x0c || c == '\r'),
        0x7f < c as int ==> (text::is_white(c) <==> {
            let n = c as int;
            n == 0x85 || n == 0xa0 || n == 0x1680 || (0x2000 <= n <= 0x200a) || n == 0x2028 || n
                == 0x2029 || n == 0x202f || n == 0x205f || n == 0x3000
        }),
{
}

proof fn lemma_trim_start(s: Seq<char>) -> (n: int)
    ensures
        0 <= n <= s.len(),
        text::trim_start(s) == s.subrange(n, s.len() as int),
        forall|i: int| 0 <= i < n ==> text::is_white(#[trigger] s[i]),
        n < s.len() ==> !text::is_white(s[n]),
    decreases s.len(),
{
    if s.len() > 0 && text::is_white(s[0]) {
        let rest = s.subrange(1, s.len() as int);
        let n = lemma_trim_start(rest);
        assert(rest.subrange(n, rest.len() as int) =~= s.subrange(n + 1, s.len() as int));
        assert forall|i: int| 0 <= i < n + 1 implies text::is_white(#[trigger] s[i]) by {
            if i > 0 {
                assert(rest[i - 1] == s[i]);
            }
        }
        n + 1
    } else {
        assert(s.subrange(0, s.len() as int) =~= s);
        0
    }
}

proof fn lemma_trim_end(s: Seq<char>) -> (n: int)
    ensures
        0 <= n <= s.len(),
        text::trim_end(s) == s.subrange(0, n),
        forall|i: int| n <= i < s.len() ==> text::is_white(#[trigger] s[i]),
        n > 0 ==> !text::is_white(s[n - 1]),
    decreases s.len(),
{
    if s.len() > 0 && text::is_white(s.last()) {
        let head = s.drop_last();
        let n = lemma_trim_end(head);
        assert(head.subrange(0, n) =~= s.subrange(0, n));
        assert forall|i: int| n <= i < s.len() implies text::is_white(#[trigger] s[i]) by {
            if i < head.len() {
                assert(head[i] == s[i]);
            }
        }
        n
    } else {
        assert(s.subrange(0, s.len() as int) =~= s);
        s.len() as int
    }
}

/// Trimming takes the white space off both ends and nothing else: what is left
/// is a part of the text, has no white space at either end, and only white
/// space stood before and behind it.
pub proof fn trimming_takes_white_space_off_both_ends(s: Seq<char>) -> (ends: (int, int))
    ensures
        0 <= ends.0 <= ends.1 <= s.len(),
        text::trimmed(s) == s.subrange(ends.0, ends.1),
        forall|i: int| 0 <= i < ends.0 ==> text::is_white(#[trigger] s[i]),
        forall|i: int| ends.1 <= i < s.len() ==> text::is_white(#[trigger] s[i]),
        ends.0 < ends.1 ==> !text::is_white(s[ends.0]) && !text::is_white(s[ends.1 - 1]),
{
    let n = lemma_trim_start(s);
    let rest = text::trim_start(s);
    let m = lemma_trim_end(rest);
    assert(rest.subrange(0, m) =~= s.subrange(n, n + m));
    assert forall|i: int| n + m <= i < s.len() implies text::is_white(#[trigger] s[i]) by {
        assert(rest[i - n] == s[i]);
    }
    if m > 0 {
        assert(rest[m - 1] == s[n + m - 1]);
    }
    (n, n + m)
}

/// A typed line loses the line feeds and carriage returns at its end and
/// nothing else.
pub proof fn only_line_ends_are_cut_off(s: Seq<char>)
    ensures
        ({
            let t = confirm::without_line_end(s);
            &&& t.len() <= s.len()
            &&& t == s.subrange(0, t.len() as int)
            &&& forall|i: int| t.len() <= i < s.len() ==> #[trigger] s[i] == '\n' || s[i] == '\r'
            &&& t.len() > 0 ==> t.last() != '\n' && t.last() != '\r'
        }),
    decreases s.len(),
{
    if s.len() > 0 && (s.last() == '\n' || s.last() == '\r') {
        let head = s.drop_last();
        only_line_ends_are_cut_off(head);
        let t = confirm::without_line_end(head);
        assert(head.subrange(0, t.len() as int) =~= s.subrange(0, t.len() as int));
        assert forall|i: int| t.len() <= i < s.len() implies #[trigger] s[i] == '\n' || s[i]
            == '\r' by {
            if i < head.len() {
                assert(head[i] == s[i]);
            }
        }
    } else {
        assert(s.subrange(0, s.len() as int) =~= s);
    }
}

/// A prefix is taken off as often as it stands in front.
pub proof fn prefixes_are_taken_off(s: Seq<char>, prefix: Seq<char>)
    requires
        prefix.len() > 0,
    ensures
        !text::starts_with(preflight::without_prefix(s, prefix), prefix),
        preflight::without_prefix(prefix + s, prefix) == preflight::without_prefix(s, prefix),
        !text::starts_with(s, prefix) ==> preflight::without_prefix(s, prefix) == s,
    decreases s.len(),
{
    beginnings_and_ends(s, prefix, s);
    assert((prefix + s).subrange(prefix.len() as int, (prefix + s).len() as int) =~= s);
    if text::starts_with(s, prefix) {
        prefixes_are_taken_off(s.subrange(prefix.len() as int, s.len() as int), prefix);
    }
}

/// The short form of an identifier is what stands behind its last underscore;
/// all of it where there is none.
pub proof fn short_identifiers_are_their_last_part(id: Seq<char>)
    ensures
        ({
            let t = disk::short_id(id);
            &&& text::ends_with(id, t)
            &&& forall|i: int| 0 <= i < t.len() ==> #[trigger] t[i] != '_'
            &&& t.len() < id.len() ==> id[id.len() - t.len() - 1] == '_'
        }),
    decreases id.len(),
{
    let t = disk::short_id(id);
    if id.len() == 0 || id.last() == '_' {
        assert(id.subrange(id.len() as int, id.len() as int) =~= t);
    } else {
        let head = id.drop_last();
        short_identifiers_are_their_last_part(head);
        let u = disk::short_id(head);
        beginnings_and_ends(head, u, u);
        assert(t == u.push(id.last()));
        assert(id.subrange(id.len() - t.len(), id.len() as int) =~= t) by {
            assert forall|i: int| 0 <= i < t.len() implies id[id.len() - t.len() + i] == t[i] by {
                if i < u.len() {
                    assert(head.subrange(head.len() - u.len(), head.len() as int)[i] == u[i]);
                }
            }
        }
        if t.len() < id.len() {
            assert(id[id.len() - t.len() - 1] == head[head.len() - u.len() - 1]);
        }
    }
}

// ---------------------------------------------------------------------------
// The order of texts
// ---------------------------------------------------------------------------

/// Whether `a` and `b` are the same up to `n`, and there `a` ends or has the
/// lower character.
pub open spec fn parts_at(a: Seq<char>, b: Seq<char>, n: int) -> bool {
    &&& 0 <= n <= a.len()
    &&& n < b.len()
    &&& forall|i: int| 0 <= i < n ==> #[trigger] a[i] == b[i]
    &&& n == a.len() || (a[n] as int) < (b[n] as int)
}

/// A text comes before another where it is the beginning of it, or has the
/// lower character where the two first differ.
pub proof fn texts_are_ordered_by_their_first_difference(a: Seq<char>, b: Seq<char>)
    ensures
        text::before(a, b) <==> exists|n: int| #[trigger] parts_at(a, b, n),
    decreases a.len(),
{
    if b.len() > 0 {
        if a.len() == 0 {
            assert(parts_at(a, b, 0));
        } else {
            let x = a.subrange(1, a.len() as int);
            let y = b.subrange(1, b.len() as int);
            texts_are_ordered_by_their_first_difference(x, y);
            if text::before(a, b) {
                if a[0] == b[0] {
                    let n = choose|n: int| #[trigger] parts_at(x, y, n);
                    assert forall|i: int| 0 <= i < n + 1 implies #[trigger] a[i] == b[i] by {
                        if i > 0 {
                            assert(x[i - 1] == y[i - 1]);
                        }
                    }
                    assert(parts_at(a, b, n + 1));
                } else {
                    assert(parts_at(a, b, 0));
                }
            }
            if exists|n: int| #[trigger] parts_at(a, b, n) {
                let n = choose|n: int| #[trigger] parts_at(a, b, n);
                if n > 0 {
                    assert(a[0] == b[0]);
                    assert forall|i: int| 0 <= i < n - 1 implies #[trigger] x[i] == y[i] by {
                        assert(a[i + 1] == b[i + 1]);
                    }
                    assert(parts_at(x, y, n - 1));
                }
            }
        }
    }
}

} // verus!
