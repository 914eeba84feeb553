//! Text building blocks: decimal numbers, padding, cutting, joining, trimming
//! and ordering of strings, each stated over sequences of characters.

use vstd::prelude::*;

verus! {

// ---------------------------------------------------------------------------
// Models
// ---------------------------------------------------------------------------

/// The decimal digit `d`, for `d < 10`.
pub open spec fn digit(d: int) -> char {
    "0123456789"@[d]
}

/// `n` in decimal, without sign or leading zeros.
pub open spec fn dec(n: nat) -> Seq<char>
    decreases n,
{
    if n < 10 {
        seq![digit(n as int)]
    } else {
        dec(n / 10).push(digit((n % 10) as int))
    }
}

/// `i` in decimal, with a leading minus sign when it is negative.
pub open spec fn signed_dec(i: int) -> Seq<char> {
    if i < 0 {
        "-"@ + dec((-i) as nat)
    } else {
        dec(i as nat)
    }
}

/// `n` space characters.
pub open spec fn blanks(n: nat) -> Seq<char> {
    Seq::new(n, |i: int| ' ')
}

/// `s` followed by as many spaces as it lacks to be `width` characters long.
pub open spec fn left_aligned(s: Seq<char>, width: nat) -> Seq<char> {
    if s.len() < width {
        s + blanks((width - s.len()) as nat)
    } else {
        s
    }
}

/// `s` preceded by as many spaces as it lacks to be `width` characters long.
pub open spec fn right_aligned(s: Seq<char>, width: nat) -> Seq<char> {
    if s.len() < width {
        blanks((width - s.len()) as nat) + s
    } else {
        s
    }
}

/// The texts of `parts` with `sep` between neighbours.
pub open spec fn joined(parts: Seq<Seq<char>>, sep: Seq<char>) -> Seq<char>
    decreases parts.len(),
{
    if parts.len() == 0 {
        Seq::empty()
    } else if parts.len() == 1 {
        parts[0]
    } else {
        joined(parts.drop_last(), sep) + sep + parts.last()
    }
}

/// The texts of `parts`, each followed by a line break.
pub open spec fn lines(parts: Seq<Seq<char>>) -> Seq<char>
    decreases parts.len(),
{
    if parts.len() == 0 {
        Seq::empty()
    } else {
        lines(parts.drop_last()) + parts.last() + "\n"@
    }
}

/// The views of a list of strings.
pub open spec fn views(list: Seq<String>) -> Seq<Seq<char>> {
    list.map_values(|s: String| s@)
}

/// The view of an optional text.
pub open spec fn opt_view(s: Option<&str>) -> Option<Seq<char>> {
    match s {
        Some(s) => Some(s@),
        None => None,
    }
}

/// The characters with the Unicode property `White_Space`.
pub open spec fn is_white(c: char) -> bool {
    ||| 0x09 <= c as int <= 0x0D
    ||| c as int == 0x20
    ||| c as int == 0x85
    ||| c as int == 0xA0
    ||| c as int == 0x1680
    ||| 0x2000 <= c as int <= 0x200A
    ||| c as int == 0x2028
    ||| c as int == 0x2029
    ||| c as int == 0x202F
    ||| c as int == 0x205F
    ||| c as int == 0x3000
}

/// `s` without leading white space.
pub open spec fn trim_start(s: Seq<char>) -> Seq<char>
    decreases s.len(),
{
    if s.len() > 0 && is_white(s[0]) {
        trim_start(s.subrange(1, s.len() as int))
    } else {
        s
    }
}

/// `s` without trailing white space.
pub open spec fn trim_end(s: Seq<char>) -> Seq<char>
    decreases s.len(),
{
    if s.len() > 0 && is_white(s.last()) {
        trim_end(s.drop_last())
    } else {
        s
    }
}

/// `s` without leading and trailing white space.
pub open spec fn trimmed(s: Seq<char>) -> Seq<char> {
    trim_end(trim_start(s))
}

/// Whether `s` begins with `prefix`.
pub open spec fn starts_with(s: Seq<char>, prefix: Seq<char>) -> bool {
    s.len() >= prefix.len() && s.subrange(0, prefix.len() as int) == prefix
}

/// Whether `s` ends with `suffix`.
pub open spec fn ends_with(s: Seq<char>, suffix: Seq<char>) -> bool {
    s.len() >= suffix.len() && s.subrange(s.len() - suffix.len(), s.len() as int) == suffix
}

/// The order of texts by the code points of their characters, character by
/// character, a text coming before its own extensions.
pub open spec fn before(a: Seq<char>, b: Seq<char>) -> bool
    decreases a.len(),
{
    if b.len() == 0 {
        false
    } else if a.len() == 0 {
        true
    } else if a[0] != b[0] {
        (a[0] as int) < (b[0] as int)
    } else {
        before(a.subrange(1, a.len() as int), b.subrange(1, b.len() as int))
    }
}

// ---------------------------------------------------------------------------
// Numbers
// ---------------------------------------------------------------------------

/// `n` in decimal.
pub fn decimal(n: u64) -> (out: String)
    ensures
        out@ == dec(n as nat),
{
    wide_decimal(n as u128)
}

/// `n` in decimal.
pub fn wide_decimal(n: u128) -> (out: String)
    ensures
        out@ == dec(n as nat),
    decreases n,
{
    let digits = "0123456789";
    proof {
        reveal_strlit("0123456789");
    }
    if n < 10 {
        let out = digits.substring_char(n as usize, n as usize + 1).to_owned();
        assert(out@ =~= seq![digit(n as int)]);
        out
    } else {
        let mut out = wide_decimal(n / 10);
        let d: usize = (n % 10) as usize;
        let last = digits.substring_char(d, d + 1);
        out.append(last);
        assert(out@ =~= dec((n / 10) as nat).push(digit((n % 10) as int)));
        out
    }
}

/// `i` in decimal, with a leading minus sign when it is negative.
pub fn signed_decimal(i: i64) -> (out: String)
    ensures
        out@ == signed_dec(i as int),
{
    if i < 0 {
        let mut out = "-".to_owned();
        let size: u64 = if i == i64::MIN {
            0x8000_0000_0000_0000
        } else {
            (-i) as u64
        };
        out.append(decimal(size).as_str());
        out
    } else {
        decimal(i as u64)
    }
}

// ---------------------------------------------------------------------------
// Building
// ---------------------------------------------------------------------------

/// Appends `n` spaces to `out`.
pub fn append_blanks(out: &mut String, n: usize)
    ensures
        final(out)@ == old(out)@ + blanks(n as nat),
{
    let ghost start = out@;
    let mut i: usize = 0;
    proof {
        reveal_strlit(" ");
    }
    assert(out@ =~= start + blanks(0));
    while i < n
        invariant
            i <= n,
            " "@ =~= seq![' '],
            out@ == start + blanks(i as nat),
        decreases n - i,
    {
        out.append(" ");
        i = i + 1;
        assert(out@ =~= start + blanks(i as nat));
    }
}

/// Appends `s` to `out`, padded with spaces on the right to `width`.
pub fn append_left(out: &mut String, s: &str, width: usize)
    ensures
        final(out)@ == old(out)@ + left_aligned(s@, width as nat),
{
    let ghost start = out@;
    let len: usize = s.unicode_len();
    out.append(s);
    if len < width {
        append_blanks(out, width - len);
        assert(out@ =~= start + left_aligned(s@, width as nat));
    }
}

/// Appends `s` to `out`, padded with spaces on the left to `width`.
pub fn append_right(out: &mut String, s: &str, width: usize)
    ensures
        final(out)@ == old(out)@ + right_aligned(s@, width as nat),
{
    let ghost start = out@;
    let len: usize = s.unicode_len();
    if len < width {
        append_blanks(out, width - len);
    }
    out.append(s);
    assert(out@ =~= start + right_aligned(s@, width as nat));
}

/// Appends `n` in decimal to `out`.
pub fn append_decimal(out: &mut String, n: u64)
    ensures
        final(out)@ == old(out)@ + dec(n as nat),
{
    let number = decimal(n);
    out.append(number.as_str());
}

/// The strings of `parts` with `sep` between neighbours.
pub fn join(parts: &Vec<String>, sep: &str) -> (out: String)
    ensures
        out@ == joined(views(parts@), sep@),
{
    let mut out = String::new();
    let mut i: usize = 0;
    assert(views(parts@).take(0) =~= Seq::empty());
    while i < parts.len()
        invariant
            i <= parts.len(),
            out@ == joined(views(parts@).take(i as int), sep@),
        decreases parts.len() - i,
    {
        if i > 0 {
            out.append(sep);
        }
        out.append(parts[i].as_str());
        proof {
            let more = views(parts@).take(i + 1);
            assert(more.drop_last() =~= views(parts@).take(i as int));
            assert(more.last() == parts@[i as int]@);
            if i == 0 {
                assert(out@ =~= more[0]);
            }
        }
        i = i + 1;
    }
    assert(views(parts@).take(i as int) =~= views(parts@));
    out
}

/// The strings of `parts`, each followed by a line break.
pub fn unlines(parts: &Vec<String>) -> (out: String)
    ensures
        out@ == lines(views(parts@)),
{
    let mut out = String::new();
    let mut i: usize = 0;
    assert(views(parts@).take(0) =~= Seq::empty());
    while i < parts.len()
        invariant
            i <= parts.len(),
            out@ == lines(views(parts@).take(i as int)),
        decreases parts.len() - i,
    {
        out.append(parts[i].as_str());
        out.append("\n");
        proof {
            let more = views(parts@).take(i + 1);
            assert(more.drop_last() =~= views(parts@).take(i as int));
            assert(more.last() == parts@[i as int]@);
        }
        i = i + 1;
    }
    assert(views(parts@).take(i as int) =~= views(parts@));
    out
}

/// Appends one string to a list.
pub fn add_line(list: &mut Vec<String>, line: String)
    ensures
        views(final(list)@) == views(old(list)@).push(line@),
        final(list)@.len() == old(list)@.len() + 1,
{
    let ghost start = list@;
    list.push(line);
    assert(views(list@) =~= views(start).push(line@));
}

/// Appends the strings of `more` to a list.
pub fn add_lines(list: &mut Vec<String>, more: &mut Vec<String>)
    ensures
        views(final(list)@) == views(old(list)@) + views(old(more)@),
{
    let ghost start = (list@, more@);
    list.append(more);
    assert(list@ =~= start.0 + start.1);
    assert(views(list@) =~= views(start.0) + views(start.1));
}

// ---------------------------------------------------------------------------
// Comparing and cutting
// ---------------------------------------------------------------------------

/// Whether two texts hold the same characters.
pub fn same(a: &str, b: &str) -> (r: bool)
    ensures
        r == (a@ == b@),
{
    a.to_owned() == b.to_owned()
}

/// Whether `s` begins with `prefix`.
pub fn has_prefix(s: &str, prefix: &str) -> (r: bool)
    ensures
        r == starts_with(s@, prefix@),
{
    let n: usize = prefix.unicode_len();
    if s.unicode_len() < n {
        false
    } else {
        same(s.substring_char(0, n), prefix)
    }
}

/// Whether `s` ends with `suffix`.
pub fn has_suffix(s: &str, suffix: &str) -> (r: bool)
    ensures
        r == ends_with(s@, suffix@),
{
    let n: usize = suffix.unicode_len();
    let len: usize = s.unicode_len();
    if len < n {
        false
    } else {
        same(s.substring_char(len - n, len), suffix)
    }
}

/// Whether `c` is a white-space character.
pub fn white(c: char) -> (r: bool)
    ensures
        r == is_white(c),
{
    let p: u32 = c as u32;
    (0x09 <= p && p <= 0x0D) || p == 0x20 || p == 0x85 || p == 0xA0 || p == 0x1680 || (0x2000 <= p
        && p <= 0x200A) || p == 0x2028 || p == 0x2029 || p == 0x202F || p == 0x205F || p == 0x3000
}

/// `s` without leading and trailing white space.
pub fn trim(s: &str) -> (r: &str)
    ensures
        r@ == trimmed(s@),
{
    let len: usize = s.unicode_len();
    let mut from: usize = 0;
    assert(s@.subrange(0, len as int) =~= s@);
    while from < len && white(s.get_char(from))
        invariant
            len == s@.len(),
            from <= len,
            trim_start(s@) == trim_start(s@.subrange(from as int, len as int)),
        decreases len - from,
    {
        assert(s@.subrange(from as int, len as int).subrange(1, len - from) =~= s@.subrange(
            from + 1,
            len as int,
        ));
        from = from + 1;
    }
    let ghost rest = s@.subrange(from as int, len as int);
    assert(trim_start(s@) == rest);
    let mut to: usize = len;
    while to > from && white(s.get_char(to - 1))
        invariant
            len == s@.len(),
            from <= to <= len,
            trim_end(rest) == trim_end(s@.subrange(from as int, to as int)),
        decreases to,
    {
        assert(s@.subrange(from as int, to as int).drop_last() =~= s@.subrange(
            from as int,
            to - 1,
        ));
        to = to - 1;
    }
    s.substring_char(from, to)
}

/// Whether `a` comes before `b` in the order of texts.
pub fn precedes(a: &str, b: &str) -> (r: bool)
    ensures
        r == before(a@, b@),
{
    let alen: usize = a.unicode_len();
    let blen: usize = b.unicode_len();
    let mut i: usize = 0;
    assert(a@.subrange(0, alen as int) =~= a@);
    assert(b@.subrange(0, blen as int) =~= b@);
    while i < alen && i < blen
        invariant
            alen == a@.len(),
            blen == b@.len(),
            i <= alen,
            i <= blen,
            before(a@, b@) == before(
                a@.subrange(i as int, alen as int),
                b@.subrange(i as int, blen as int),
            ),
        decreases alen - i,
    {
        let x = a.get_char(i);
        let y = b.get_char(i);
        if x != y {
            return (x as u32) < (y as u32);
        }
        assert(a@.subrange(i as int, alen as int).subrange(1, alen - i) =~= a@.subrange(
            i + 1,
            alen as int,
        ));
        assert(b@.subrange(i as int, blen as int).subrange(1, blen - i) =~= b@.subrange(
            i + 1,
            blen as int,
        ));
        i = i + 1;
    }
    i < blen
}

// ---------------------------------------------------------------------------
// Facts about the order and about lengths
// ---------------------------------------------------------------------------

/// No text comes before itself.
pub proof fn lemma_before_irreflexive(a: Seq<char>)
    ensures
        !before(a, a),
    decreases a.len(),
{
    if a.len() > 0 {
        lemma_before_irreflexive(a.subrange(1, a.len() as int));
    }
}

/// The order of texts is transitive.
pub proof fn lemma_before_transitive(a: Seq<char>, b: Seq<char>, c: Seq<char>)
    requires
        before(a, b),
        before(b, c),
    ensures
        before(a, c),
    decreases a.len(),
{
    if a.len() > 0 && a[0] == b[0] && b[0] == c[0] {
        lemma_before_transitive(
            a.subrange(1, a.len() as int),
            b.subrange(1, b.len() as int),
            c.subrange(1, c.len() as int),
        );
    }
}

/// Of two different texts one comes before the other.
pub proof fn lemma_before_total(a: Seq<char>, b: Seq<char>)
    ensures
        before(a, b) || before(b, a) || a == b,
    decreases a.len(),
{
    if a.len() == 0 && b.len() == 0 {
        assert(a =~= b);
    } else if a.len() > 0 && b.len() > 0 && a[0] == b[0] {
        let ra = a.subrange(1, a.len() as int);
        let rb = b.subrange(1, b.len() as int);
        lemma_before_total(ra, rb);
        if ra == rb {
            assert(a =~= seq![a[0]] + ra);
            assert(b =~= seq![b[0]] + rb);
        }
    }
}

} // verus!
