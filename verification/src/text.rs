//! Text helpers over sequences of characters.
//!
//! Every function here is stated over the view of a string, a `Seq<char>`,
//! and works on a copy of the characters held in a `Vec<char>`.

use vstd::prelude::*;

verus! {

/// Whether `s` holds the two characters `::` at index `i`.
pub open spec fn separator_at(s: Seq<char>, i: int) -> bool {
    0 <= i && i + 1 < s.len() && s[i] == ':' && s[i + 1] == ':'
}

/// The greatest index below `end` at which a separator starts, or -1.
pub open spec fn last_separator(s: Seq<char>, end: int) -> int
    decreases end,
{
    if end <= 0 {
        -1
    } else if separator_at(s, end - 1) {
        end - 1
    } else {
        last_separator(s, end - 1)
    }
}

/// What follows the last `::` of `s`; all of `s` where it holds none.
pub open spec fn last_segment(s: Seq<char>) -> Seq<char> {
    let i = last_separator(s, s.len() as int);
    if i < 0 {
        s
    } else {
        s.subrange(i + 2, s.len() as int)
    }
}

/// What stands before the last `::` of `s`: the path that owns its last
/// segment. `None` where `s` holds no `::`.
pub open spec fn path_owner(s: Seq<char>) -> Option<Seq<char>> {
    let i = last_separator(s, s.len() as int);
    if i < 0 {
        None
    } else {
        Some(s.subrange(0, i))
    }
}

/// The least index from `from` on at which a separator starts, or -1.
pub open spec fn first_separator(s: Seq<char>, from: int) -> int
    decreases s.len() - from,
{
    if from < 0 || from >= s.len() {
        -1
    } else if separator_at(s, from) {
        from
    } else {
        first_separator(s, from + 1)
    }
}

/// The pieces of `s` between its separators, read from `from` on, left to right.
pub open spec fn segments_from(s: Seq<char>, from: int) -> Seq<Seq<char>>
    decreases s.len() - from,
{
    let i = first_separator(s, from);
    if 0 <= from <= s.len() && from <= i && i + 2 <= s.len() {
        seq![s.subrange(from, i)] + segments_from(s, i + 2)
    } else if 0 <= from <= s.len() {
        seq![s.subrange(from, s.len() as int)]
    } else {
        seq![Seq::<char>::empty()]
    }
}

/// The pieces of `s` between its `::` separators.
pub open spec fn path_segments(s: Seq<char>) -> Seq<Seq<char>> {
    segments_from(s, 0)
}

/// `s` with every `-` turned into `_`.
pub open spec fn underscored(s: Seq<char>) -> Seq<char> {
    Seq::new(
        s.len(),
        |i: int|
            if s[i] == '-' {
                '_'
            } else {
                s[i]
            },
    )
}

/// The greatest index below `end` that holds `c`, or -1.
pub open spec fn last_index_of(s: Seq<char>, c: char, end: int) -> int
    decreases end,
{
    if end <= 0 || end > s.len() {
        -1
    } else if s[end - 1] == c {
        end - 1
    } else {
        last_index_of(s, c, end - 1)
    }
}

/// A letter `A` to `Z` becomes `a` to `z`; any other character stays.
pub open spec fn lower_char(c: char) -> char {
    if 'A' <= c && c <= 'Z' {
        ((c as u8) + 32) as char
    } else {
        c
    }
}

/// `s` with its ASCII capitals in lower case.
pub open spec fn lowered(s: Seq<char>) -> Seq<char> {
    Seq::new(s.len(), |i: int| lower_char(s[i]))
}

/// Lexicographic order by code point: `a` comes before `b` or equals it.
pub open spec fn text_le(a: Seq<char>, b: Seq<char>) -> bool
    decreases a.len(),
{
    if a.len() == 0 {
        true
    } else if b.len() == 0 {
        false
    } else if a[0] != b[0] {
        a[0] < b[0]
    } else {
        text_le(a.drop_first(), b.drop_first())
    }
}

/// The pieces of `parts`, each followed by `sep` but the last.
pub open spec fn joined(parts: Seq<Seq<char>>, sep: Seq<char>) -> Seq<char>
    decreases parts.len(),
{
    if parts.len() == 0 {
        Seq::empty()
    } else if parts.len() == 1 {
        parts[0]
    } else {
        joined(parts.drop_last(), sep) + sep + parts.last()
    }
}

/// The views of the strings of `v`, in order.
pub open spec fn views(v: Seq<String>) -> Seq<Seq<char>> {
    Seq::new(v.len(), |i: int| v[i]@)
}

/// The views of a list with one more string.
pub proof fn lemma_views_push(v: Seq<String>, s: String)
    ensures
        views(v.push(s)) == views(v).push(s@),
{
    assert(views(v.push(s)) =~= views(v).push(s@));
}

/// The index of the first line feed of `s` from `from` on, or -1.
pub open spec fn first_line_feed(s: Seq<char>, from: int) -> int
    decreases s.len() - from,
{
    if from < 0 || from >= s.len() {
        -1
    } else if s[from] == '\n' {
        from
    } else {
        first_line_feed(s, from + 1)
    }
}

/// The lines of `s` from `from` on. A line ends at a line feed, which is not
/// part of it, nor is a carriage return just before the line feed. What
/// follows the last line feed is a line if it is not empty.
pub open spec fn lines_from(s: Seq<char>, from: int) -> Seq<Seq<char>>
    decreases s.len() - from,
{
    if from < 0 || from >= s.len() {
        Seq::empty()
    } else {
        let i = first_line_feed(s, from);
        if from <= i < s.len() {
            let end = if i > from && s[i - 1] == '\r' {
                i - 1
            } else {
                i
            };
            seq![s.subrange(from, end)] + lines_from(s, i + 1)
        } else {
            seq![s.subrange(from, s.len() as int)]
        }
    }
}

/// The lines of `s`.
pub open spec fn lines(s: Seq<char>) -> Seq<Seq<char>> {
    lines_from(s, 0)
}

/// The lines of `s`.
pub fn lines_of(s: &str) -> (r: Vec<String>)
    ensures
        views(r@) == lines(s@),
{
    let v = chars_of(s);
    let n = v.len();
    let mut out: Vec<String> = Vec::new();
    let mut start: usize = 0;
    let mut i: usize = 0;
    assert(views(out@) =~= Seq::empty());
    while i < n
        invariant
            v@ == s@,
            n == v@.len(),
            start <= i <= n,
            start < n ==> first_line_feed(v@, start as int) == first_line_feed(v@, i as int),
            lines(v@) == views(out@) + lines_from(v@, start as int),
        decreases n - i,
    {
        if v[i] == '\n' {
            let end = if i > start && v[i - 1] == '\r' {
                i - 1
            } else {
                i
            };
            let ghost before = views(out@);
            assert(first_line_feed(v@, start as int) == i);
            push_text(&mut out, slice_of(s, start, end));
            assert(lines(v@) =~= views(out@) + lines_from(v@, i + 1));
            start = i + 1;
            i = i + 1;
        } else {
            i += 1;
        }
    }
    if start < n {
        let ghost before = views(out@);
        assert(first_line_feed(v@, n as int) == -1);
        push_text(&mut out, slice_of(s, start, n));
        assert(views(out@) =~= before + seq![v@.subrange(start as int, n as int)]);
    } else {
        assert(views(out@) + Seq::<Seq<char>>::empty() =~= views(out@));
    }
    out
}

/// The texts `a` and `b`, one after the other.
pub fn text2(a: &str, b: &str) -> (r: String)
    ensures
        r@ == a@ + b@,
{
    let mut out = String::from_str(a);
    out.append(b);
    out
}

/// The texts `a`, `b` and `c`, one after the other.
pub fn text3(a: &str, b: &str, c: &str) -> (r: String)
    ensures
        r@ == a@ + b@ + c@,
{
    let mut out = String::from_str(a);
    out.append(b);
    out.append(c);
    out
}

/// Four texts, one after the other.
pub fn text4(a: &str, b: &str, c: &str, d: &str) -> (r: String)
    ensures
        r@ == a@ + b@ + c@ + d@,
{
    let mut out = String::from_str(a);
    out.append(b);
    out.append(c);
    out.append(d);
    out
}

/// Five texts, one after the other.
pub fn text5(a: &str, b: &str, c: &str, d: &str, e: &str) -> (r: String)
    ensures
        r@ == a@ + b@ + c@ + d@ + e@,
{
    let mut out = String::from_str(a);
    out.append(b);
    out.append(c);
    out.append(d);
    out.append(e);
    out
}

/// Seven texts, one after the other.
pub fn text7(a: &str, b: &str, c: &str, d: &str, e: &str, f: &str, g: &str) -> (r: String)
    ensures
        r@ == a@ + b@ + c@ + d@ + e@ + f@ + g@,
{
    let mut out = String::from_str(a);
    out.append(b);
    out.append(c);
    out.append(d);
    out.append(e);
    out.append(f);
    out.append(g);
    out
}

/// `s` with its ASCII capitals in lower case.
pub fn ascii_lowercase(s: &str) -> (r: String)
    ensures
        r@ == lowered(s@),
{
    let v = chars_of(s);
    let n = v.len();
    let small = "abcdefghijklmnopqrstuvwxyz";
    let mut out = String::new();
    let mut i: usize = 0;
    proof {
        reveal_strlit("abcdefghijklmnopqrstuvwxyz");
    }
    while i < n
        invariant
            v@ == s@,
            n == v@.len(),
            i <= n,
            small@ == "abcdefghijklmnopqrstuvwxyz"@,
            out@ == lowered(s@).subrange(0, i as int),
        decreases n - i,
    {
        let c = v[i];
        if 'A' <= c && c <= 'Z' {
            let k: usize = (c as u8 - 65u8) as usize;
            proof {
                reveal_strlit("abcdefghijklmnopqrstuvwxyz");
            }
            assert(small@.len() == 26 && small@[k as int] == lower_char(c));
            out.append(small.substring_char(k, k + 1));
        } else {
            out.append(s.substring_char(i, i + 1));
        }
        i += 1;
        assert(out@ =~= lowered(s@).subrange(0, i as int));
    }
    assert(out@ =~= lowered(s@));
    out
}

/// Appends `s` to `out`.
pub fn push_text(out: &mut Vec<String>, s: String)
    ensures
        views(final(out)@) == views(old(out)@).push(s@),
        final(out)@.len() == old(out)@.len() + 1,
{
    proof {
        lemma_views_push(out@, s);
    }
    out.push(s);
}

/// Whether `s` starts with `p`.
pub open spec fn has_prefix(s: Seq<char>, p: Seq<char>) -> bool {
    p.len() <= s.len() && s.subrange(0, p.len() as int) == p
}

/// Whether `s` ends with `p`.
pub open spec fn has_suffix(s: Seq<char>, p: Seq<char>) -> bool {
    p.len() <= s.len() && s.subrange(s.len() - p.len(), s.len() as int) == p
}

/// What stands between `prefix` and `suffix` in `s`, where `s` starts with the
/// one, ends with the other, and the two do not overlap.
pub open spec fn between(s: Seq<char>, prefix: Seq<char>, suffix: Seq<char>) -> Option<Seq<char>> {
    if prefix.len() + suffix.len() <= s.len() && has_prefix(s, prefix) && has_suffix(s, suffix) {
        Some(s.subrange(prefix.len() as int, s.len() - suffix.len()))
    } else {
        None
    }
}

/// The characters of `s`, one by one.
pub fn chars_of(s: &str) -> (v: Vec<char>)
    ensures
        v@ == s@,
{
    let n = s.unicode_len();
    let mut v: Vec<char> = Vec::new();
    let mut i: usize = 0;
    while i < n
        invariant
            n == s@.len(),
            i <= n,
            v@ == s@.subrange(0, i as int),
        decreases n - i,
    {
        v.push(s.get_char(i));
        i += 1;
        assert(v@ =~= s@.subrange(0, i as int));
    }
    assert(v@ =~= s@);
    v
}

/// The text of `s` from character `from` up to character `to`.
pub fn slice_of(s: &str, from: usize, to: usize) -> (r: String)
    requires
        from <= to <= s@.len(),
    ensures
        r@ == s@.subrange(from as int, to as int),
{
    String::from_str(s.substring_char(from, to))
}

/// Whether two texts hold the same characters.
pub fn same_text(a: &str, b: &str) -> (r: bool)
    ensures
        r == (a@ == b@),
{
    let x = String::from_str(a);
    let y = String::from_str(b);
    x == y
}

/// The name without the path that leads to it: what follows the last `::`.
pub fn name_without_path(name: &str) -> (r: String)
    ensures
        r@ == last_segment(name@),
{
    let v = chars_of(name);
    let n = v.len();
    let mut i: usize = n;
    while i > 0
        invariant
            v@ == name@,
            n == v@.len(),
            i <= n,
            last_separator(v@, n as int) == last_separator(v@, i as int),
        decreases i,
    {
        if i < n && v[i - 1] == ':' && v[i] == ':' {
            assert(separator_at(v@, i - 1));
            return slice_of(name, i + 1, n);
        }
        i -= 1;
    }
    let r = String::from_str(name);
    r
}

/// The path without its last segment: what stands before the last `::`.
pub fn owner_path(path: &str) -> (r: Option<String>)
    ensures
        match r {
            Some(p) => path_owner(path@) == Some(p@),
            None => path_owner(path@) is None,
        },
{
    let v = chars_of(path);
    let n = v.len();
    let mut i: usize = n;
    while i > 0
        invariant
            v@ == path@,
            n == v@.len(),
            i <= n,
            last_separator(v@, n as int) == last_separator(v@, i as int),
        decreases i,
    {
        if i < n && v[i - 1] == ':' && v[i] == ':' {
            assert(separator_at(v@, i - 1));
            return Some(slice_of(path, 0, i - 1));
        }
        i -= 1;
    }
    None
}

/// The pieces of `path` between its `::` separators.
pub fn split_path(path: &str) -> (r: Vec<String>)
    ensures
        views(r@) == path_segments(path@),
{
    let v = chars_of(path);
    let n = v.len();
    let mut out: Vec<String> = Vec::new();
    let mut start: usize = 0;
    let mut i: usize = 0;
    while i < n
        invariant
            v@ == path@,
            n == v@.len(),
            start <= i <= n,
            first_separator(v@, start as int) == first_separator(v@, i as int),
            path_segments(v@) == views(out@) + segments_from(v@, start as int),
        decreases n - i,
    {
        if i + 1 < n && v[i] == ':' && v[i + 1] == ':' {
            assert(separator_at(v@, i as int));
            let ghost before = views(out@);
            out.push(slice_of(path, start, i));
            assert(views(out@) =~= before + seq![v@.subrange(start as int, i as int)]);
            assert(segments_from(v@, start as int) == seq![v@.subrange(start as int, i as int)]
                + segments_from(v@, i + 2));
            assert(path_segments(v@) =~= views(out@) + segments_from(v@, i + 2));
            start = i + 2;
            i = i + 2;
        } else {
            i += 1;
        }
    }
    let ghost before = views(out@);
    out.push(slice_of(path, start, n));
    assert(first_separator(v@, n as int) == -1);
    assert(views(out@) =~= before + seq![v@.subrange(start as int, n as int)]);
    out
}

/// `s` with every `-` turned into `_`.
pub fn replace_dashes(s: &str) -> (r: String)
    ensures
        r@ == underscored(s@),
{
    let v = chars_of(s);
    let n = v.len();
    let mut out = String::new();
    let mut i: usize = 0;
    while i < n
        invariant
            v@ == s@,
            n == v@.len(),
            i <= n,
            out@ == underscored(s@).subrange(0, i as int),
        decreases n - i,
    {
        if v[i] == '-' {
            proof {
                reveal_strlit("_");
            }
            out.append("_");
        } else {
            out.append(s.substring_char(i, i + 1));
        }
        i += 1;
        assert(out@ =~= underscored(s@).subrange(0, i as int));
    }
    assert(out@ =~= underscored(s@));
    out
}

/// What stands before the last `c` of `s`; `None` where `s` holds no `c`.
pub fn before_last(s: &str, c: char) -> (r: Option<String>)
    ensures
        match r {
            Some(head) => {
                let i = last_index_of(s@, c, s@.len() as int);
                0 <= i && head@ == s@.subrange(0, i)
            },
            None => last_index_of(s@, c, s@.len() as int) < 0,
        },
{
    let v = chars_of(s);
    let n = v.len();
    let mut i: usize = n;
    while i > 0
        invariant
            v@ == s@,
            n == v@.len(),
            i <= n,
            last_index_of(v@, c, n as int) == last_index_of(v@, c, i as int),
        decreases i,
    {
        if v[i - 1] == c {
            return Some(slice_of(s, 0, i - 1));
        }
        i -= 1;
    }
    None
}

/// Whether the code point of `a` is below that of `b`.
pub fn char_before(a: char, b: char) -> (r: bool)
    ensures
        r == (a < b),
{
    a < b
}

/// Whether `a` comes before `b`, or equals it, in lexicographic order.
pub fn text_before_or_equal(a: &str, b: &str) -> (r: bool)
    ensures
        r == text_le(a@, b@),
{
    let x = chars_of(a);
    let y = chars_of(b);
    let mut i: usize = 0;
    assert(x@.subrange(0, x@.len() as int) =~= x@);
    assert(y@.subrange(0, y@.len() as int) =~= y@);
    loop
        invariant
            x@ == a@,
            y@ == b@,
            i <= x@.len(),
            i <= y@.len(),
            text_le(a@, b@) == text_le(x@.subrange(i as int, x@.len() as int), y@.subrange(i as int, y@.len() as int)),
        decreases x@.len() - i,
    {
        let ghost xs = x@.subrange(i as int, x@.len() as int);
        let ghost ys = y@.subrange(i as int, y@.len() as int);
        if i == x.len() {
            return true;
        }
        if i == y.len() {
            return false;
        }
        assert(xs[0] == x@[i as int] && ys[0] == y@[i as int]);
        if x[i] != y[i] {
            return char_before(x[i], y[i]);
        }
        assert(xs.drop_first() =~= x@.subrange(i + 1, x@.len() as int));
        assert(ys.drop_first() =~= y@.subrange(i + 1, y@.len() as int));
        i += 1;
    }
}

/// The strings of `parts`, each followed by `sep` but the last.
pub fn join(parts: &Vec<String>, sep: &str) -> (r: String)
    ensures
        r@ == joined(views(parts@), sep@),
{
    let mut out = String::new();
    let mut i: usize = 0;
    while i < parts.len()
        invariant
            i <= parts.len(),
            out@ == joined(views(parts@).subrange(0, i as int), sep@),
        decreases parts.len() - i,
    {
        let ghost done = views(parts@).subrange(0, i as int);
        let ghost next = views(parts@).subrange(0, i + 1);
        assert(next.drop_last() =~= done);
        assert(next.last() == parts@[i as int]@);
        if i > 0 {
            out.append(sep);
        }
        out.append(parts[i].as_str());
        assert(out@ =~= joined(next, sep@)) by {
            if i == 0 {
                assert(done.len() == 0);
                assert(out@ =~= parts@[0]@);
            }
        }
        i += 1;
    }
    assert(views(parts@).subrange(0, parts@.len() as int) =~= views(parts@));
    out
}

/// The value of a decimal digit.
pub open spec fn digit_value(c: char) -> Option<nat> {
    if '0' <= c && c <= '9' {
        Some((c as nat - '0' as nat) as nat)
    } else {
        None
    }
}

/// The number that a run of decimal digits writes; the empty run writes 0.
pub open spec fn digits_value(s: Seq<char>) -> Option<nat>
    decreases s.len(),
{
    if s.len() == 0 {
        Some(0)
    } else {
        match (digits_value(s.drop_last()), digit_value(s.last())) {
            (Some(v), Some(d)) => Some(10 * v + d),
            _ => None,
        }
    }
}

/// The number that `s` writes in decimal digits, where it is one or more
/// digits and the number fits 64 bits.
pub open spec fn decimal(s: Seq<char>) -> Option<u64> {
    if s.len() == 0 {
        None
    } else {
        match digits_value(s) {
            Some(v) => if v <= u64::MAX {
                Some(v as u64)
            } else {
                None
            },
            None => None,
        }
    }
}

/// A run that writes a number writes one up to each of its indices, and none
/// of those is greater.
pub proof fn lemma_digits_prefix(s: Seq<char>, i: int)
    requires
        0 <= i <= s.len(),
        digits_value(s) is Some,
    ensures
        digits_value(s.take(i)) is Some,
        digits_value(s.take(i))->0 <= digits_value(s)->0,
    decreases s.len(),
{
    if i == s.len() {
        assert(s.take(i) =~= s);
    } else {
        lemma_digits_prefix(s.drop_last(), i);
        assert(s.drop_last().take(i) =~= s.take(i));
    }
}

/// The number that `s` writes in decimal digits.
pub fn parse_decimal(s: &str) -> (r: Option<u64>)
    ensures
        r == decimal(s@),
{
    let v = chars_of(s);
    let n = v.len();
    if n == 0 {
        return None;
    }
    let mut acc: u64 = 0;
    let mut i: usize = 0;
    assert(v@.take(0) =~= Seq::<char>::empty());
    while i < n
        invariant
            v@ == s@,
            n == v@.len(),
            n > 0,
            i <= n,
            digits_value(v@.take(i as int)) == Some(acc as nat),
        decreases n - i,
    {
        let c = v[i];
        assert(v@.take(i + 1).drop_last() =~= v@.take(i as int));
        assert(v@.take(i + 1).last() == c);
        if !(c >= '0' && c <= '9') {
            proof {
                if digits_value(v@) is Some {
                    lemma_digits_prefix(v@, i + 1);
                }
            }
            return None;
        }
        let d: u64 = (c as u32 - '0' as u32) as u64;
        if acc > (u64::MAX - d) / 10 {
            proof {
                if digits_value(v@) is Some {
                    lemma_digits_prefix(v@, i + 1);
                }
            }
            return None;
        }
        acc = acc * 10 + d;
        i += 1;
    }
    assert(v@.take(n as int) =~= v@);
    Some(acc)
}

/// The number that `s` writes as an unsigned integer of 64 bits: decimal
/// digits, which a plus sign may precede.
pub open spec fn unsigned(s: Seq<char>) -> Option<u64> {
    if s.len() > 0 && s[0] == '+' {
        decimal(s.subrange(1, s.len() as int))
    } else {
        decimal(s)
    }
}

/// The number that `s` writes as an unsigned integer of 64 bits.
pub fn parse_unsigned(s: &str) -> (r: Option<u64>)
    ensures
        r == unsigned(s@),
{
    let n = s.unicode_len();
    if n > 0 && s.get_char(0) == '+' {
        let rest = slice_of(s, 1, n);
        parse_decimal(rest.as_str())
    } else {
        parse_decimal(s)
    }
}

/// The part of `s` between `prefix` and `suffix`, where it has both.
pub fn strip_affixes(s: &str, prefix: &str, suffix: &str) -> (r: Option<String>)
    ensures
        match r {
            Some(inner) => between(s@, prefix@, suffix@) == Some(inner@),
            None => between(s@, prefix@, suffix@) is None,
        },
{
    let n = s.unicode_len();
    let p = prefix.unicode_len();
    let q = suffix.unicode_len();
    if p > n || q > n - p {
        return None;
    }
    let head = s.substring_char(0, p);
    let tail = s.substring_char(n - q, n);
    if same_text(head, prefix) && same_text(tail, suffix) {
        Some(slice_of(s, p, n - q))
    } else {
        None
    }
}

} // verus!
