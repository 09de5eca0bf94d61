//! Character-level helpers: every piece of text that the library takes apart
//! or puts together goes through these, over `Seq<char>` in contracts and
//! `Vec<char>` in code.

use vstd::prelude::*;

verus! {

/// The three outcomes of comparing two ordered values.
#[derive(Clone, Copy, Debug, PartialEq, Eq, Structural)]
pub enum Order {
    Less,
    Equal,
    Greater,
}

/// How two integers stand to each other.
pub open spec fn int_order(a: int, b: int) -> Order {
    if a < b {
        Order::Less
    } else if a == b {
        Order::Equal
    } else {
        Order::Greater
    }
}

/// `String::from_iter` over the characters of `chars`: the string that holds
/// exactly these characters, in this order.
#[verifier::external_body]
pub(crate) fn text_of(chars: &Vec<char>) -> (r: String)
    ensures
        r@ == chars@,
{
    chars.iter().collect()
}

/// The characters of `s`, in order.
pub fn chars_of(s: &str) -> (v: Vec<char>)
    ensures
        v@ == s@,
{
    let mut v: Vec<char> = Vec::new();
    for c in it: s.chars()
        invariant
            it.seq() == s@,
            v@ == s@.take(it.index() as int),
    {
        v.push(c);
    }
    v
}

/// Appends the characters of `tail` to `out`.
pub fn push_all(out: &mut Vec<char>, tail: &Vec<char>)
    ensures
        final(out)@ == old(out)@ + tail@,
{
    let mut i: usize = 0;
    while i < tail.len()
        invariant
            i <= tail.len(),
            out@ == old(out)@ + tail@.take(i as int),
        decreases tail.len() - i,
    {
        out.push(tail[i]);
        i = i + 1;
    }
}

/// Appends the characters of the string `tail` to `out`.
pub fn push_str(out: &mut Vec<char>, tail: &str)
    ensures
        final(out)@ == old(out)@ + tail@,
{
    let chars = chars_of(tail);
    push_all(out, &chars);
}

/// A copy of the characters of `v` from index `from` up to, not including, `to`.
pub fn slice_of(v: &Vec<char>, from: usize, to: usize) -> (r: Vec<char>)
    requires
        from <= to <= v.len(),
    ensures
        r@ == v@.subrange(from as int, to as int),
{
    let mut r: Vec<char> = Vec::new();
    let mut i: usize = from;
    while i < to
        invariant
            from <= i <= to <= v.len(),
            r@ == v@.subrange(from as int, i as int),
        decreases to - i,
    {
        r.push(v[i]);
        i = i + 1;
    }
    r
}

/// Whether `c` occurs in `s`.
pub open spec fn has_char(s: Seq<char>, c: char) -> bool {
    exists|i: int| 0 <= i < s.len() && s[i] == c
}

/// Whether `c` occurs in `v`.
pub fn contains_char(v: &Vec<char>, c: char) -> (r: bool)
    ensures
        r == has_char(v@, c),
{
    let mut i: usize = 0;
    while i < v.len()
        invariant
            i <= v.len(),
            forall|k: int| 0 <= k < i ==> v@[k] != c,
        decreases v.len() - i,
    {
        if v[i] == c {
            return true;
        }
        i = i + 1;
    }
    false
}

/// Whether two texts hold the same characters.
pub fn same_chars(a: &Vec<char>, b: &Vec<char>) -> (r: bool)
    ensures
        r == (a@ == b@),
{
    if a.len() != b.len() {
        return false;
    }
    let mut i: usize = 0;
    while i < a.len()
        invariant
            i <= a.len(),
            a.len() == b.len(),
            forall|k: int| 0 <= k < i ==> a@[k] == b@[k],
        decreases a.len() - i,
    {
        if a[i] != b[i] {
            return false;
        }
        i = i + 1;
    }
    assert(a@ =~= b@);
    true
}

/// Whether two strings hold the same characters.
pub fn same_text(a: &str, b: &str) -> (r: bool)
    ensures
        r == (a@ == b@),
{
    let x = chars_of(a);
    let y = chars_of(b);
    same_chars(&x, &y)
}

/// Unicode's `White_Space` characters: what counts as blank around a key, an
/// operator or an operand.
pub open spec fn is_space(c: char) -> bool {
    let n = c as u32;
    ||| 0x09 <= n <= 0x0D
    ||| n == 0x20
    ||| n == 0x85
    ||| n == 0xA0
    ||| n == 0x1680
    ||| 0x2000 <= n <= 0x200A
    ||| n == 0x2028
    ||| n == 0x2029
    ||| n == 0x202F
    ||| n == 0x205F
    ||| n == 0x3000
}

pub fn char_is_space(c: char) -> (r: bool)
    ensures
        r == is_space(c),
{
    let n: u32 = c as u32;
    (0x09 <= n && n <= 0x0D) || n == 0x20 || n == 0x85 || n == 0xA0 || n == 0x1680 || (0x2000 <= n
        && n <= 0x200A) || n == 0x2028 || n == 0x2029 || n == 0x202F || n == 0x205F || n == 0x3000
}

/// `s` without its leading blanks.
pub open spec fn trim_start(s: Seq<char>) -> Seq<char>
    decreases s.len(),
{
    if s.len() > 0 && is_space(s.first()) {
        trim_start(s.drop_first())
    } else {
        s
    }
}

/// `s` without its trailing blanks.
pub open spec fn trim_end(s: Seq<char>) -> Seq<char>
    decreases s.len(),
{
    if s.len() > 0 && is_space(s.last()) {
        trim_end(s.drop_last())
    } else {
        s
    }
}

/// `s` without the blanks at either end.
pub open spec fn trimmed(s: Seq<char>) -> Seq<char> {
    trim_end(trim_start(s))
}

/// The characters of `v` between `from` and `to`, without the blanks at
/// either end.
pub fn trim_range(v: &Vec<char>, from: usize, to: usize) -> (r: Vec<char>)
    requires
        from <= to <= v.len(),
    ensures
        r@ == trimmed(v@.subrange(from as int, to as int)),
{
    let mut i: usize = from;
    while i < to && char_is_space(v[i])
        invariant
            from <= i <= to <= v.len(),
            trim_start(v@.subrange(from as int, to as int)) == trim_start(
                v@.subrange(i as int, to as int),
            ),
        decreases to - i,
    {
        assert(v@.subrange(i as int, to as int).drop_first() =~= v@.subrange(
            i as int + 1,
            to as int,
        ));
        i = i + 1;
    }
    let mut j: usize = to;
    while j > i && char_is_space(v[j - 1])
        invariant
            i <= j <= to <= v.len(),
            trim_end(v@.subrange(i as int, to as int)) == trim_end(v@.subrange(i as int, j as int)),
        decreases j,
    {
        assert(v@.subrange(i as int, j as int).drop_last() =~= v@.subrange(
            i as int,
            j as int - 1,
        ));
        j = j - 1;
    }
    slice_of(v, i, j)
}

/// The lower-case form of an ASCII capital; any other character unchanged.
pub open spec fn lower(c: char) -> char {
    if 'A' <= c <= 'Z' {
        ((c as u8) + 32) as char
    } else {
        c
    }
}

pub fn char_lower(c: char) -> (r: char)
    ensures
        r == lower(c),
{
    if 'A' <= c && c <= 'Z' {
        ((c as u8) + 32) as char
    } else {
        c
    }
}

/// `s` with each ASCII capital replaced by its lower-case form.
pub open spec fn lowered(s: Seq<char>) -> Seq<char> {
    Seq::new(s.len(), |i: int| lower(s[i]))
}

/// Whether `s` reads as `word` when the case of ASCII letters is ignored in
/// `s`. `word` is taken as it stands.
pub fn is_word(s: &str, word: &str) -> (r: bool)
    ensures
        r == (lowered(s@) == word@),
{
    let a = chars_of(s);
    let b = chars_of(word);
    if a.len() != b.len() {
        return false;
    }
    let mut i: usize = 0;
    while i < a.len()
        invariant
            i <= a.len(),
            a.len() == b.len(),
            a@ == s@,
            b@ == word@,
            forall|k: int| 0 <= k < i ==> lower(a@[k]) == b@[k],
        decreases a.len() - i,
    {
        if char_lower(a[i]) != b[i] {
            return false;
        }
        i = i + 1;
    }
    assert(lowered(s@) =~= word@);
    true
}

/// The pieces of `parts`, with `sep` between each two neighbours.
pub open spec fn joined(parts: Seq<Seq<char>>, sep: Seq<char>) -> Seq<char>
    decreases parts.len(),
{
    if parts.len() == 0 {
        Seq::empty()
    } else if parts.len() == 1 {
        parts[0]
    } else {
        joined(parts.drop_last(), sep) + sep + parts.last()
    }
}

/// What each of `parts` holds, as sequences.
pub open spec fn views(parts: Seq<Vec<char>>) -> Seq<Seq<char>> {
    Seq::new(parts.len(), |i: int| parts[i]@)
}

/// The pieces of `parts`, with `sep` between each two neighbours.
pub fn join(parts: &Vec<Vec<char>>, sep: &str) -> (r: Vec<char>)
    ensures
        r@ == joined(views(parts@), sep@),
{
    let mut out: Vec<char> = Vec::new();
    let sep_chars = chars_of(sep);
    let mut i: usize = 0;
    while i < parts.len()
        invariant
            i <= parts.len(),
            sep_chars@ == sep@,
            out@ == joined(views(parts@).take(i as int), sep@),
        decreases parts.len() - i,
    {
        let ghost before = views(parts@).take(i as int);
        let ghost after = views(parts@).take(i as int + 1);
        assert(after.drop_last() =~= before);
        if i > 0 {
            push_all(&mut out, &sep_chars);
        }
        push_all(&mut out, &parts[i]);
        i = i + 1;
    }
    assert(views(parts@).take(parts.len() as int) =~= views(parts@));
    out
}

/// Where the first line of `s` ends: the index of its first line feed, or the
/// length of `s` where it holds none.
pub open spec fn line_end(s: Seq<char>) -> nat
    decreases s.len(),
{
    if s.len() == 0 || s.first() == '\n' {
        0
    } else {
        1 + line_end(s.drop_first())
    }
}

/// `s` without one trailing carriage return.
pub open spec fn without_cr(s: Seq<char>) -> Seq<char> {
    if s.len() > 0 && s.last() == '\r' {
        s.drop_last()
    } else {
        s
    }
}

/// The lines of `s`. A line ends at a line feed, which is not part of it, nor
/// is a carriage return just before that line feed. What follows the last
/// line feed is a line of its own unless it is empty.
pub open spec fn lines_of(s: Seq<char>) -> Seq<Seq<char>>
    decreases s.len(),
{
    let end = line_end(s);
    if s.len() == 0 {
        Seq::empty()
    } else if end >= s.len() {
        seq![s]
    } else {
        seq![without_cr(s.subrange(0, end as int))] + lines_of(
            s.subrange(end as int + 1, s.len() as int),
        )
    }
}

pub proof fn lemma_line_end_bounds(s: Seq<char>)
    ensures
        line_end(s) <= s.len(),
        line_end(s) < s.len() ==> s[line_end(s) as int] == '\n',
        forall|k: int| 0 <= k < line_end(s) ==> s[k] != '\n',
    decreases s.len(),
{
    if s.len() == 0 || s.first() == '\n' {
    } else {
        let rest = s.drop_first();
        lemma_line_end_bounds(rest);
        assert forall|k: int| 0 <= k < line_end(s) implies s[k] != '\n' by {
            if k > 0 {
                assert(s[k] == rest[k - 1]);
            }
        }
    }
}

/// The line that the first `n` characters of `s` form when `s[n]` is its
/// first line feed, or, with `n` the length of `s`, when it holds none.
proof fn lemma_line_end_is(s: Seq<char>, n: nat)
    requires
        n <= s.len(),
        forall|k: int| 0 <= k < n ==> s[k] != '\n',
        n < s.len() ==> s[n as int] == '\n',
    ensures
        line_end(s) == n,
{
    lemma_line_end_bounds(s);
}

/// The lines of the text in `v` (see [`lines_of`]).
pub fn split_lines(v: &Vec<char>) -> (r: Vec<Vec<char>>)
    ensures
        views(r@) == lines_of(v@),
{
    let mut lines: Vec<Vec<char>> = Vec::new();
    let n = v.len();
    let mut start: usize = 0;
    assert(v@.subrange(0, n as int) =~= v@);
    while start < n
        invariant
            start <= n == v.len(),
            lines_of(v@) == views(lines@) + lines_of(v@.subrange(start as int, n as int)),
        decreases n - start,
    {
        let ghost rest = v@.subrange(start as int, n as int);
        let mut end: usize = start;
        while end < n && v[end] != '\n'
            invariant
                start <= end <= n == v.len(),
                forall|k: int| start <= k < end ==> v@[k] != '\n',
            decreases n - end,
        {
            end = end + 1;
        }
        proof {
            lemma_line_end_is(rest, (end - start) as nat);
        }
        if end == n {
            let line = slice_of(v, start, n);
            lines.push(line);
            start = n;
        } else {
            let stop = if end > start && v[end - 1] == '\r' {
                end - 1
            } else {
                end
            };
            let line = slice_of(v, start, stop);
            assert(line@ =~= without_cr(rest.subrange(0, end - start)));
            assert(rest.subrange(end - start + 1, rest.len() as int) =~= v@.subrange(
                end as int + 1,
                n as int,
            ));
            lines.push(line);
            start = end + 1;
        }
    }
    lines
}

/// How `a` stands to `b` in the order of a dictionary, where a character
/// comes before another when its code point is the smaller, and a text
/// before every longer text that starts with it.
pub open spec fn text_order(a: Seq<char>, b: Seq<char>) -> Order
    decreases a.len(),
{
    if a.len() == 0 && b.len() == 0 {
        Order::Equal
    } else if a.len() == 0 {
        Order::Less
    } else if b.len() == 0 {
        Order::Greater
    } else if a.first() == b.first() {
        text_order(a.drop_first(), b.drop_first())
    } else if (a.first() as u32) < (b.first() as u32) {
        Order::Less
    } else {
        Order::Greater
    }
}

/// How `a` stands to `b` in the order of a dictionary (see [`text_order`]).
pub fn order_texts(a: &str, b: &str) -> (r: Order)
    ensures
        r == text_order(a@, b@),
{
    let x = chars_of(a);
    let y = chars_of(b);
    let mut i: usize = 0;
    assert(x@.skip(0) =~= x@ && y@.skip(0) =~= y@);
    while i < x.len() && i < y.len()
        invariant
            i <= x.len(),
            i <= y.len(),
            x@ == a@,
            y@ == b@,
            text_order(a@, b@) == text_order(x@.skip(i as int), y@.skip(i as int)),
        decreases x.len() - i,
    {
        let ghost p = x@.skip(i as int);
        let ghost q = y@.skip(i as int);
        assert(p.drop_first() =~= x@.skip(i as int + 1));
        assert(q.drop_first() =~= y@.skip(i as int + 1));
        if x[i] != y[i] {
            if (x[i] as u32) < (y[i] as u32) {
                return Order::Less;
            } else {
                return Order::Greater;
            }
        }
        i = i + 1;
    }
    if i < y.len() {
        Order::Less
    } else if i < x.len() {
        Order::Greater
    } else {
        Order::Equal
    }
}

/// Two texts stand in the order `Equal` exactly when they are the same.
pub proof fn lemma_text_order_equal(a: Seq<char>, b: Seq<char>)
    ensures
        text_order(a, b) == Order::Equal <==> a == b,
    decreases a.len(),
{
    if a.len() > 0 && b.len() > 0 {
        lemma_text_order_equal(a.drop_first(), b.drop_first());
        if a.first() == b.first() && a.drop_first() == b.drop_first() {
            assert(a =~= seq![a.first()] + a.drop_first());
            assert(b =~= seq![b.first()] + b.drop_first());
        }
    } else if a.len() == 0 && b.len() == 0 {
        assert(a =~= b);
    }
}

/// Whether `needle` stands somewhere in `text`, character for character.
pub open spec fn occurs_in(needle: Seq<char>, text: Seq<char>) -> bool {
    exists|i: int|
        0 <= i && i + needle.len() <= text.len() && #[trigger] text.subrange(
            i,
            i + needle.len(),
        ) == needle
}

/// What stands between two other texts stands in the whole.
pub proof fn lemma_occurs_between(before: Seq<char>, needle: Seq<char>, after: Seq<char>)
    ensures
        occurs_in(needle, before + needle + after),
{
    let text = before + needle + after;
    let i = before.len() as int;
    assert(text.subrange(i, i + needle.len()) =~= needle);
}

} // verus!
