//! Text building blocks shared by the renderers and the input handling.
use vstd::prelude::*;

verus! {

broadcast use vstd::string::group_string_axioms;

/// `String::push` appends one character.
pub assume_specification[ String::push ](s: &mut String, ch: char)
    ensures
        final(s)@ == old(s)@.push(ch),
;

/// `String::push_str` appends the characters of a string slice.
pub assume_specification[ String::push_str ](s: &mut String, string: &str)
    ensures
        final(s)@ == old(s)@ + string@,
;

/// `String::clear` empties the string.
pub assume_specification[ String::clear ](s: &mut String)
    ensures
        final(s)@ == Seq::<char>::empty(),
;

/// The characters of a string slice, collected into a vector.
pub fn chars_of(s: &str) -> (v: Vec<char>)
    ensures
        v@ == s@,
{
    let mut v: Vec<char> = Vec::new();
    for c in iter: s.chars()
        invariant
            v@ == iter.seq().take(iter.index() as int),
    {
        v.push(c);
    }
    proof { assert(v@ =~= s@); }
    v
}


/// The ASCII character of a decimal digit.
pub open spec fn digit_char(d: nat) -> char {
    ((d + 48) as u8) as char
}

/// The decimal representation of a natural number, without leading zeros.
pub open spec fn decimal(n: nat) -> Seq<char>
    decreases n,
{
    if n < 10 {
        seq![digit_char(n)]
    } else {
        decimal(n / 10).push(digit_char(n % 10))
    }
}

/// The decimal representation padded with zeros to at least two characters.
pub open spec fn decimal2(n: nat) -> Seq<char> {
    if n < 10 {
        seq!['0', digit_char(n)]
    } else {
        decimal(n)
    }
}

/// `n` copies of `c`.
pub open spec fn repeat(c: char, n: nat) -> Seq<char>
    decreases n,
{
    if n == 0 {
        Seq::empty()
    } else {
        repeat(c, (n - 1) as nat).push(c)
    }
}

/// The concatenation `f(0) + f(1) + ... + f(n - 1)`.
pub open spec fn concat_map(n: nat, f: spec_fn(int) -> Seq<char>) -> Seq<char>
    decreases n,
{
    if n == 0 {
        Seq::empty()
    } else {
        concat_map((n - 1) as nat, f) + f(n - 1)
    }
}

pub proof fn lemma_repeat_len(c: char, n: nat)
    ensures
        repeat(c, n).len() == n,
        forall|i: int| 0 <= i < n ==> #[trigger] repeat(c, n)[i] == c,
    decreases n,
{
    if n > 0 {
        lemma_repeat_len(c, (n - 1) as nat);
    }
}

/// Appends one decimal digit.
pub fn push_digit(out: &mut String, d: u64)
    requires
        d < 10,
    ensures
        final(out)@ == old(out)@.push(digit_char(d as nat)),
{
    out.push((48u8 + d as u8) as char);
}

/// Appends the decimal representation of `value`.
pub fn push_decimal(out: &mut String, value: u64)
    ensures
        final(out)@ == old(out)@ + decimal(value as nat),
    decreases value,
{
    if value >= 10 {
        push_decimal(out, value / 10);
        push_digit(out, value % 10);
        proof {
            assert(decimal(value as nat) == decimal((value / 10) as nat).push(
                digit_char((value % 10) as nat),
            ));
        }
        assert(final(out)@ =~= old(out)@ + decimal(value as nat)) by {
            assert(old(out)@ + decimal(value as nat) =~= (old(out)@ + decimal((value / 10) as nat)).push(
                digit_char((value % 10) as nat)));
        }
    } else {
        push_digit(out, value);
        assert(out@ =~= old(out)@ + decimal(value as nat));
    }
}

/// Appends `value` in decimal, padded with a leading zero to two digits.
pub fn push_decimal2(out: &mut String, value: u64)
    ensures
        final(out)@ == old(out)@ + decimal2(value as nat),
{
    if value < 10 {
        out.push('0');
        push_digit(out, value);
        assert(out@ =~= old(out)@ + decimal2(value as nat));
    } else {
        push_decimal(out, value);
    }
}

/// Appends `count` copies of `c`.
pub fn push_repeat(out: &mut String, c: char, count: usize)
    ensures
        final(out)@ == old(out)@ + repeat(c, count as nat),
{
    let mut i: usize = 0;
    while i < count
        invariant
            i <= count,
            out@ == old(out)@ + repeat(c, i as nat),
        decreases count - i,
    {
        out.push(c);
        i = i + 1;
        assert(out@ =~= old(out)@ + repeat(c, i as nat));
    }
}

/// A character `char::is_whitespace` accepts: the Unicode `White_Space` characters.
pub open spec fn is_space(c: char) -> bool {
    let u = c as u32;
    ||| 0x09 <= u <= 0x0d
    ||| u == 0x20
    ||| u == 0x85
    ||| u == 0xa0
    ||| u == 0x1680
    ||| 0x2000 <= u <= 0x200a
    ||| u == 0x2028
    ||| u == 0x2029
    ||| u == 0x202f
    ||| u == 0x205f
    ||| u == 0x3000
}

/// `s` without its leading whitespace.
pub open spec fn trim_start(s: Seq<char>) -> Seq<char>
    decreases s.len(),
{
    if s.len() > 0 && is_space(s[0]) {
        trim_start(s.drop_first())
    } else {
        s
    }
}

/// `s` without its trailing whitespace.
pub open spec fn trim_end(s: Seq<char>) -> Seq<char>
    decreases s.len(),
{
    if s.len() > 0 && is_space(s.last()) {
        trim_end(s.drop_last())
    } else {
        s
    }
}

/// `s` without leading and trailing whitespace, as `str::trim` returns it.
pub open spec fn trimmed(s: Seq<char>) -> Seq<char> {
    trim_end(trim_start(s))
}

/// `p` is a prefix of `s`.
pub open spec fn has_prefix(s: Seq<char>, p: Seq<char>) -> bool {
    p.len() <= s.len() && s.take(p.len() as int) == p
}

/// `p` occurs somewhere in `s`.
pub open spec fn has_infix(s: Seq<char>, p: Seq<char>) -> bool {
    exists|i: int| 0 <= i && i + p.len() <= s.len() && #[trigger] s.subrange(i, i + p.len()) == p
}

/// Whether `c` is whitespace.
pub fn is_space_char(c: char) -> (b: bool)
    ensures
        b == is_space(c),
{
    let u = c as u32;
    (0x09 <= u && u <= 0x0d) || u == 0x20 || u == 0x85 || u == 0xa0 || u == 0x1680 || (0x2000 <= u && u
        <= 0x200a) || u == 0x2028 || u == 0x2029 || u == 0x202f || u == 0x205f || u == 0x3000
}

proof fn lemma_trim_start_skip(s: Seq<char>, i: int)
    requires
        0 <= i <= s.len(),
        forall|j: int| 0 <= j < i ==> is_space(#[trigger] s[j]),
    ensures
        trim_start(s) == trim_start(s.skip(i)),
    decreases i,
{
    if i > 0 {
        assert(s.skip(1) =~= s.drop_first());
        lemma_trim_start_skip(s.drop_first(), i - 1);
        assert(s.drop_first().skip(i - 1) =~= s.skip(i));
    } else {
        assert(s.skip(0) =~= s);
    }
}

proof fn lemma_trim_end_take(s: Seq<char>, i: int)
    requires
        0 <= i <= s.len(),
        forall|j: int| i <= j < s.len() ==> is_space(#[trigger] s[j]),
    ensures
        trim_end(s) == trim_end(s.take(i)),
    decreases s.len() - i,
{
    if i < s.len() {
        assert(s.take(s.len() - 1) =~= s.drop_last());
        lemma_trim_end_take(s.drop_last(), i);
        assert(s.drop_last().take(i) =~= s.take(i));
    } else {
        assert(s.take(i) =~= s);
    }
}

/// The text of `s` with leading and trailing whitespace removed.
pub fn trim(s: &str) -> (t: String)
    ensures
        t@ == trimmed(s@),
{
    let chars = chars_of(s);
    let mut start: usize = 0;
    while start < chars.len() && is_space_char(chars[start])
        invariant
            start <= chars@.len(),
            forall|j: int| 0 <= j < start ==> is_space(#[trigger] chars@[j]),
        decreases chars.len() - start,
    {
        start = start + 1;
    }
    let ghost rest = chars@.skip(start as int);
    proof {
        lemma_trim_start_skip(chars@, start as int);
        assert(trim_start(rest) == rest);
    }
    let mut end: usize = chars.len();
    while end > start && is_space_char(chars[end - 1])
        invariant
            start <= end <= chars@.len(),
            forall|j: int| end <= j < chars@.len() ==> is_space(#[trigger] chars@[j]),
        decreases end - start,
    {
        end = end - 1;
    }
    proof {
        let piece = chars@.subrange(start as int, end as int);
        assert(rest.take(end - start) =~= piece);
        lemma_trim_end_take(rest, end - start);
        if piece.len() > 0 {
            assert(piece.last() == chars@[end - 1]);
        }
        assert(trim_end(piece) == piece);
    }
    let mut t = String::new();
    let mut i = start;
    while i < end
        invariant
            start <= i <= end <= chars@.len(),
            t@ == chars@.subrange(start as int, i as int),
        decreases end - i,
    {
        t.push(chars[i]);
        i = i + 1;
        assert(t@ =~= chars@.subrange(start as int, i as int));
    }
    t
}

/// Whether `s[at..]` starts with the characters of `p`.
pub fn matches_at(s: &Vec<char>, at: usize, p: &Vec<char>) -> (b: bool)
    requires
        at <= s@.len(),
    ensures
        b == (at + p@.len() <= s@.len() && s@.subrange(at as int, at + p@.len()) == p@),
{
    if p.len() > s.len() - at {
        return false;
    }
    let mut i: usize = 0;
    while i < p.len()
        invariant
            at + p@.len() <= s.len(),
            i <= p@.len(),
            forall|j: int| 0 <= j < i ==> s@[at + j] == p@[j],
        decreases p.len() - i,
    {
        if s[at + i] != p[i] {
            assert(s@.subrange(at as int, at + p@.len())[i as int] != p@[i as int]);
            return false;
        }
        i = i + 1;
    }
    assert(s@.subrange(at as int, at + p@.len()) =~= p@);
    true
}

/// Whether `s` starts with `p`.
pub fn starts_with(s: &Vec<char>, p: &str) -> (b: bool)
    ensures
        b == has_prefix(s@, p@),
{
    let pc = chars_of(p);
    let b = matches_at(s, 0, &pc);
    assert(s@.take(pc@.len() as int) =~= s@.subrange(0, pc@.len() as int));
    b
}

/// Whether `p` occurs in `s`.
pub fn contains(s: &Vec<char>, p: &str) -> (b: bool)
    ensures
        b == has_infix(s@, p@),
{
    let pc = chars_of(p);
    let mut i: usize = 0;
    while i < s.len()
        invariant
            i <= s@.len(),
            pc@ == p@,
            forall|j: int| 0 <= j < i && j + p@.len() <= s@.len() ==> #[trigger] s@.subrange(j, j + p@.len()) != p@,
        decreases s.len() - i,
    {
        if matches_at(s, i, &pc) {
            return true;
        }
        i = i + 1;
    }
    matches_at(s, i, &pc)
}

/// Whether `s` equals `p`.
pub fn equals(s: &Vec<char>, p: &str) -> (b: bool)
    ensures
        b == (s@ == p@),
{
    let pc = chars_of(p);
    if pc.len() != s.len() {
        return false;
    }
    let b = matches_at(s, 0, &pc);
    assert(s@.subrange(0, s@.len() as int) =~= s@);
    b
}

/// A new string holding the characters of `s`.
pub fn string_of(s: &str) -> (t: String)
    ensures
        t@ == s@,
{
    let mut t = String::new();
    t.push_str(s);
    t
}

/// A new string holding `s[start..end]`.
pub fn string_from_range(s: &Vec<char>, start: usize, end: usize) -> (t: String)
    requires
        start <= end <= s@.len(),
    ensures
        t@ == s@.subrange(start as int, end as int),
{
    let mut t = String::new();
    let mut i = start;
    while i < end
        invariant
            start <= i <= end <= s@.len(),
            t@ == s@.subrange(start as int, i as int),
        decreases end - i,
    {
        t.push(s[i]);
        i = i + 1;
        assert(t@ =~= s@.subrange(start as int, i as int));
    }
    t
}

proof fn lemma_trim_start_shape(s: Seq<char>)
    ensures
        trim_start(s).len() == 0 || !is_space(trim_start(s)[0]),
        trim_start(trim_start(s)) == trim_start(s),
        exists|k: int| 0 <= k <= s.len() && trim_start(s) == #[trigger] s.skip(k),
    decreases s.len(),
{
    if s.len() > 0 && is_space(s[0]) {
        lemma_trim_start_shape(s.drop_first());
        let k = choose|k: int| 0 <= k <= s.drop_first().len() && trim_start(s.drop_first()) == #[trigger] s.drop_first().skip(k);
        assert(s.drop_first().skip(k) =~= s.skip(k + 1));
    } else {
        assert(s.skip(0) =~= s);
    }
}

proof fn lemma_trim_end_shape(s: Seq<char>)
    ensures
        trim_end(s).len() == 0 || !is_space(trim_end(s).last()),
        trim_end(trim_end(s)) == trim_end(s),
        exists|k: int| 0 <= k <= s.len() && trim_end(s) == #[trigger] s.take(k),
    decreases s.len(),
{
    if s.len() > 0 && is_space(s.last()) {
        lemma_trim_end_shape(s.drop_last());
        let k = choose|k: int| 0 <= k <= s.drop_last().len() && trim_end(s.drop_last()) == #[trigger] s.drop_last().take(k);
        assert(s.drop_last().take(k) =~= s.take(k));
    } else {
        assert(s.take(s.len() as int) =~= s);
    }
}

/// Trimming is idempotent, and a trimmed text neither starts nor ends with whitespace.
pub proof fn lemma_trim_idempotent(s: Seq<char>)
    ensures
        trimmed(trimmed(s)) == trimmed(s),
        trimmed(s).len() == 0 || (!is_space(trimmed(s)[0]) && !is_space(trimmed(s).last())),
{
    let a = trim_start(s);
    lemma_trim_start_shape(s);
    lemma_trim_end_shape(a);
    let t = trim_end(a);
    let k = choose|k: int| 0 <= k <= a.len() && trim_end(a) == #[trigger] a.take(k);
    if t.len() > 0 {
        assert(t[0] == a[0]);
        assert(trim_start(t) == t);
    } else {
        assert(trim_start(t) == t);
    }
    lemma_trim_end_shape(t);
}

} // verus!
