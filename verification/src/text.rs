use vstd::prelude::*;
use vstd::string::*;

verus! {

broadcast use vstd::string::group_string_axioms;

/// The characters of `s`, in order.
pub fn chars_of(s: &str) -> (v: Vec<char>)
    ensures
        v@ == s@,
{
    let mut v: Vec<char> = Vec::new();
    for c in it: s.chars()
        invariant
            it.seq() == s@,
            v@ == it.seq().take(it.index()),
    {
        v.push(c);
    }
    v
}

} // verus!

verus! {

/// The decimal digit character for `d`.
pub open spec fn digit_char(d: nat) -> char {
    if d == 0 {
        '0'
    } else if d == 1 {
        '1'
    } else if d == 2 {
        '2'
    } else if d == 3 {
        '3'
    } else if d == 4 {
        '4'
    } else if d == 5 {
        '5'
    } else if d == 6 {
        '6'
    } else if d == 7 {
        '7'
    } else if d == 8 {
        '8'
    } else {
        '9'
    }
}

pub open spec fn is_digit(c: char) -> bool {
    '0' <= c <= '9'
}

/// The value of a decimal digit character.
pub open spec fn digit_value(c: char) -> nat {
    (c as nat - '0' as nat) as nat
}

/// The decimal notation of `n`, without leading zeros.
pub open spec fn decimal(n: nat) -> Seq<char>
    decreases n,
{
    if n < 10 {
        seq![digit_char(n)]
    } else {
        decimal(n / 10).push(digit_char(n % 10))
    }
}

/// The number that a string of decimal digits denotes.
pub open spec fn decimal_value(d: Seq<char>) -> nat
    decreases d.len(),
{
    if d.len() == 0 {
        0
    } else {
        decimal_value(d.drop_last()) * 10 + digit_value(d.last())
    }
}

pub open spec fn all_digits(d: Seq<char>) -> bool {
    forall|i: int| 0 <= i < d.len() ==> is_digit(#[trigger] d[i])
}

/// What `u16::from_str` gives for `t`: an optional `+`, then at least one decimal
/// digit, with a value that fits in 16 bits.
pub open spec fn parse_u16(t: Seq<char>) -> Option<u16> {
    let d = if t.len() > 0 && t[0] == '+' {
        t.drop_first()
    } else {
        t
    };
    if d.len() > 0 && all_digits(d) && decimal_value(d) <= u16::MAX {
        Some(decimal_value(d) as u16)
    } else {
        None
    }
}

proof fn lemma_digit_char(d: nat)
    requires
        d < 10,
    ensures
        is_digit(digit_char(d)),
        digit_value(digit_char(d)) == d,
        digit_char(d) != '+',
        digit_char(d) != '.',
{
}

/// The decimal notation of `n` is a string of digits that denotes `n`.
pub proof fn lemma_decimal_value(n: nat)
    ensures
        decimal(n).len() > 0,
        all_digits(decimal(n)),
        decimal_value(decimal(n)) == n,
        decimal(n)[0] != '+',
        forall|i: int| 0 <= i < decimal(n).len() ==> #[trigger] decimal(n)[i] != '.',
    decreases n,
{
    if n < 10 {
        lemma_digit_char(n);
        assert(seq![digit_char(n)].drop_last() =~= Seq::<char>::empty());
        assert(decimal_value(Seq::<char>::empty()) == 0);
        assert(seq![digit_char(n)].last() == digit_char(n));
        assert(decimal_value(decimal(n)) == 0 * 10 + digit_value(digit_char(n)));
    } else {
        lemma_decimal_value(n / 10);
        lemma_digit_char(n % 10);
        let d = decimal(n / 10);
        assert(d.push(digit_char(n % 10)).drop_last() =~= d);
        assert(n == (n / 10) * 10 + n % 10);
        assert(decimal(n).last() == digit_char(n % 10));
        assert(decimal_value(decimal(n)) == decimal_value(d) * 10 + digit_value(
            digit_char(n % 10),
        ));
        assert(decimal_value(d) == n / 10);
        assert forall|i: int| 0 <= i < decimal(n).len() implies is_digit(#[trigger] decimal(n)[i])
            && decimal(n)[i] != '.' by {
            if i < d.len() {
                assert(decimal(n)[i] == d[i]);
            }
        }
    }
}

/// The digit character of a value below ten.
pub fn digit_str(d: u64) -> (s: &'static str)
    requires
        d < 10,
    ensures
        s@ == seq![digit_char(d as nat)],
{
    if d == 0 {
        proof {
            reveal_strlit("0");
        }
        "0"
    } else if d == 1 {
        proof {
            reveal_strlit("1");
        }
        "1"
    } else if d == 2 {
        proof {
            reveal_strlit("2");
        }
        "2"
    } else if d == 3 {
        proof {
            reveal_strlit("3");
        }
        "3"
    } else if d == 4 {
        proof {
            reveal_strlit("4");
        }
        "4"
    } else if d == 5 {
        proof {
            reveal_strlit("5");
        }
        "5"
    } else if d == 6 {
        proof {
            reveal_strlit("6");
        }
        "6"
    } else if d == 7 {
        proof {
            reveal_strlit("7");
        }
        "7"
    } else if d == 8 {
        proof {
            reveal_strlit("8");
        }
        "8"
    } else {
        proof {
            reveal_strlit("9");
        }
        "9"
    }
}

/// The decimal notation of a signed number: a minus sign before negative ones.
pub open spec fn signed_decimal(n: int) -> Seq<char> {
    if n < 0 {
        seq!['-'] + decimal((-n) as nat)
    } else {
        decimal(n as nat)
    }
}

/// Appends the decimal notation of the signed number `n` to `out`.
pub fn append_signed_decimal(out: &mut String, n: i64)
    ensures
        final(out)@ == old(out)@ + signed_decimal(n as int),
{
    if n < 0 {
        out.append("-");
        let magnitude: u64 = ((-(n + 1)) as u64) + 1;
        append_decimal(out, magnitude);
        proof {
            reveal_strlit("-");
            assert("-"@ =~= seq!['-']);
            assert(old(out)@ + "-"@ + decimal(magnitude as nat) =~= old(out)@ + (seq!['-']
                + decimal((-n) as nat)));
        }
    } else {
        append_decimal(out, n as u64);
    }
}

/// Appends the decimal notation of `n` to `out`.
pub fn append_decimal(out: &mut String, n: u64)
    ensures
        final(out)@ == old(out)@ + decimal(n as nat),
    decreases n,
{
    if n >= 10 {
        append_decimal(out, n / 10);
    }
    out.append(digit_str(n % 10));
    proof {
        if n >= 10 {
            assert(decimal(n as nat) == decimal((n / 10) as nat).push(digit_char((n % 10) as nat)));
        }
    }
    assert(final(out)@ =~= old(out)@ + decimal(n as nat));
}

/// Parses `v[start..end]` as `u16::from_str` does.
pub fn parse_u16_range(v: &Vec<char>, start: usize, end: usize) -> (r: Option<u16>)
    requires
        start <= end <= v@.len(),
    ensures
        r == parse_u16(v@.subrange(start as int, end as int)),
{
    let ghost t = v@.subrange(start as int, end as int);
    let mut i = start;
    if start < end && v[start] == '+' {
        i = start + 1;
    }
    let ghost d = v@.subrange(i as int, end as int);
    proof {
        if start < end && v@[start as int] == '+' {
            assert(d =~= t.drop_first());
        } else {
            assert(d =~= t);
        }
    }
    if i == end {
        return None;
    }
    let mut value: u32 = 0;
    let mut k = i;
    while k < end
        invariant
            start <= i <= k <= end <= v@.len(),
            i < end,
            d == v@.subrange(i as int, end as int),
            t == v@.subrange(start as int, end as int),
            d == (if start < end && v@[start as int] == '+' {
                t.drop_first()
            } else {
                t
            }),
            all_digits(v@.subrange(i as int, k as int)),
            value == decimal_value(v@.subrange(i as int, k as int)),
            value <= u16::MAX,
        decreases end - k,
    {
        let c = v[k];
        if !('0' <= c && c <= '9') {
            proof {
                assert(d[k - i] == c);
            }
            return None;
        }
        let digit = (c as u32) - ('0' as u32);
        let next = value * 10 + digit;
        proof {
            let p = v@.subrange(i as int, k + 1);
            assert(p.drop_last() =~= v@.subrange(i as int, k as int));
            assert(p.last() == c);
        }
        if next > 65535 {
            proof {
                lemma_decimal_value_prefix_bound(d, (k + 1 - i) as int);
                assert(d.subrange(0, k + 1 - i) =~= v@.subrange(i as int, k + 1));
            }
            return None;
        }
        value = next;
        k = k + 1;
    }
    proof {
        assert(v@.subrange(i as int, end as int) =~= d);
    }
    Some(value as u16)
}

/// A prefix of a digit string never denotes more than the whole string.
pub proof fn lemma_decimal_value_prefix_bound(d: Seq<char>, k: int)
    requires
        0 <= k <= d.len(),
    ensures
        all_digits(d) ==> decimal_value(d.subrange(0, k)) <= decimal_value(d),
    decreases d.len() - k,
{
    if k < d.len() && all_digits(d) {
        let p = d.subrange(0, k + 1);
        assert(p.drop_last() =~= d.subrange(0, k));
        lemma_decimal_value_prefix_bound(d, k + 1);
    } else if k == d.len() {
        assert(d.subrange(0, k) =~= d);
    }
}

} // verus!

verus! {

/// `a` followed by `b`.
pub fn concat(a: &str, b: &str) -> (r: String)
    ensures
        r@ == a@ + b@,
{
    let mut r = a.to_owned();
    r.append(b);
    r
}

/// Whether two strings hold the same characters.
pub fn str_eq(a: &str, b: &str) -> (r: bool)
    ensures
        r == (a@ == b@),
{
    a.to_owned() == b.to_owned()
}

} // verus!

verus! {

/// The pieces of `s` from `start` on, split at each `c` from position `i` on.
pub open spec fn split_char_from(s: Seq<char>, c: char, i: int, start: int) -> Seq<Seq<char>>
    decreases s.len() - i,
{
    if i >= s.len() {
        seq![s.subrange(start, s.len() as int)]
    } else if s[i] == c {
        seq![s.subrange(start, i)] + split_char_from(s, c, i + 1, i + 1)
    } else {
        split_char_from(s, c, i + 1, start)
    }
}

/// The pieces of `s` between the occurrences of `c`, as `str::split(c)` yields them.
pub open spec fn split_char(s: Seq<char>, c: char) -> Seq<Seq<char>> {
    split_char_from(s, c, 0, 0)
}

/// The bounds of the pieces of `v` between the occurrences of `c`.
pub fn split_char_bounds(v: &Vec<char>, c: char) -> (r: Vec<(usize, usize)>)
    ensures
        r@.len() == split_char(v@, c).len(),
        forall|k: int|
            0 <= k < r@.len() ==> #[trigger] r@[k].0 <= r@[k].1 <= v@.len() && v@.subrange(
                r@[k].0 as int,
                r@[k].1 as int,
            ) == split_char(v@, c)[k],
{
    let ghost s = v@;
    let mut r: Vec<(usize, usize)> = Vec::new();
    let ghost mut done: Seq<Seq<char>> = Seq::empty();
    let mut start: usize = 0;
    let mut i: usize = 0;
    while i < v.len()
        invariant
            s == v@,
            start <= i <= s.len(),
            r@.len() == done.len(),
            forall|k: int|
                0 <= k < r@.len() ==> #[trigger] r@[k].0 <= r@[k].1 <= s.len() && s.subrange(
                    r@[k].0 as int,
                    r@[k].1 as int,
                ) == done[k],
            split_char(s, c) == done + split_char_from(s, c, i as int, start as int),
        decreases s.len() - i,
    {
        if v[i] == c {
            proof {
                let piece = s.subrange(start as int, i as int);
                assert(done + split_char_from(s, c, i as int, start as int) =~= done.push(piece)
                    + split_char_from(s, c, i + 1, i + 1));
                done = done.push(piece);
            }
            r.push((start, i));
            i = i + 1;
            start = i;
        } else {
            proof {
                assert(split_char_from(s, c, i as int, start as int) == split_char_from(
                    s,
                    c,
                    i + 1,
                    start as int,
                ));
            }
            i = i + 1;
        }
    }
    proof {
        let piece = s.subrange(start as int, s.len() as int);
        assert(done + split_char_from(s, c, i as int, start as int) =~= done.push(piece));
        done = done.push(piece);
    }
    r.push((start, i));
    r
}

/// The scan for `c` runs through a stretch without it up to the one at `k`.
pub proof fn lemma_split_char_to_sep(t: Seq<char>, c: char, i: int, start: int, k: int)
    requires
        0 <= start <= i <= k < t.len(),
        t[k] == c,
        forall|j: int| i <= j < k ==> #[trigger] t[j] != c,
    ensures
        split_char_from(t, c, i, start) == seq![t.subrange(start, k)] + split_char_from(
            t,
            c,
            k + 1,
            k + 1,
        ),
    decreases k - i,
{
    if i < k {
        lemma_split_char_to_sep(t, c, i + 1, start, k);
    }
}

/// The scan for `c` runs to the end of a text without it.
pub proof fn lemma_split_char_to_end(t: Seq<char>, c: char, i: int, start: int)
    requires
        0 <= start <= i <= t.len(),
        forall|j: int| i <= j < t.len() ==> #[trigger] t[j] != c,
    ensures
        split_char_from(t, c, i, start) == seq![t.subrange(start, t.len() as int)],
    decreases t.len() - i,
{
    if i < t.len() {
        lemma_split_char_to_end(t, c, i + 1, start);
    }
}

} // verus!

verus! {

/// The characters of an optional string.
pub open spec fn opt_chars(o: Option<String>) -> Option<Seq<char>> {
    match o {
        Some(s) => Some(s@),
        None => None,
    }
}

/// A copy of an optional string.
pub fn clone_opt(o: &Option<String>) -> (r: Option<String>)
    ensures
        opt_chars(r) == opt_chars(*o),
{
    match o {
        Some(s) => Some(s.clone()),
        None => None,
    }
}

} // verus!

verus! {

pub open spec fn starts_with(s: Seq<char>, prefix: Seq<char>) -> bool {
    prefix.len() <= s.len() && s.subrange(0, prefix.len() as int) == prefix
}

pub open spec fn ends_with(s: Seq<char>, suffix: Seq<char>) -> bool {
    suffix.len() <= s.len() && s.subrange(s.len() - suffix.len(), s.len() as int) == suffix
}

/// Whether `v[start..end]` begins with `prefix`.
pub fn range_starts_with(v: &Vec<char>, start: usize, end: usize, prefix: &Vec<char>) -> (b: bool)
    requires
        start <= end <= v@.len(),
    ensures
        b == starts_with(v@.subrange(start as int, end as int), prefix@),
{
    if prefix.len() > end - start {
        return false;
    }
    let mut k: usize = 0;
    while k < prefix.len()
        invariant
            k <= prefix@.len(),
            prefix@.len() <= end - start,
            start <= end <= v@.len(),
            forall|j: int| 0 <= j < k ==> v@[start + j] == prefix@[j],
        decreases prefix@.len() - k,
    {
        if v[start + k] != prefix[k] {
            assert(v@.subrange(start as int, end as int).subrange(0, prefix@.len() as int)[k as int]
                != prefix@[k as int]);
            return false;
        }
        k = k + 1;
    }
    assert(v@.subrange(start as int, end as int).subrange(0, prefix@.len() as int) =~= prefix@);
    true
}

/// Whether `v[start..end]` is exactly `line`.
pub fn range_equals(v: &Vec<char>, start: usize, end: usize, line: &Vec<char>) -> (b: bool)
    requires
        start <= end <= v@.len(),
    ensures
        b == (v@.subrange(start as int, end as int) == line@),
{
    if end - start != line.len() {
        return false;
    }
    let b = range_starts_with(v, start, end, line);
    proof {
        assert(v@.subrange(start as int, end as int).subrange(0, line@.len() as int)
            =~= v@.subrange(start as int, end as int));
    }
    b
}

} // verus!
