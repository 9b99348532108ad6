//! Conversions between strings and character vectors.
use vstd::prelude::*;

verus! {

/// The characters of `s`, in order.
pub fn chars_of(s: &str) -> (r: Vec<char>)
    ensures
        r@ == s@,
{
    let n = s.unicode_len();
    let mut r: Vec<char> = Vec::new();
    let mut i: usize = 0;
    while i < n
        invariant
            n == s@.len(),
            i <= n,
            r@ == s@.subrange(0, i as int),
        decreases n - i,
    {
        r.push(s.get_char(i));
        i = i + 1;
    }
    r
}

/// Relies on `FromIterator<char>` for `String`: the string of these characters.
#[verifier::external_body]
pub(crate) fn string_of(chars: &Vec<char>) -> (r: String)
    ensures
        r@ == chars@,
{
    chars.iter().collect()
}

/// `parts` joined with `sep` between neighbours.
pub open spec fn join(parts: Seq<Seq<char>>, sep: Seq<char>) -> Seq<char>
    decreases parts.len(),
{
    if parts.len() == 0 {
        Seq::empty()
    } else if parts.len() == 1 {
        parts[0]
    } else {
        join(parts.drop_last(), sep) + sep + parts.last()
    }
}

/// The views of a list of strings.
pub open spec fn views(parts: Seq<&str>) -> Seq<Seq<char>> {
    parts.map_values(|p: &str| p@)
}

/// Joins `parts` with `sep` between neighbours.
pub fn join_strs(parts: &Vec<&str>, sep: &str) -> (r: String)
    ensures
        r@ == join(views(parts@), sep@),
{
    let mut out = String::new();
    let mut i: usize = 0;
    while i < parts.len()
        invariant
            i <= parts@.len(),
            out@ == join(views(parts@.subrange(0, i as int)), sep@),
        decreases parts@.len() - i,
    {
        let ghost before = views(parts@.subrange(0, i as int));
        let ghost after = views(parts@.subrange(0, i + 1));
        assert(after.drop_last() =~= before);
        assert(after.last() == parts@[i as int]@);
        if i > 0 {
            out.append(sep);
        }
        out.append(parts[i]);
        proof {
            if i == 0 {
                assert(out@ =~= after[0]);
            } else {
                assert(out@ =~= join(before, sep@) + sep@ + after.last());
            }
        }
        i = i + 1;
    }
    assert(parts@.subrange(0, parts@.len() as int) == parts@);
    out
}

/// Decimal digits.
pub open spec fn dec_digits() -> Seq<char> {
    seq!['0', '1', '2', '3', '4', '5', '6', '7', '8', '9']
}

/// `n` in decimal, without leading zeros.
pub open spec fn dec_text(n: nat) -> Seq<char>
    decreases n,
{
    if n < 10 {
        seq![dec_digits()[n as int]]
    } else {
        dec_text(n / 10).push(dec_digits()[(n % 10) as int])
    }
}

fn push_dec(n: u64, out: &mut Vec<char>)
    ensures
        final(out)@ == old(out)@ + dec_text(n as nat),
    decreases n,
{
    let digits = vec!['0', '1', '2', '3', '4', '5', '6', '7', '8', '9'];
    assert(digits@ == dec_digits());
    if n >= 10 {
        push_dec(n / 10, out);
    }
    out.push(digits[(n % 10) as usize]);
    assert(out@ =~= old(out)@ + dec_text(n as nat));
}

/// `n` in decimal.
pub fn decimal(n: u64) -> (r: String)
    ensures
        r@ == dec_text(n as nat),
{
    let mut out: Vec<char> = Vec::new();
    push_dec(n, &mut out);
    assert(out@ =~= dec_text(n as nat));
    string_of(&out)
}

/// Whether `c` occurs in `s`.
pub fn contains_char(s: &str, c: char) -> (r: bool)
    ensures
        r == s@.contains(c),
{
    let chars = chars_of(s);
    let mut i: usize = 0;
    while i < chars.len()
        invariant
            chars@ == s@,
            i <= chars@.len(),
            forall|j: int| 0 <= j < i ==> chars@[j] != c,
        decreases chars@.len() - i,
    {
        if chars[i] == c {
            return true;
        }
        i = i + 1;
    }
    false
}

/// The value of a decimal digit.
pub open spec fn digit_of(c: char) -> Option<int> {
    if '0' <= c <= '9' {
        Some(c as int - '0' as int)
    } else {
        None
    }
}

/// The number that a string of decimal digits writes (0 for no digits).
pub open spec fn digits_number(s: Seq<char>) -> Option<int>
    decreases s.len(),
{
    if s.len() == 0 {
        Some(0)
    } else {
        match (digits_number(s.drop_last()), digit_of(s.last())) {
            (Some(v), Some(d)) => Some(v * 10 + d),
            _ => None,
        }
    }
}

/// The integer `s` writes: an optional sign, then at least one decimal digit.
pub open spec fn int_value(s: Seq<char>) -> Option<int> {
    let (negative, digits) = if s.len() > 0 && s[0] == '-' {
        (true, s.drop_first())
    } else if s.len() > 0 && s[0] == '+' {
        (false, s.drop_first())
    } else {
        (false, s)
    };
    if digits.len() == 0 {
        None
    } else {
        match digits_number(digits) {
            Some(v) => Some(if negative { -v } else { v }),
            None => None,
        }
    }
}

proof fn lemma_digits_prefix(s: Seq<char>, i: int)
    requires
        0 <= i <= s.len(),
        digits_number(s) is Some,
    ensures
        digits_number(s.subrange(0, i)) is Some,
        0 <= digits_number(s.subrange(0, i))->0 <= digits_number(s)->0,
    decreases s.len(),
{
    if i == s.len() {
        assert(s.subrange(0, i) == s);
        lemma_digits_nonneg(s);
    } else {
        let init = s.drop_last();
        lemma_digits_prefix(init, i);
        assert(init.subrange(0, i) == s.subrange(0, i));
        lemma_digits_nonneg(init);
    }
}

proof fn lemma_digits_nonneg(s: Seq<char>)
    requires
        digits_number(s) is Some,
    ensures
        digits_number(s)->0 >= 0,
    decreases s.len(),
{
    if s.len() > 0 {
        lemma_digits_nonneg(s.drop_last());
    }
}

/// The integer that `s` writes (see `int_value`) when it lies in
/// `[lo, hi]`, as `str::parse` reads integers of that range.
pub fn parse_int_in(s: &str, lo: i64, hi: i64) -> (r: Option<i64>)
    requires
        -i64::MAX <= lo,
    ensures
        match int_value(s@) {
            Some(v) => if lo <= v <= hi {
                r == Some(v as i64)
            } else {
                r is None
            },
            None => r is None,
        },
{
    let chars = chars_of(s);
    let n = chars.len();
    let mut start: usize = 0;
    let mut negative = false;
    if n > 0 && chars[0] == '-' {
        negative = true;
        start = 1;
    } else if n > 0 && chars[0] == '+' {
        start = 1;
    }
    let ghost digits = chars@.subrange(start as int, n as int);
    assert(n > 0 && chars@[0] == '-' ==> digits =~= s@.drop_first());
    assert(n > 0 && chars@[0] == '+' ==> digits =~= s@.drop_first());
    assert(!(n > 0 && (chars@[0] == '-' || chars@[0] == '+')) ==> digits =~= s@);
    if start == n {
        return None;
    }
    assert(int_value(s@) == match digits_number(digits) {
        Some(v) => Some(if negative { -v } else { v }),
        None => None,
    });
    let mut num: i128 = 0;
    let mut i: usize = start;
    while i < n
        invariant
            chars@ == s@,
            n == chars@.len(),
            start <= i <= n,
            digits == chars@.subrange(start as int, n as int),
            -i64::MAX <= lo,
            int_value(s@) == match digits_number(digits) {
                Some(v) => Some(if negative { -v } else { v }),
                None => None,
            },
            digits_number(chars@.subrange(start as int, i as int)) == Some(num as int),
            0 <= num <= i64::MAX,
        decreases n - i,
    {
        let ghost prefix = chars@.subrange(start as int, i as int);
        let ghost next_prefix = chars@.subrange(start as int, i + 1);
        assert(next_prefix.drop_last() == prefix);
        assert(next_prefix.last() == chars@[i as int]);
        let c = chars[i];
        if c < '0' || c > '9' {
            assert(digit_of(c) is None);
            assert(digits_number(next_prefix) is None);
            proof {
                if digits_number(digits) is Some {
                    assert(digits.subrange(0, i + 1 - start) == next_prefix);
                    lemma_digits_prefix(digits, i + 1 - start);
                }
            }
            return None;
        }
        let d = (c as u32 - '0' as u32) as i128;
        let next = num * 10 + d;
        assert(digit_of(c) == Some(d as int));
        assert(digits_number(next_prefix) == Some(next as int));
        if next > i64::MAX as i128 {
            proof {
                if digits_number(digits) is Some {
                    assert(digits.subrange(0, i + 1 - start) == next_prefix);
                    lemma_digits_prefix(digits, i + 1 - start);
                }
            }
            return None;
        }
        num = next;
        i = i + 1;
    }
    assert(chars@.subrange(start as int, n as int) == digits);
    let v: i64 = if negative {
        -(num as i64)
    } else {
        num as i64
    };
    if lo <= v && v <= hi {
        Some(v)
    } else {
        None
    }
}

/// The parts of `s` between `sep` separators (an empty string has one empty
/// part).
pub open spec fn split_by(s: Seq<char>, sep: char) -> Seq<Seq<char>>
    decreases s.len(),
{
    if s.len() == 0 {
        seq![Seq::<char>::empty()]
    } else {
        let init = split_by(s.drop_last(), sep);
        if s.last() == sep {
            init.push(Seq::<char>::empty())
        } else {
            init.update(init.len() - 1, init.last().push(s.last()))
        }
    }
}

pub proof fn lemma_split_nonempty(s: Seq<char>, sep: char)
    ensures
        split_by(s, sep).len() >= 1,
    decreases s.len(),
{
    if s.len() > 0 {
        lemma_split_nonempty(s.drop_last(), sep);
    }
}

/// The views of a list of strings.
pub open spec fn string_views(v: Seq<String>) -> Seq<Seq<char>> {
    v.map_values(|x: String| x@)
}

/// The parts of `s` between `sep` separators.
pub fn split_text(s: &str, sep: char) -> (r: Vec<String>)
    ensures
        string_views(r@) == split_by(s@, sep),
{
    let chars = chars_of(s);
    let mut done: Vec<String> = Vec::new();
    let mut cur: Vec<char> = Vec::new();
    let mut i: usize = 0;
    while i < chars.len()
        invariant
            chars@ == s@,
            i <= chars@.len(),
            split_by(chars@.subrange(0, i as int), sep).len() >= 1,
            string_views(done@).push(cur@) == split_by(chars@.subrange(0, i as int), sep),
        decreases chars@.len() - i,
    {
        let ghost before = chars@.subrange(0, i as int);
        assert(chars@.subrange(0, i + 1).drop_last() == before);
        let c = chars[i];
        if c == sep {
            let part = string_of(&cur);
            done.push(part);
            cur = Vec::new();
            assert(string_views(done@).push(cur@) =~= split_by(before, sep).push(Seq::<char>::empty()));
        } else {
            cur.push(c);
            assert(string_views(done@).push(cur@) =~= split_by(before, sep).update(
                split_by(before, sep).len() - 1,
                split_by(before, sep).last().push(c),
            ));
        }
        i = i + 1;
        proof {
            lemma_split_nonempty(chars@.subrange(0, i as int), sep);
        }
    }
    assert(chars@.subrange(0, chars@.len() as int) == chars@);
    let last = string_of(&cur);
    done.push(last);
    assert(string_views(done@) =~= split_by(s@, sep));
    done
}

} // verus!
