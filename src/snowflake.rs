//! Time-ordered 64-bit ids (41 bits of milliseconds, 10 of worker, 12 of
//! sequence) and their short text forms in base 33 and base 57.
use crate::text::{chars_of, string_of};
use vstd::arithmetic::div_mod::{lemma_div_decreases, lemma_fundamental_div_mod};
use vstd::prelude::*;

verus! {

pub const WORKER_ID_BITS: i64 = 10;
pub const SEQUENCE_BITS: i64 = 12;
pub const TIMESTAMP_BITS: i64 = 41;
pub const MAX_WORKER_ID: i64 = 1023;
pub const WORKER_ID_SHIFT: i64 = 12;
pub const TIMESTAMP_LEFT_SHIFT: i64 = 22;
pub const SEQUENCE_MASK: i64 = 4095;
/// Start of the id clock, in Unix milliseconds.
pub const EPOCH: i64 = 1_730_203_481_000;

/// The base-33 digits (no `0`, `1`, `l`, and no upper case).
pub open spec fn alphabet33() -> Seq<char> {
    seq![
        '2', '3', '4', '5', '6', '7', '8', '9', 'a', 'b', 'c', 'd', 'e', 'f', 'g', 'h',
        'i', 'j', 'k', 'm', 'n', 'o', 'p', 'q', 'r', 's', 't', 'u', 'v', 'w', 'x', 'y', 'z',
    ]
}

/// The base-57 digits (no `0`, `1`, `I`, `O`, `l`).
pub open spec fn alphabet57() -> Seq<char> {
    seq![
        '2', '3', '4', '5', '6', '7', '8', '9', 'A', 'B', 'C', 'D', 'E', 'F', 'G', 'H',
        'J', 'K', 'L', 'M', 'N', 'P', 'Q', 'R', 'S', 'T', 'U', 'V', 'W', 'X', 'Y', 'Z',
        'a', 'b', 'c', 'd', 'e', 'f', 'g', 'h', 'i', 'j', 'k', 'm', 'n', 'o', 'p', 'q',
        'r', 's', 't', 'u', 'v', 'w', 'x', 'y', 'z',
    ]
}

fn alphabet33_vec() -> (r: Vec<char>)
    ensures
        r@ == alphabet33(),
{
    let r = vec![
        '2', '3', '4', '5', '6', '7', '8', '9', 'a', 'b', 'c', 'd', 'e', 'f', 'g', 'h',
        'i', 'j', 'k', 'm', 'n', 'o', 'p', 'q', 'r', 's', 't', 'u', 'v', 'w', 'x', 'y', 'z',
    ];
    assert(r@ == alphabet33());
    r
}

fn alphabet57_vec() -> (r: Vec<char>)
    ensures
        r@ == alphabet57(),
{
    let r = vec![
        '2', '3', '4', '5', '6', '7', '8', '9', 'A', 'B', 'C', 'D', 'E', 'F', 'G', 'H',
        'J', 'K', 'L', 'M', 'N', 'P', 'Q', 'R', 'S', 'T', 'U', 'V', 'W', 'X', 'Y', 'Z',
        'a', 'b', 'c', 'd', 'e', 'f', 'g', 'h', 'i', 'j', 'k', 'm', 'n', 'o', 'p', 'q',
        'r', 's', 't', 'u', 'v', 'w', 'x', 'y', 'z',
    ];
    assert(r@ == alphabet57());
    r
}

/// The position of `c` in `alpha`, if it is there (the first one).
#[verifier::opaque]
pub open spec fn index_in(alpha: Seq<char>, c: char) -> Option<int> {
    if exists|i: int| 0 <= i < alpha.len() && alpha[i] == c {
        Some(choose|i: int| 0 <= i < alpha.len() && alpha[i] == c && forall|j: int| 0 <= j < i ==> alpha[j] != c)
    } else {
        None
    }
}

/// The number that `s` writes in the positional system of `alpha`, if every
/// character is a digit.
pub open spec fn digits_value(s: Seq<char>, alpha: Seq<char>) -> Option<int>
    decreases s.len(),
{
    if s.len() == 0 {
        Some(0)
    } else {
        match (digits_value(s.drop_last(), alpha), index_in(alpha, s.last())) {
            (Some(v), Some(d)) => Some(v * alpha.len() + d),
            _ => None,
        }
    }
}

/// `n` written in the positional system of `alpha`, most significant digit
/// first; zero is the empty text.
pub open spec fn base_text(n: nat, alpha: Seq<char>) -> Seq<char>
    decreases n
    via base_text_decreases
{
    if n == 0 || alpha.len() < 2 {
        Seq::empty()
    } else {
        base_text(n / alpha.len(), alpha).push(alpha[(n % alpha.len()) as int])
    }
}

#[via_fn]
proof fn base_text_decreases(n: nat, alpha: Seq<char>) {
    if !(n == 0 || alpha.len() < 2) {
        lemma_div_decreases(n as int, alpha.len() as int);
    }
}

proof fn lemma_digit_nonneg(alpha: Seq<char>, c: char)
    ensures
        index_in(alpha, c) matches Some(d) ==> 0 <= d < alpha.len(),
{
    reveal(index_in);
    if exists|i: int| 0 <= i < alpha.len() && alpha[i] == c {
        let w = choose|i: int| 0 <= i < alpha.len() && alpha[i] == c;
        lemma_first_occurrence(alpha, c, w);
    }
}

proof fn lemma_first_occurrence(alpha: Seq<char>, c: char, w: int)
    requires
        0 <= w < alpha.len(),
        alpha[w] == c,
    ensures
        exists|i: int| 0 <= i < alpha.len() && alpha[i] == c && forall|j: int| 0 <= j < i ==> alpha[j] != c,
    decreases w,
{
    if exists|j: int| 0 <= j < w && alpha[j] == c {
        let j = choose|j: int| 0 <= j < w && alpha[j] == c;
        lemma_first_occurrence(alpha, c, j);
    } else {
        assert(forall|j: int| 0 <= j < w ==> alpha[j] != c);
    }
}

proof fn lemma_index_in_first(alpha: Seq<char>, c: char, w: int)
    requires
        0 <= w < alpha.len(),
        alpha[w] == c,
        forall|j: int| 0 <= j < w ==> alpha[j] != c,
    ensures
        index_in(alpha, c) == Some(w),
{
    reveal(index_in);
    let i = choose|i: int| 0 <= i < alpha.len() && alpha[i] == c && forall|j: int| 0 <= j < i ==> alpha[j] != c;
    if i < w {
        assert(alpha[i] != c);
    }
    if i > w {
        assert(alpha[w] != c);
    }
}

fn position(alpha: &Vec<char>, c: char) -> (r: Option<usize>)
    ensures
        match index_in(alpha@, c) {
            Some(i) => r matches Some(p) && p as int == i,
            None => r is None,
        },
{
    let mut i: usize = 0;
    while i < alpha.len()
        invariant
            i <= alpha@.len(),
            forall|j: int| 0 <= j < i ==> alpha@[j] != c,
        decreases alpha@.len() - i,
    {
        if alpha[i] == c {
            proof {
                lemma_index_in_first(alpha@, c, i as int);
            }
            return Some(i);
        }
        i = i + 1;
    }
    proof {
        reveal(index_in);
    }
    None
}

proof fn lemma_value_prefix(s: Seq<char>, alpha: Seq<char>, i: int)
    requires
        0 <= i <= s.len(),
        alpha.len() > 0,
        digits_value(s, alpha) is Some,
    ensures
        digits_value(s.subrange(0, i), alpha) is Some,
        digits_value(s.subrange(0, i), alpha)->0 <= digits_value(s, alpha)->0,
        digits_value(s.subrange(0, i), alpha)->0 >= 0,
    decreases s.len(),
{
    lemma_value_nonneg(s, alpha);
    if i == s.len() {
        assert(s.subrange(0, i) == s);
    } else {
        let init = s.drop_last();
        lemma_value_prefix(init, alpha, i);
        assert(init.subrange(0, i) == s.subrange(0, i));
        lemma_value_nonneg(init, alpha);
        lemma_digit_nonneg(alpha, s.last());
        let v = digits_value(init, alpha)->0;
        let d = index_in(alpha, s.last())->0;
        assert(digits_value(s, alpha)->0 == v * alpha.len() + d);
        assert(v * alpha.len() + d >= v) by (nonlinear_arith)
            requires
                v >= 0,
                d >= 0,
                alpha.len() > 0,
        ;
    }
}

proof fn lemma_value_nonneg(s: Seq<char>, alpha: Seq<char>)
    requires
        alpha.len() > 0,
        digits_value(s, alpha) is Some,
    ensures
        digits_value(s, alpha)->0 >= 0,
    decreases s.len(),
{
    if s.len() > 0 {
        lemma_value_nonneg(s.drop_last(), alpha);
        lemma_digit_nonneg(alpha, s.last());
        let v = digits_value(s.drop_last(), alpha)->0;
        assert(v * alpha.len() >= 0) by (nonlinear_arith)
            requires
                v >= 0,
                alpha.len() > 0,
        ;
    }
}

/// The number `s` writes with the digits of `alpha`; none when a character
/// is not a digit or the number does not fit an `i64`.
fn parse_in(s: &str, alpha: &Vec<char>) -> (r: Option<i64>)
    requires
        2 <= alpha@.len() <= 64,
    ensures
        match digits_value(s@, alpha@) {
            Some(v) => if v <= i64::MAX {
                r == Some(v as i64)
            } else {
                r is None
            },
            None => r is None,
        },
{
    let chars = chars_of(s);
    let base = alpha.len() as i128;
    let mut num: i128 = 0;
    let mut i: usize = 0;
    while i < chars.len()
        invariant
            chars@ == s@,
            i <= chars@.len(),
            base == alpha@.len(),
            2 <= base <= 64,
            digits_value(chars@.subrange(0, i as int), alpha@) == Some(num as int),
            0 <= num <= i64::MAX,
        decreases chars@.len() - i,
    {
        let ghost prefix = chars@.subrange(0, i as int);
        assert(chars@.subrange(0, i + 1).drop_last() == prefix);
        assert(chars@.subrange(0, i + 1).last() == chars@[i as int]);
        match position(alpha, chars[i]) {
            Some(d) => {
                let ghost t = chars@.subrange(0, i + 1);
                assert(t.len() > 0);
                assert(t.drop_last() == prefix);
                assert(t.last() == chars@[i as int]);
                assert(index_in(alpha@, t.last()) == Some(d as int));
                assert(digits_value(t, alpha@) == Some(num * base + d));
                assert(num * base <= i64::MAX * 64) by (nonlinear_arith)
                    requires
                        0 <= num <= i64::MAX,
                        base <= 64,
                ;
                let next = num * base + d as i128;
                if next > i64::MAX as i128 {
                    proof {
                        if digits_value(s@, alpha@) is Some {
                            lemma_value_prefix(s@, alpha@, i + 1);
                        }
                    }
                    return None;
                }
                num = next;
            },
            None => {
                proof {
                    if digits_value(s@, alpha@) is Some {
                        lemma_value_prefix(s@, alpha@, i + 1);
                    }
                }
                return None;
            },
        }
        i = i + 1;
    }
    assert(chars@.subrange(0, chars@.len() as int) == chars@);
    Some(num as i64)
}

/// Reads a base-33 id; none when a character is not a digit or the value
/// does not fit.
pub fn parse_id(s: &str) -> (r: Option<i64>)
    ensures
        match digits_value(s@, alphabet33()) {
            Some(v) => if v <= i64::MAX {
                r == Some(v as i64)
            } else {
                r is None
            },
            None => r is None,
        },
{
    let alpha = alphabet33_vec();
    parse_in(s, &alpha)
}

/// Reads a base-57 id; none when a character is not a digit or the value
/// does not fit.
pub fn parse_id_base57(s: &str) -> (r: Option<i64>)
    ensures
        match digits_value(s@, alphabet57()) {
            Some(v) => if v <= i64::MAX {
                r == Some(v as i64)
            } else {
                r is None
            },
            None => r is None,
        },
{
    let alpha = alphabet57_vec();
    parse_in(s, &alpha)
}

fn push_digits(n: u64, alpha: &Vec<char>, out: &mut Vec<char>)
    requires
        2 <= alpha@.len() <= 64,
    ensures
        final(out)@ == old(out)@ + base_text(n as nat, alpha@),
    decreases n,
{
    if n == 0 {
        assert(old(out)@ + base_text(0, alpha@) =~= old(out)@);
        return;
    }
    let base = alpha.len() as u64;
    proof {
        lemma_div_decreases(n as int, base as int);
    }
    push_digits(n / base, alpha, out);
    out.push(alpha[(n % base) as usize]);
    assert(out@ =~= old(out)@ + base_text(n as nat, alpha@));
}

fn text_in(id: i64, alpha: &Vec<char>) -> (r: String)
    requires
        2 <= alpha@.len() <= 64,
    ensures
        r@ == if id > 0 {
            base_text(id as nat, alpha@)
        } else {
            Seq::empty()
        },
{
    let mut out: Vec<char> = Vec::new();
    if id > 0 {
        push_digits(id as u64, alpha, &mut out);
        assert(out@ =~= base_text(id as nat, alpha@));
    }
    string_of(&out)
}

/// The base-33 text of an id; empty for ids that are not positive.
pub fn to_str(id: i64) -> (r: String)
    ensures
        r@ == if id > 0 {
            base_text(id as nat, alphabet33())
        } else {
            Seq::empty()
        },
{
    let alpha = alphabet33_vec();
    text_in(id, &alpha)
}

/// The base-57 text of an id; empty for ids that are not positive.
pub fn to_str_base57(id: i64) -> (r: String)
    ensures
        r@ == if id > 0 {
            base_text(id as nat, alphabet57())
        } else {
            Seq::empty()
        },
{
    let alpha = alphabet57_vec();
    text_in(id, &alpha)
}

/// `x` to the power `y`.
pub open spec fn pow_spec(x: int, y: nat) -> int
    decreases y,
{
    if y == 0 {
        1
    } else {
        x * pow_spec(x, (y - 1) as nat)
    }
}

/// `x` to the power `y`, for results that fit an `i64`.
pub fn pow(x: i64, y: i64) -> (r: i64)
    requires
        0 <= y,
        forall|k: nat| k <= y ==> i64::MIN <= #[trigger] pow_spec(x as int, k) <= i64::MAX,
    ensures
        r == pow_spec(x as int, y as nat),
    decreases y,
{
    if y == 0 {
        1
    } else {
        let p = pow(x, y - 1);
        assert(pow_spec(x as int, y as nat) == x * pow_spec(x as int, (y - 1) as nat));
        x * p
    }
}

/// The low `n` bits of `val`, moved up by `shift` bits.
pub open spec fn field(val: i64, n: i64, shift: i64) -> int {
    (val & ((pow_spec(2, n as nat) - 1) as i64)) * pow_spec(2, shift as nat)
}

proof fn lemma_pow2_bounds(n: nat)
    ensures
        forall|k: nat| k <= n ==> 1 <= #[trigger] pow_spec(2, k) <= pow_spec(2, n),
    decreases n,
{
    if n > 0 {
        lemma_pow2_bounds((n - 1) as nat);
        assert(pow_spec(2, n) == 2 * pow_spec(2, (n - 1) as nat));
        assert forall|k: nat| k <= n implies 1 <= #[trigger] pow_spec(2, k) <= pow_spec(2, n) by {
            if k < n {
                assert(pow_spec(2, k) <= pow_spec(2, (n - 1) as nat));
            }
        }
    }
}

proof fn lemma_pow2_add(a: nat, b: nat)
    ensures
        pow_spec(2, a + b) == pow_spec(2, a) * pow_spec(2, b),
    decreases a,
{
    if a > 0 {
        lemma_pow2_add((a - 1) as nat, b);
        assert(pow_spec(2, a + b) == 2 * pow_spec(2, (a - 1 + b) as nat));
        assert(2 * (pow_spec(2, (a - 1) as nat) * pow_spec(2, b)) == (2 * pow_spec(2, (a - 1) as nat)) * pow_spec(
            2,
            b,
        )) by (nonlinear_arith);
    }
}

proof fn lemma_pow2_63()
    ensures
        pow_spec(2, 63) == 0x8000_0000_0000_0000,
{
    reveal_with_fuel(pow_spec, 64);
}

/// The low `n` bits of `val`, moved up by `shift` bits.
pub fn _v(val: i64, n: i64, shift: i64) -> (r: i64)
    requires
        0 <= n <= 62,
        0 <= shift <= 62,
        n + shift <= 63,
    ensures
        r == field(val, n, shift),
{
    proof {
        lemma_pow2_bounds(63);
        lemma_pow2_63();
        lemma_pow2_bounds(62);
        assert(pow_spec(2, 63) == 2 * pow_spec(2, 62));
        lemma_pow2_add(n as nat, shift as nat);
    }
    let mask = pow(2, n) - 1;
    let low = val & mask;
    assert(forall|x: i64, m: i64| m >= 0 ==> 0 <= #[trigger] (x & m) <= m) by (bit_vector);
    let scale = pow(2, shift);
    assert(low * scale <= mask * scale) by (nonlinear_arith)
        requires
            0 <= low <= mask,
            scale >= 1,
    ;
    assert(mask * scale == pow_spec(2, (n + shift) as nat) - scale) by (nonlinear_arith)
        requires
            mask == pow_spec(2, n as nat) - 1,
            scale == pow_spec(2, shift as nat),
            pow_spec(2, (n + shift) as nat) == pow_spec(2, n as nat) * pow_spec(2, shift as nat),
    ;
    assert(0 <= low * scale) by (nonlinear_arith)
        requires
            0 <= low,
            scale >= 1,
    ;
    low * scale
}

/// The id for `timestamp`, `worker_id` and `sequence`.
pub open spec fn assemble(timestamp: i64, worker_id: i64, sequence: i64) -> i64 {
    (field(timestamp, TIMESTAMP_BITS, TIMESTAMP_LEFT_SHIFT) as i64) | (field(
        worker_id,
        WORKER_ID_BITS,
        WORKER_ID_SHIFT,
    ) as i64) | (field(sequence, SEQUENCE_BITS, 0) as i64)
}

/// What asking for an id at some millisecond gives.
#[derive(PartialEq, Eq, Structural, Clone, Copy, Debug)]
pub enum IdStep {
    /// The clock is behind the last id, or the millisecond's sequence is used
    /// up: ask again at a later millisecond.
    Wait,
    /// The id.
    Issue(i64),
}

/// Per-worker id state: the worker id, the sequence within the current
/// millisecond and that millisecond.
pub struct Snowflake {
    worker_id: i64,
    sequence: i64,
    last_timestamp: i64,
}

impl View for Snowflake {
    type V = (i64, i64, i64);

    closed spec fn view(&self) -> (i64, i64, i64) {
        (self.worker_id, self.sequence, self.last_timestamp)
    }
}

impl Snowflake {
    pub closed spec fn wf(&self) -> bool {
        0 <= self.sequence <= SEQUENCE_MASK
    }

    /// A worker whose id is `worker_id` modulo 1024 (with the sign of
    /// `worker_id`, as `%` does), with no id issued yet.
    pub fn new(worker_id: i64) -> (r: Snowflake)
        ensures
            r.wf(),
            r@.0 as int == if worker_id >= 0 {
                worker_id as int % 1024
            } else {
                -((-(worker_id as int)) % 1024)
            },
            r@.1 == 0,
            r@.2 == 0,
    {
        Snowflake { worker_id: worker_id % (MAX_WORKER_ID + 1), sequence: 0, last_timestamp: 0 }
    }

    /// The worker id.
    pub fn worker_id(&self) -> (r: i64)
        ensures
            r == self@.0,
    {
        self.worker_id
    }

    /// Asks for an id at millisecond `timestamp` (counted from `EPOCH`). A
    /// clock behind the last id waits; in the same millisecond the sequence
    /// moves on, and waits once it is used up; a later millisecond starts
    /// the sequence at zero.
    pub fn next_id_at(&mut self, timestamp: i64) -> (r: IdStep)
        requires
            old(self).wf(),
        ensures
            final(self).wf(),
            final(self)@.0 == old(self)@.0,
            ({
                let (w, seq, last) = old(self)@;
                if timestamp < last || (timestamp == last && seq == SEQUENCE_MASK) {
                    r == IdStep::Wait && final(self)@ == old(self)@
                } else if timestamp == last {
                    r == IdStep::Issue(assemble(timestamp, w, (seq + 1) as i64)) && final(self)@ == (
                        w,
                        (seq + 1) as i64,
                        timestamp,
                    )
                } else {
                    r == IdStep::Issue(assemble(timestamp, w, 0)) && final(self)@ == (w, 0i64, timestamp)
                }
            }),
    {
        if timestamp < self.last_timestamp {
            return IdStep::Wait;
        }
        if timestamp == self.last_timestamp {
            if self.sequence == SEQUENCE_MASK {
                return IdStep::Wait;
            }
            self.sequence = self.sequence + 1;
        } else {
            self.sequence = 0;
        }
        self.last_timestamp = timestamp;
        let id = _v(timestamp, TIMESTAMP_BITS, TIMESTAMP_LEFT_SHIFT) | _v(self.worker_id, WORKER_ID_BITS, WORKER_ID_SHIFT)
            | _v(self.sequence, SEQUENCE_BITS, 0);
        IdStep::Issue(id)
    }
}

proof fn lemma_assemble_value(t: i64, w: i64, seq: i64)
    requires
        0 <= t < 0x200_0000_0000,
        0 <= seq <= SEQUENCE_MASK,
    ensures
        assemble(t, w, seq) == t * 0x40_0000 + (w & 1023) * 4096 + seq,
{
    reveal_with_fuel(pow_spec, 42);
    assert(pow_spec(2, 41) == 0x200_0000_0000);
    assert(pow_spec(2, 22) == 0x40_0000);
    assert(pow_spec(2, 12) == 4096);
    assert(pow_spec(2, 10) == 1024);
    assert(pow_spec(2, 0) == 1);
    let m41: i64 = 0x1ff_ffff_ffff;
    assert(t & m41 == t) by (bit_vector)
        requires
            0 <= t < 0x200_0000_0000,
            m41 == 0x1ff_ffff_ffff,
    ;
    assert(seq & 4095 == seq) by (bit_vector)
        requires
            0 <= seq <= 4095,
    ;
    let b = w & 1023;
    assert(0 <= b < 1024) by (bit_vector)
        requires
            b == w & 1023,
    ;
    let hi: i64 = (t * 0x40_0000) as i64;
    let mid: i64 = (b * 4096) as i64;
    assert(hi | mid | seq == hi + mid + seq) by (bit_vector)
        requires
            hi == t * 0x40_0000,
            mid == b * 4096,
            0 <= t < 0x200_0000_0000,
            0 <= b < 1024,
            0 <= seq < 4096,
    ;
}

/// Ids that one worker issues one after the other increase, as long as the
/// millisecond count stays within its 41 bits: a later millisecond, or the
/// same one with the next sequence number, gives a larger id.
pub proof fn lemma_ids_increase(w: i64, t1: i64, s1: i64, t2: i64, s2: i64)
    requires
        0 <= t1 <= t2 < 0x200_0000_0000,
        0 <= s1 <= SEQUENCE_MASK,
        0 <= s2 <= SEQUENCE_MASK,
        t1 < t2 || s1 < s2,
    ensures
        assemble(t1, w, s1) < assemble(t2, w, s2),
{
    lemma_assemble_value(t1, w, s1);
    lemma_assemble_value(t2, w, s2);
    if t1 < t2 {
        assert(t1 * 0x40_0000 + 0x40_0000 <= t2 * 0x40_0000) by (nonlinear_arith)
            requires
                t1 < t2,
        ;
        let b = w & 1023;
        assert(0 <= b < 1024) by (bit_vector)
            requires
                b == w & 1023,
        ;
    }
}

/// The characters of `alpha` rise strictly.
pub open spec fn rising(alpha: Seq<char>) -> bool {
    forall|i: int, j: int| 0 <= i < j < alpha.len() ==> (alpha[i] as u32) < (alpha[j] as u32)
}

/// Each character of `alpha` from position `i` on is below the next one.
pub open spec fn rising_from(alpha: Seq<char>, i: nat) -> bool
    decreases alpha.len() - i,
{
    if i + 1 >= alpha.len() {
        true
    } else {
        (alpha[i as int] as u32) < (alpha[i + 1int] as u32) && rising_from(alpha, i + 1)
    }
}

proof fn lemma_rising(alpha: Seq<char>, i: nat)
    requires
        rising_from(alpha, i),
    ensures
        forall|j: int, k: int| i <= j < k < alpha.len() ==> (alpha[j] as u32) < (alpha[k] as u32),
    decreases alpha.len() - i,
{
    if i + 1 < alpha.len() {
        lemma_rising(alpha, i + 1);
        assert forall|j: int, k: int| i <= j < k < alpha.len() implies (alpha[j] as u32) < (alpha[k] as u32) by {
            if j == i && k > i + 1 {
                assert((alpha[i + 1int] as u32) < (alpha[k] as u32));
            }
        }
    }
}

proof fn lemma_base_text_value(n: nat, alpha: Seq<char>)
    requires
        alpha.len() >= 2,
        rising(alpha),
    ensures
        digits_value(base_text(n, alpha), alpha) == Some(n as int),
    decreases n,
{
    if n > 0 {
        let b = alpha.len() as int;
        lemma_div_decreases(n as int, b);
        lemma_base_text_value((n / alpha.len()) as nat, alpha);
        lemma_fundamental_div_mod(n as int, b);
        let k = (n % alpha.len()) as int;
        assert(0 <= k < b);
        let t = base_text(n, alpha);
        let q = (n / alpha.len()) as int;
        assert(t.drop_last() == base_text(q as nat, alpha));
        assert(t.last() == alpha[k]);
        assert forall|j: int| 0 <= j < k implies alpha[j] != alpha[k] by {
            assert((alpha[j] as u32) < (alpha[k] as u32));
        }
        lemma_index_in_first(alpha, alpha[k], k);
        assert(digits_value(t, alpha) == Some(q * b + k));
        assert(q * b + k == n) by (nonlinear_arith)
            requires
                n == b * q + k,
        ;
    }
}

/// Reading back the base-33 or base-57 text of a positive id gives the id.
pub proof fn lemma_text_round_trip(id: i64)
    requires
        id > 0,
    ensures
        digits_value(base_text(id as nat, alphabet33()), alphabet33()) == Some(id as int),
        digits_value(base_text(id as nat, alphabet57()), alphabet57()) == Some(id as int),
{
    reveal_with_fuel(rising_from, 60);
    let a = alphabet33();
    assert(rising_from(a, 0));
    lemma_rising(a, 0);
    lemma_base_text_value(id as nat, a);
    let c = alphabet57();
    assert(rising_from(c, 0));
    lemma_rising(c, 0);
    lemma_base_text_value(id as nat, c);
}

} // verus!
