//! Key expressions of the form `<namespace>/<service>/<peer id>`.
use crate::registry::PeerId;
use crate::text::{chars_of, string_of};
use std::str::FromStr;
use vstd::prelude::*;
use zenoh::config::ZenohId;

verus! {

/// The components of `s` between `/` separators (an empty string has one
/// empty component).
pub open spec fn split_slash(s: Seq<char>) -> Seq<Seq<char>>
    decreases s.len(),
{
    if s.len() == 0 {
        seq![Seq::<char>::empty()]
    } else {
        let init = split_slash(s.drop_last());
        if s.last() == '/' {
            init.push(Seq::<char>::empty())
        } else {
            init.update(init.len() - 1, init.last().push(s.last()))
        }
    }
}

pub proof fn lemma_split_nonempty(s: Seq<char>)
    ensures
        split_slash(s).len() >= 1,
    decreases s.len(),
{
    if s.len() > 0 {
        lemma_split_nonempty(s.drop_last());
    }
}

/// The value of a lower-case hexadecimal digit.
pub open spec fn hex_digit_of(c: char) -> Option<int> {
    if '0' <= c <= '9' {
        Some(c as int - '0' as int)
    } else if 'a' <= c <= 'f' {
        Some(c as int - 'a' as int + 10)
    } else {
        None
    }
}

/// The number that a string of lower-case hexadecimal digits writes (0 for
/// no digits).
pub open spec fn hex_number(s: Seq<char>) -> Option<int>
    decreases s.len(),
{
    if s.len() == 0 {
        Some(0)
    } else {
        match (hex_number(s.drop_last()), hex_digit_of(s.last())) {
            (Some(v), Some(d)) => Some(v * 16 + d),
            _ => None,
        }
    }
}

/// The peer id that the transport reads from `text`: no upper-case letter,
/// not empty, no leading `0`, then an optional `+` and at least one
/// hexadecimal digit, for a value that is neither 0 nor above 128 bits.
pub open spec fn peer_id_of(text: Seq<char>) -> Option<PeerId> {
    let digits = if text.len() > 0 && text[0] == '+' {
        text.drop_first()
    } else {
        text
    };
    if text.len() == 0 || text[0] == '0' || digits.len() == 0 || exists|i: int|
        0 <= i < text.len() && 'A' <= #[trigger] text[i] <= 'Z' {
        None
    } else {
        match hex_number(digits) {
            Some(v) => if 0 < v <= u128::MAX {
                Some(v as u128)
            } else {
                None
            },
            None => None,
        }
    }
}

/// Relies on `ZenohId::from_str` (upper-case letters refused, then uhlc's
/// `ID::from_str`: empty text and a leading `0` refused,
/// `u128::from_str_radix(_, 16)`, zero refused) and `ZenohId::to_le_bytes`,
/// which gives the id's value.
#[verifier::external_body]
fn parse_peer_id(text: &str) -> (r: Option<PeerId>)
    ensures
        r == peer_id_of(text@),
{
    match ZenohId::from_str(text) {
        Ok(zid) => Some(u128::from_le_bytes(zid.to_le_bytes())),
        Err(_) => None,
    }
}

/// The service name and the raw peer-id text of `path`: the last two of at
/// least three components, when the service name is not empty.
pub open spec fn key_parts(path: Seq<char>) -> Option<(Seq<char>, Seq<char>)> {
    let parts = split_slash(path);
    if parts.len() >= 3 && parts[parts.len() - 2].len() > 0 {
        Some((parts[parts.len() - 2], parts[parts.len() - 1]))
    } else {
        None
    }
}

/// What `extract_server_and_name` returns for `path`.
pub open spec fn extract_spec(path: Seq<char>) -> Option<(Seq<char>, PeerId)> {
    match key_parts(path) {
        Some((service, text)) => match peer_id_of(text) {
            Some(id) => Some((service, id)),
            None => None,
        },
        None => None,
    }
}

/// Splits `path` into its service name and peer-id text (see `key_parts`).
pub fn key_parts_of(path: &str) -> (r: Option<(String, String)>)
    ensures
        match r {
            Some((service, text)) => key_parts(path@) == Some((service@, text@)),
            None => key_parts(path@) is None,
        },
{
    let chars = chars_of(path);
    let mut count: usize = 1;
    let mut prev: Vec<char> = Vec::new();
    let mut cur: Vec<char> = Vec::new();
    let mut i: usize = 0;
    while i < chars.len()
        invariant
            chars@ == path@,
            i <= chars.len(),
            split_slash(chars@.subrange(0, i as int)).len() >= 1,
            count as int == if split_slash(chars@.subrange(0, i as int)).len() < 3 {
                split_slash(chars@.subrange(0, i as int)).len() as int
            } else {
                3
            },
            cur@ == split_slash(chars@.subrange(0, i as int)).last(),
            split_slash(chars@.subrange(0, i as int)).len() >= 2 ==> prev@ == split_slash(
                chars@.subrange(0, i as int),
            )[split_slash(chars@.subrange(0, i as int)).len() - 2],
        decreases chars.len() - i,
    {
        let c = chars[i];
        let ghost before = chars@.subrange(0, i as int);
        assert(chars@.subrange(0, i + 1).drop_last() == before);
        proof {
            lemma_split_nonempty(before);
        }
        if c == '/' {
            prev = cur;
            cur = Vec::new();
            if count < 3 {
                count = count + 1;
            }
        } else {
            cur.push(c);
        }
        i = i + 1;
        proof {
            lemma_split_nonempty(chars@.subrange(0, i as int));
        }
    }
    assert(chars@.subrange(0, chars.len() as int) == chars@);
    if count >= 3 && prev.len() > 0 {
        Some((string_of(&prev), string_of(&cur)))
    } else {
        None
    }
}

/// Reads `(service, peer)` from a key such as `@live/<service>/<peer>`: at
/// least three `/`-separated components, a non-empty second-to-last one and a
/// last one that reads as a peer id. Leading components are not looked at.
pub fn extract_server_and_name(path: &str) -> (r: Option<(String, PeerId)>)
    ensures
        match r {
            Some((service, id)) => extract_spec(path@) == Some((service@, id)),
            None => extract_spec(path@) is None,
        },
        split_slash(path@).last().len() == 0 ==> r is None,
{
    proof {
        lemma_split_nonempty(path@);
    }
    match key_parts_of(path) {
        Some((service, text)) => match parse_peer_id(text.as_str()) {
            Some(id) => Some((service, id)),
            None => None,
        },
        None => None,
    }
}

/// Lower-case hexadecimal digits.
pub open spec fn hex_digits() -> Seq<char> {
    seq!['0', '1', '2', '3', '4', '5', '6', '7', '8', '9', 'a', 'b', 'c', 'd', 'e', 'f']
}

/// `n` in lower-case hexadecimal without leading zeros: the text form of a
/// peer id.
pub open spec fn hex_text(n: nat) -> Seq<char>
    decreases n,
{
    if n < 16 {
        seq![hex_digits()[n as int]]
    } else {
        hex_text(n / 16).push(hex_digits()[(n % 16) as int])
    }
}

fn push_hex(n: u128, out: &mut Vec<char>)
    ensures
        final(out)@ == old(out)@ + hex_text(n as nat),
    decreases n,
{
    let digits = vec!['0', '1', '2', '3', '4', '5', '6', '7', '8', '9', 'a', 'b', 'c', 'd', 'e', 'f'];
    assert(digits@ == hex_digits());
    if n >= 16 {
        push_hex(n / 16, out);
    }
    let d = (n % 16) as usize;
    out.push(digits[d]);
    assert(out@ =~= old(out)@ + hex_text(n as nat));
}

/// The text form of a peer id.
pub fn peer_text(id: PeerId) -> (r: String)
    ensures
        r@ == hex_text(id as nat),
{
    let mut out: Vec<char> = Vec::new();
    push_hex(id, &mut out);
    assert(out@ =~= hex_text(id as nat));
    string_of(&out)
}

/// The key `<namespace>/<service>/<peer>`.
pub open spec fn key_text(namespace: Seq<char>, service: Seq<char>, peer: PeerId) -> Seq<char> {
    namespace + seq!['/'] + service + seq!['/'] + hex_text(peer as nat)
}

/// Builds the key `<namespace>/<service>/<peer>`.
pub fn key_expr(namespace: &str, service: &str, peer: PeerId) -> (r: String)
    ensures
        r@ == key_text(namespace@, service@, peer),
{
    let mut out = chars_of(namespace);
    out.push('/');
    let svc = chars_of(service);
    let mut i: usize = 0;
    while i < svc.len()
        invariant
            i <= svc.len(),
            out@ == namespace@ + seq!['/'] + svc@.subrange(0, i as int),
        decreases svc.len() - i,
    {
        out.push(svc[i]);
        i = i + 1;
    }
    assert(svc@.subrange(0, svc.len() as int) == svc@);
    out.push('/');
    push_hex(peer, &mut out);
    assert(out@ =~= key_text(namespace@, service@, peer));
    string_of(&out)
}

proof fn lemma_hex_digit(k: int)
    requires
        0 <= k < 16,
    ensures
        hex_digit_of(hex_digits()[k]) == Some(k),
        hex_digits()[k] != '/',
        hex_digits()[k] != '+',
        !('A' <= hex_digits()[k] <= 'Z'),
        k > 0 ==> hex_digits()[k] != '0',
{
    assert(k == 0 || k == 1 || k == 2 || k == 3 || k == 4 || k == 5 || k == 6 || k == 7 || k == 8 || k == 9
        || k == 10 || k == 11 || k == 12 || k == 13 || k == 14 || k == 15);
}

proof fn lemma_hex_text(n: nat)
    ensures
        hex_text(n).len() >= 1,
        hex_number(hex_text(n)) == Some(n as int),
        forall|i: int|
            0 <= i < hex_text(n).len() ==> #[trigger] hex_text(n)[i] != '/' && hex_text(n)[i] != '+' && !('A'
                <= hex_text(n)[i] <= 'Z'),
        n > 0 ==> hex_text(n)[0] != '0',
    decreases n,
{
    if n < 16 {
        lemma_hex_digit(n as int);
        let t = hex_text(n);
        assert(t.drop_last() =~= Seq::<char>::empty());
        assert(t.last() == hex_digits()[n as int]);
        assert(hex_number(t.drop_last()) == Some(0int));
        assert(hex_number(t) == Some(0 * 16 + n as int));
    } else {
        lemma_hex_text(n / 16);
        lemma_hex_digit((n % 16) as int);
        let t = hex_text(n);
        assert(t.drop_last() == hex_text(n / 16));
        assert(t[0] == hex_text(n / 16)[0]);
        assert(t.last() == hex_digits()[(n % 16) as int]);
        assert(hex_number(t) == Some((n / 16) as int * 16 + (n % 16) as int));
        assert(n == (n / 16) * 16 + n % 16);
    }
}

proof fn lemma_split_append(x: Seq<char>, y: Seq<char>)
    requires
        forall|i: int| 0 <= i < y.len() ==> y[i] != '/',
    ensures
        split_slash(x + seq!['/'] + y) == split_slash(x).push(y),
    decreases y.len(),
{
    let w = x + seq!['/'] + y;
    if y.len() == 0 {
        assert(w.drop_last() =~= x);
        assert(w.last() == '/');
        assert(y =~= Seq::<char>::empty());
        assert(split_slash(w) == split_slash(x).push(Seq::<char>::empty()));
    } else {
        let z = y.drop_last();
        assert forall|i: int| 0 <= i < z.len() implies z[i] != '/' by {
            assert(z[i] == y[i]);
        }
        lemma_split_append(x, z);
        assert(w.drop_last() =~= x + seq!['/'] + z);
        assert(w.last() == y.last());
        assert(y.last() != '/');
        let init = split_slash(x).push(z);
        assert(split_slash(w) == init.update(init.len() - 1, init.last().push(w.last())));
        assert(z.push(y.last()) =~= y);
        assert(init.update(init.len() - 1, y) =~= split_slash(x).push(y));
    }
}

/// A key built from a namespace, a non-empty service name without `/` and a
/// peer id other than 0 reads back as that service and peer.
pub proof fn lemma_key_round_trip(namespace: Seq<char>, service: Seq<char>, peer: PeerId)
    requires
        peer != 0,
        service.len() > 0,
        forall|i: int| 0 <= i < service.len() ==> service[i] != '/',
    ensures
        extract_spec(key_text(namespace, service, peer)) == Some((service, peer)),
{
    let h = hex_text(peer as nat);
    lemma_hex_text(peer as nat);
    lemma_split_append(namespace, service);
    lemma_split_append(namespace + seq!['/'] + service, h);
    lemma_split_nonempty(namespace);
    let parts = split_slash(key_text(namespace, service, peer));
    assert(parts == split_slash(namespace).push(service).push(h));
    assert(parts[parts.len() - 2] == service);
    assert(parts[parts.len() - 1] == h);
    assert(h[0] != '+');
    assert(!exists|i: int| 0 <= i < h.len() && 'A' <= #[trigger] h[i] <= 'Z');
}

} // verus!
