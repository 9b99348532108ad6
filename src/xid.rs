//! Globally unique 12-byte ids: 4 bytes of Unix time, 3 of machine id, 2 of
//! process id, 3 of counter, written as 20 base-32 characters.
use crate::text::string_of;
use rand::RngCore;
use std::time::{SystemTime, UNIX_EPOCH};
use vstd::prelude::*;
use vstd::string::{is_ascii, is_ascii_spec_bytes, StringSliceAdditionalSpecFns};

verus! {

pub const RAW_LEN: usize = 12;
pub const ENCODED_LEN: usize = 20;

/// The base-32 digits, in order of value.
pub open spec fn alphabet32() -> Seq<char> {
    seq![
        '0', '1', '2', '3', '4', '5', '6', '7', '8', '9', 'a', 'b', 'c', 'd', 'e', 'f',
        'g', 'h', 'i', 'j', 'k', 'l', 'm', 'n', 'o', 'p', 'q', 'r', 's', 't', 'u', 'v',
    ]
}

/// The digit of a 5-bit value.
pub open spec fn enc(v: u8) -> char {
    alphabet32()[v as int]
}

/// The 20 characters of a raw id: its 96 bits, most significant first, in
/// groups of five (the last group padded with zeros).
pub open spec fn id_text(r: Seq<u8>) -> Seq<char> {
    seq![
        enc(r[0] >> 3),
        enc(((r[1] >> 6) | (r[0] << 2)) & 31),
        enc((r[1] >> 1) & 31),
        enc(((r[2] >> 4) | (r[1] << 4)) & 31),
        enc(((r[3] >> 7) | (r[2] << 1)) & 31),
        enc((r[3] >> 2) & 31),
        enc(((r[4] >> 5) | (r[3] << 3)) & 31),
        enc(r[4] & 31),
        enc(r[5] >> 3),
        enc(((r[6] >> 6) | (r[5] << 2)) & 31),
        enc((r[6] >> 1) & 31),
        enc(((r[7] >> 4) | (r[6] << 4)) & 31),
        enc(((r[8] >> 7) | (r[7] << 1)) & 31),
        enc((r[8] >> 2) & 31),
        enc(((r[9] >> 5) | (r[8] << 3)) & 31),
        enc(r[9] & 31),
        enc(r[10] >> 3),
        enc(((r[11] >> 6) | (r[10] << 2)) & 31),
        enc((r[11] >> 1) & 31),
        enc((r[11] << 4) & 31),
    ]
}

/// The value of a base-32 digit byte.
pub open spec fn digit_value(b: u8) -> Option<u8> {
    if 48 <= b <= 57 {
        Some((b - 48) as u8)
    } else if 97 <= b <= 118 {
        Some((b - 87) as u8)
    } else {
        None
    }
}

/// The 12 raw bytes that 20 digit values stand for.
pub open spec fn raw_of_digits(d: Seq<u8>) -> Seq<u8> {
    seq![
        ((d[0] << 3) | (d[1] >> 2)) as u8,
        ((d[1] << 6) | (d[2] << 1) | (d[3] >> 4)) as u8,
        ((d[3] << 4) | (d[4] >> 1)) as u8,
        ((d[4] << 7) | (d[5] << 2) | (d[6] >> 3)) as u8,
        ((d[6] << 5) | d[7]) as u8,
        ((d[8] << 3) | (d[9] >> 2)) as u8,
        ((d[9] << 6) | (d[10] << 1) | (d[11] >> 4)) as u8,
        ((d[11] << 4) | (d[12] >> 1)) as u8,
        ((d[12] << 7) | (d[13] << 2) | (d[14] >> 3)) as u8,
        ((d[14] << 5) | d[15]) as u8,
        ((d[16] << 3) | (d[17] >> 2)) as u8,
        ((d[17] << 6) | (d[18] << 1) | (d[19] >> 4)) as u8,
    ]
}

/// An id.
#[derive(Debug, PartialEq, Eq, PartialOrd, Ord, Clone, Copy, Hash)]
pub struct Id(pub [u8; 12]);

/// Why a text is not an id.
#[derive(Debug, PartialEq, Eq, Clone, Copy)]
pub enum DecodeError {
    /// The text is not 20 bytes long; its length.
    InvalidLength(usize),
    /// A byte that is not a digit, and a position (always 0).
    InvalidCharacter(char, usize),
}

proof fn lemma_five_bits()
    ensures
        forall|x: u8| #[trigger] (x >> 3u8) < 32,
        forall|x: u8| #[trigger] (x & 31u8) < 32,
{
    assert(forall|x: u8| #[trigger] (x >> 3u8) < 32) by (bit_vector);
    assert(forall|x: u8| #[trigger] (x & 31u8) < 32) by (bit_vector);
}

fn enc_char(digits: &Vec<char>, v: u8) -> (c: char)
    requires
        digits@ == alphabet32(),
        v < 32,
    ensures
        c == enc(v),
{
    digits[v as usize]
}

/// The value of one digit byte.
pub fn decode_char(c: u8) -> (r: Result<u8, DecodeError>)
    ensures
        match digit_value(c) {
            Some(v) => r == Ok::<u8, DecodeError>(v),
            None => r == Err::<u8, DecodeError>(DecodeError::InvalidCharacter(c as char, 0)),
        },
{
    if 48 <= c && c <= 57 {
        Ok(c - 48)
    } else if 97 <= c && c <= 118 {
        Ok(c - 87)
    } else {
        Err(DecodeError::InvalidCharacter(c as char, 0))
    }
}

impl Id {
    /// The raw bytes.
    pub fn as_bytes(&self) -> (r: &[u8; 12])
        ensures
            r@ == self.0@,
    {
        &self.0
    }

    /// The 3-byte machine id.
    pub fn machine(&self) -> (r: [u8; 3])
        ensures
            r@ == self.0@.subrange(4, 7),
    {
        let r = [self.0[4], self.0[5], self.0[6]];
        assert(r@ =~= self.0@.subrange(4, 7));
        r
    }

    /// The process id (big-endian).
    pub fn pid(&self) -> (r: u16)
        ensures
            r == self.0@[7] * 256 + self.0@[8],
    {
        (self.0[7] as u16) * 256 + (self.0[8] as u16)
    }

    /// The Unix time in seconds (big-endian).
    pub fn time(&self) -> (r: u64)
        ensures
            r == ((self.0@[0] * 256 + self.0@[1]) * 256 + self.0@[2]) * 256 + self.0@[3],
    {
        (((self.0[0] as u64) * 256 + (self.0[1] as u64)) * 256 + (self.0[2] as u64)) * 256 + (self.0[3] as u64)
    }

    /// The counter (3 bytes, big-endian).
    pub fn counter(&self) -> (r: u32)
        ensures
            r == (self.0@[9] * 256 + self.0@[10]) * 256 + self.0@[11],
    {
        ((self.0[9] as u32) * 256 + (self.0[10] as u32)) * 256 + (self.0[11] as u32)
    }

    /// The 20-character text form.
    pub fn to_string(&self) -> (s: String)
        ensures
            s@ == id_text(self.0@),
    {
        proof {
            lemma_five_bits();
        }
        let r = &self.0;
        let digits = vec![
            '0', '1', '2', '3', '4', '5', '6', '7', '8', '9', 'a', 'b', 'c', 'd', 'e', 'f',
            'g', 'h', 'i', 'j', 'k', 'l', 'm', 'n', 'o', 'p', 'q', 'r', 's', 't', 'u', 'v',
        ];
        assert(digits@ == alphabet32());
        let out = vec![
            enc_char(&digits, r[0] >> 3),
            enc_char(&digits, ((r[1] >> 6) | (r[0] << 2)) & 31),
            enc_char(&digits, (r[1] >> 1) & 31),
            enc_char(&digits, ((r[2] >> 4) | (r[1] << 4)) & 31),
            enc_char(&digits, ((r[3] >> 7) | (r[2] << 1)) & 31),
            enc_char(&digits, (r[3] >> 2) & 31),
            enc_char(&digits, ((r[4] >> 5) | (r[3] << 3)) & 31),
            enc_char(&digits, r[4] & 31),
            enc_char(&digits, r[5] >> 3),
            enc_char(&digits, ((r[6] >> 6) | (r[5] << 2)) & 31),
            enc_char(&digits, (r[6] >> 1) & 31),
            enc_char(&digits, ((r[7] >> 4) | (r[6] << 4)) & 31),
            enc_char(&digits, ((r[8] >> 7) | (r[7] << 1)) & 31),
            enc_char(&digits, (r[8] >> 2) & 31),
            enc_char(&digits, ((r[9] >> 5) | (r[8] << 3)) & 31),
            enc_char(&digits, r[9] & 31),
            enc_char(&digits, r[10] >> 3),
            enc_char(&digits, ((r[11] >> 6) | (r[10] << 2)) & 31),
            enc_char(&digits, (r[11] >> 1) & 31),
            enc_char(&digits, (r[11] << 4) & 31),
        ];
        assert(out@ =~= id_text(self.0@));
        string_of(&out)
    }

    /// Reads an id from its 20-character text form.
    pub fn from_str(value: &str) -> (r: Result<Id, DecodeError>)
        ensures
            value.spec_bytes().len() != ENCODED_LEN ==> r == Err::<Id, DecodeError>(
                DecodeError::InvalidLength(value.spec_bytes().len() as usize),
            ),
            value.spec_bytes().len() == ENCODED_LEN ==> match r {
                Ok(id) => (forall|i: int| 0 <= i < 20 ==> #[trigger] digit_value(value.spec_bytes()[i]) is Some)
                    && id.0@ == raw_of_digits(value.spec_bytes().map_values(|b: u8| digit_value(b)->0)),
                Err(e) => exists|i: int|
                    0 <= i < 20 && digit_value(#[trigger] value.spec_bytes()[i]) is None && (forall|j: int|
                        0 <= j < i ==> digit_value(#[trigger] value.spec_bytes()[j]) is Some) && e
                        == DecodeError::InvalidCharacter(value.spec_bytes()[i] as char, 0),
            },
    {
        let bytes = value.as_bytes();
        if bytes.len() != ENCODED_LEN {
            return Err(DecodeError::InvalidLength(bytes.len()));
        }
        let mut d: Vec<u8> = Vec::new();
        let mut i: usize = 0;
        while i < 20
            invariant
                bytes@ == value.spec_bytes(),
                bytes@.len() == 20,
                i <= 20,
                d@.len() == i,
                forall|j: int| 0 <= j < i ==> #[trigger] digit_value(bytes@[j]) is Some,
                forall|j: int| 0 <= j < i ==> d@[j] == #[trigger] digit_value(bytes@[j])->0,
            decreases 20 - i,
        {
            match decode_char(bytes[i]) {
                Ok(v) => d.push(v),
                Err(e) => {
                    assert(digit_value(bytes@[i as int]) is None);
                    return Err(e);
                },
            }
            i = i + 1;
        }
        assert(d@ =~= value.spec_bytes().map_values(|b: u8| digit_value(b)->0));
        let raw = [
            (d[0] << 3) | (d[1] >> 2),
            (d[1] << 6) | (d[2] << 1) | (d[3] >> 4),
            (d[3] << 4) | (d[4] >> 1),
            (d[4] << 7) | (d[5] << 2) | (d[6] >> 3),
            (d[6] << 5) | d[7],
            (d[8] << 3) | (d[9] >> 2),
            (d[9] << 6) | (d[10] << 1) | (d[11] >> 4),
            (d[11] << 4) | (d[12] >> 1),
            (d[12] << 7) | (d[13] << 2) | (d[14] >> 3),
            (d[14] << 5) | d[15],
            (d[16] << 3) | (d[17] >> 2),
            (d[17] << 6) | (d[18] << 1) | (d[19] >> 4),
        ];
        assert(raw@ =~= raw_of_digits(d@));
        Ok(Id(raw))
    }
}

/// The big-endian bytes of `v`.
pub open spec fn be_bytes(v: u32) -> Seq<u8> {
    seq![
        (v / 0x100_0000) as u8,
        ((v / 0x1_0000) % 256) as u8,
        ((v / 256) % 256) as u8,
        (v % 256) as u8,
    ]
}

/// The counter after one id: a wrapping increment.
pub open spec fn next_counter(c: u32) -> u32 {
    if c == u32::MAX {
        0
    } else {
        (c + 1) as u32
    }
}

/// Relies on `rand::rng()` and `RngCore::fill_bytes`: three random bytes read
/// big-endian, so below 2^24.
#[verifier::external_body]
fn init_random() -> (r: u32)
    ensures
        r < 0x100_0000,
{
    let mut bs = [0_u8; 3];
    rand::rng().fill_bytes(&mut bs);
    u32::from_be_bytes([0, bs[0], bs[1], bs[2]])
}

/// Relies on `rand::rng()` and `RngCore::fill_bytes`: three random bytes.
#[verifier::external_body]
fn random_bytes3() -> (r: [u8; 3]) {
    let mut bs = [0_u8; 3];
    rand::rng().fill_bytes(&mut bs);
    bs
}

/// Relies on `SystemTime::now` and `duration_since(UNIX_EPOCH)`: whole
/// seconds since the epoch, or none when the clock reads earlier.
#[verifier::external_body]
fn unix_seconds() -> (r: Option<u64>) {
    SystemTime::now().duration_since(UNIX_EPOCH).ok().map(|d| d.as_secs())
}

/// The MD5 digest of `bytes`.
pub uninterp spec fn md5_of(bytes: Seq<u8>) -> Seq<u8>;

/// Relies on `md5::compute`: the digest of the text's bytes; its first three
/// bytes are kept.
#[verifier::external_body]
fn md5_prefix(text: &str) -> (r: [u8; 3])
    ensures
        r@ == md5_of(text.spec_bytes()).subrange(0, 3),
{
    let digest = md5::compute(text);
    [digest[0], digest[1], digest[2]]
}

/// The CRC-32 checksum of `bytes`.
pub uninterp spec fn crc32_of(bytes: Seq<u8>) -> u32;

/// Relies on `crc32fast::Hasher`: the CRC-32 of the bytes.
#[verifier::external_body]
fn crc32(buff: &[u8]) -> (r: u32)
    ensures
        r == crc32_of(buff@),
{
    let mut hasher = crc32fast::Hasher::new();
    hasher.update(buff);
    hasher.finalize()
}

/// The 2-byte process id of an id: the process id, mixed with the checksum of
/// the process's cpuset when that holds more than one byte (inside a
/// container), truncated to 16 bits.
pub fn pid_from(process_id: u32, cpuset: Option<Vec<u8>>) -> (r: u16)
    ensures
        r == match cpuset {
            Some(b) => if b@.len() > 1 {
                ((process_id ^ crc32_of(b@)) % 0x1_0000) as u16
            } else {
                (process_id % 0x1_0000) as u16
            },
            None => (process_id % 0x1_0000) as u16,
        },
{
    let mixed = match cpuset {
        Some(b) => {
            if b.len() > 1 {
                process_id ^ crc32(b.as_slice())
            } else {
                process_id
            }
        },
        None => process_id,
    };
    (mixed % 0x1_0000) as u16
}

/// The 3-byte machine id derived from a host identifier: the start of its MD5
/// digest, or random bytes when the identifier is empty.
pub fn machine_bytes(host_id: &str) -> (r: [u8; 3])
    ensures
        host_id@.len() > 0 ==> r@ == md5_of(host_id.spec_bytes()).subrange(0, 3),
{
    if host_id.is_empty() {
        random_bytes3()
    } else {
        md5_prefix(host_id)
    }
}

/// Source of ids for one process.
pub struct Generator {
    counter: u32,
    machine_id: [u8; 3],
    pid: [u8; 2],
}

impl View for Generator {
    type V = (u32, Seq<u8>, Seq<u8>);

    closed spec fn view(&self) -> (u32, Seq<u8>, Seq<u8>) {
        (self.counter, self.machine_id@, self.pid@)
    }
}

impl Generator {
    /// A generator with a random counter below 2^24.
    pub fn new(machine_id: [u8; 3], pid: u16) -> (r: Generator)
        ensures
            r@.0 < 0x100_0000,
            r@.1 == machine_id@,
            r@.2 == seq![(pid / 256) as u8, (pid % 256) as u8],
    {
        let pid_bytes = [(pid / 256) as u8, (pid % 256) as u8];
        let r = Generator { counter: init_random(), machine_id, pid: pid_bytes };
        assert(r.pid@ =~= seq![(pid / 256) as u8, (pid % 256) as u8]);
        r
    }

    /// The id for time `unix_ts`; the counter moves on by one.
    pub fn generate(&mut self, unix_ts: u32) -> (r: Id)
        ensures
            r.0@ == be_bytes(unix_ts) + old(self)@.1 + old(self)@.2 + be_bytes(old(self)@.0).subrange(1, 4),
            final(self)@.0 == next_counter(old(self)@.0),
            final(self)@.1 == old(self)@.1,
            final(self)@.2 == old(self)@.2,
    {
        let counter = self.counter;
        self.counter = counter.wrapping_add(1);
        let raw = [
            (unix_ts / 0x100_0000) as u8,
            ((unix_ts / 0x1_0000) % 256) as u8,
            ((unix_ts / 256) % 256) as u8,
            (unix_ts % 256) as u8,
            self.machine_id[0],
            self.machine_id[1],
            self.machine_id[2],
            self.pid[0],
            self.pid[1],
            ((counter / 0x1_0000) % 256) as u8,
            ((counter / 256) % 256) as u8,
            (counter % 256) as u8,
        ];
        assert(raw@ =~= be_bytes(unix_ts) + old(self)@.1 + old(self)@.2 + be_bytes(old(self)@.0).subrange(1, 4));
        Id(raw)
    }

    /// The id for a time in whole seconds since the epoch, kept to 32 bits.
    pub fn with_time(&mut self, unix_secs: u64) -> (r: Id)
        ensures
            r.0@ == be_bytes((unix_secs % 0x1_0000_0000) as u32) + old(self)@.1 + old(self)@.2 + be_bytes(
                old(self)@.0,
            ).subrange(1, 4),
            final(self)@.0 == next_counter(old(self)@.0),
            final(self)@.1 == old(self)@.1,
            final(self)@.2 == old(self)@.2,
    {
        self.generate((unix_secs % 0x1_0000_0000) as u32)
    }

    /// A new id for the current time (time zero if the clock reads before
    /// the epoch).
    pub fn new_id(&mut self) -> (r: Id)
        ensures
            r.0@.subrange(4, 12) == old(self)@.1 + old(self)@.2 + be_bytes(old(self)@.0).subrange(1, 4),
            final(self)@.0 == next_counter(old(self)@.0),
            final(self)@.1 == old(self)@.1,
            final(self)@.2 == old(self)@.2,
    {
        let secs = match unix_seconds() {
            Some(s) => s,
            None => 0,
        };
        let r = self.with_time(secs);
        assert(r.0@.subrange(4, 12) =~= old(self)@.1 + old(self)@.2 + be_bytes(old(self)@.0).subrange(1, 4));
        r
    }
}

proof fn lemma_digit_round_trip(v: u8)
    requires
        v < 32,
    ensures
        '\0' <= enc(v) <= '\u{7f}',
        digit_value(enc(v) as u8) == Some(v),
{
    let a = alphabet32();
    if v < 10 {
        assert(v == 0 || v == 1 || v == 2 || v == 3 || v == 4 || v == 5 || v == 6 || v == 7 || v == 8 || v == 9);
    } else if v < 20 {
        assert(v == 10 || v == 11 || v == 12 || v == 13 || v == 14 || v == 15 || v == 16 || v == 17 || v == 18
            || v == 19);
    } else if v < 30 {
        assert(v == 20 || v == 21 || v == 22 || v == 23 || v == 24 || v == 25 || v == 26 || v == 27 || v == 28
            || v == 29);
    } else {
        assert(v == 30 || v == 31);
    }
}

proof fn lemma_bytes_round_trip(r: Seq<u8>)
    requires
        r.len() == 12,
    ensures
        ({
            let d = seq![
                r[0] >> 3,
                ((r[1] >> 6) | (r[0] << 2)) & 31,
                (r[1] >> 1) & 31,
                ((r[2] >> 4) | (r[1] << 4)) & 31,
                ((r[3] >> 7) | (r[2] << 1)) & 31,
                (r[3] >> 2) & 31,
                ((r[4] >> 5) | (r[3] << 3)) & 31,
                r[4] & 31,
                r[5] >> 3,
                ((r[6] >> 6) | (r[5] << 2)) & 31,
                (r[6] >> 1) & 31,
                ((r[7] >> 4) | (r[6] << 4)) & 31,
                ((r[8] >> 7) | (r[7] << 1)) & 31,
                (r[8] >> 2) & 31,
                ((r[9] >> 5) | (r[8] << 3)) & 31,
                r[9] & 31,
                r[10] >> 3,
                ((r[11] >> 6) | (r[10] << 2)) & 31,
                (r[11] >> 1) & 31,
                (r[11] << 4) & 31,
            ];
            raw_of_digits(d) == r
        }),
{
    assert(forall|a: u8, b: u8| #[trigger] (((a >> 3u8) << 3u8) | ((((b >> 6u8) | (a << 2u8)) & 31u8) >> 2u8)) == a)
        by (bit_vector);
    assert(forall|a: u8, b: u8, c: u8|
        #[trigger] ((((((a >> 6u8) | (b << 2u8)) & 31u8) << 6u8) | (((a >> 1u8) & 31u8) << 1u8) | ((((c >> 4u8)
            | (a << 4u8)) & 31u8) >> 4u8))) == a) by (bit_vector);
    assert(forall|a: u8, b: u8, c: u8|
        #[trigger] ((((((b >> 4u8) | (a << 4u8)) & 31u8) << 4u8) | ((((c >> 7u8) | (b << 1u8)) & 31u8) >> 1u8)))
            == b) by (bit_vector);
    assert(forall|a: u8, b: u8, c: u8|
        #[trigger] ((((((b >> 7u8) | (a << 1u8)) & 31u8) << 7u8) | (((b >> 2u8) & 31u8) << 2u8) | ((((c >> 5u8)
            | (b << 3u8)) & 31u8) >> 3u8))) == b) by (bit_vector);
    assert(forall|a: u8, b: u8| #[trigger] ((((((b >> 5u8) | (a << 3u8)) & 31u8) << 5u8) | (b & 31u8))) == b)
        by (bit_vector);
    assert(forall|a: u8, b: u8|
        #[trigger] ((((((a >> 6u8) | (b << 2u8)) & 31u8) << 6u8) | (((a >> 1u8) & 31u8) << 1u8) | (((a << 4u8)
            & 31u8) >> 4u8))) == a) by (bit_vector);
    let d = seq![
        r[0] >> 3,
        ((r[1] >> 6) | (r[0] << 2)) & 31,
        (r[1] >> 1) & 31,
        ((r[2] >> 4) | (r[1] << 4)) & 31,
        ((r[3] >> 7) | (r[2] << 1)) & 31,
        (r[3] >> 2) & 31,
        ((r[4] >> 5) | (r[3] << 3)) & 31,
        r[4] & 31,
        r[5] >> 3,
        ((r[6] >> 6) | (r[5] << 2)) & 31,
        (r[6] >> 1) & 31,
        ((r[7] >> 4) | (r[6] << 4)) & 31,
        ((r[8] >> 7) | (r[7] << 1)) & 31,
        (r[8] >> 2) & 31,
        ((r[9] >> 5) | (r[8] << 3)) & 31,
        r[9] & 31,
        r[10] >> 3,
        ((r[11] >> 6) | (r[10] << 2)) & 31,
        (r[11] >> 1) & 31,
        (r[11] << 4) & 31,
    ];
    assert(((d[0] << 3) | (d[1] >> 2)) as u8 == r[0]);
    assert(((d[1] << 6) | (d[2] << 1) | (d[3] >> 4)) as u8 == r[1]);
    assert(((d[3] << 4) | (d[4] >> 1)) as u8 == r[2]);
    assert(((d[4] << 7) | (d[5] << 2) | (d[6] >> 3)) as u8 == r[3]);
    assert(((d[6] << 5) | d[7]) as u8 == r[4]);
    assert(((d[8] << 3) | (d[9] >> 2)) as u8 == r[5]);
    assert(((d[9] << 6) | (d[10] << 1) | (d[11] >> 4)) as u8 == r[6]);
    assert(((d[11] << 4) | (d[12] >> 1)) as u8 == r[7]);
    assert(((d[12] << 7) | (d[13] << 2) | (d[14] >> 3)) as u8 == r[8]);
    assert(((d[14] << 5) | d[15]) as u8 == r[9]);
    assert(((d[16] << 3) | (d[17] >> 2)) as u8 == r[10]);
    assert(((d[17] << 6) | (d[18] << 1) | (d[19] >> 4)) as u8 == r[11]);
    assert(raw_of_digits(d) =~= r);
}

/// Reading back the text form of an id gives the id: each of its 20 bytes
/// is a digit, and the bytes those digits stand for are the id's.
pub proof fn lemma_id_text_round_trip(id: Id, s: &str)
    requires
        s@ == id_text(id.0@),
    ensures
        s.spec_bytes().len() == ENCODED_LEN,
        forall|i: int| 0 <= i < 20 ==> #[trigger] digit_value(s.spec_bytes()[i]) is Some,
        raw_of_digits(s.spec_bytes().map_values(|b: u8| digit_value(b)->0)) == id.0@,
{
    let r = id.0@;
    lemma_five_bits();
    let d = seq![
        r[0] >> 3,
        ((r[1] >> 6) | (r[0] << 2)) & 31,
        (r[1] >> 1) & 31,
        ((r[2] >> 4) | (r[1] << 4)) & 31,
        ((r[3] >> 7) | (r[2] << 1)) & 31,
        (r[3] >> 2) & 31,
        ((r[4] >> 5) | (r[3] << 3)) & 31,
        r[4] & 31,
        r[5] >> 3,
        ((r[6] >> 6) | (r[5] << 2)) & 31,
        (r[6] >> 1) & 31,
        ((r[7] >> 4) | (r[6] << 4)) & 31,
        ((r[8] >> 7) | (r[7] << 1)) & 31,
        (r[8] >> 2) & 31,
        ((r[9] >> 5) | (r[8] << 3)) & 31,
        r[9] & 31,
        r[10] >> 3,
        ((r[11] >> 6) | (r[10] << 2)) & 31,
        (r[11] >> 1) & 31,
        (r[11] << 4) & 31,
    ];
    assert(s@ =~= d.map_values(|v: u8| enc(v)));
    assert forall|i: int| 0 <= i < 20 implies d[i] < 32 && '\0' <= #[trigger] s@[i] <= '\u{7f}' && digit_value(
        s@[i] as u8,
    ) == Some(d[i]) by {
        assert(d[i] < 32);
        lemma_digit_round_trip(d[i]);
    }
    assert(is_ascii(s));
    is_ascii_spec_bytes(s);
    let b = s.spec_bytes();
    assert(b.map_values(|x: u8| digit_value(x)->0) =~= d);
    lemma_bytes_round_trip(r);
}

} // verus!
