//! The image loader: Intel HEX records parsed and checked here, ELF
//! sections handed over by the `object` crate.
//!
//! A HEX stream is a sequence of `:LLAAAATT[DD...]CC` records in ASCII;
//! every character that is not a hex digit is skipped, so colons and
//! line breaks carry no information. `spec_next` says exactly which
//! record the reader produces and where it leaves off.

use vstd::prelude::*;

use object::{Object, ObjectSection};

verus! {

/// The errors the loader raises; all of them abort loading.
#[derive(Debug, Clone, Copy, PartialEq, Eq, Structural)]
pub enum Error {
    Checksum,
    Parse,
    Eof,
    Kind,
}

/// A record's type tag.
#[derive(Debug, Clone, Copy, PartialEq, Eq, Structural)]
pub enum Kind {
    Data,
    Eof,
    ExtendSegmentAddress,
    StartSegmentAddress,
    ExtendLinearAddress,
    StartLinearAddress,
}

/// Which kind a record-type byte names: 0 to 5, anything else refused.
pub open spec fn spec_kind(value: u8) -> Result<Kind, Error> {
    match value {
        0u8 => Ok(Kind::Data),
        1u8 => Ok(Kind::Eof),
        2u8 => Ok(Kind::ExtendSegmentAddress),
        3u8 => Ok(Kind::StartSegmentAddress),
        4u8 => Ok(Kind::ExtendLinearAddress),
        5u8 => Ok(Kind::StartLinearAddress),
        _ => Err(Error::Kind),
    }
}

/// The record-type byte of a kind.
pub open spec fn kind_code(kind: Kind) -> u8 {
    match kind {
        Kind::Data => 0,
        Kind::Eof => 1,
        Kind::ExtendSegmentAddress => 2,
        Kind::StartSegmentAddress => 3,
        Kind::ExtendLinearAddress => 4,
        Kind::StartLinearAddress => 5,
    }
}

impl Kind {
    fn new(value: u8) -> (r: Result<Kind, Error>)
        ensures
            r == spec_kind(value),
    {
        match value {
            0 => Ok(Kind::Data),
            1 => Ok(Kind::Eof),
            2 => Ok(Kind::ExtendSegmentAddress),
            3 => Ok(Kind::StartSegmentAddress),
            4 => Ok(Kind::ExtendLinearAddress),
            5 => Ok(Kind::StartLinearAddress),
            _ => Err(Error::Kind),
        }
    }

    /// The record-type byte this kind stands for.
    pub fn code(&self) -> (r: u8)
        ensures
            r == kind_code(*self),
    {
        match self {
            Kind::Data => 0,
            Kind::Eof => 1,
            Kind::ExtendSegmentAddress => 2,
            Kind::StartSegmentAddress => 3,
            Kind::ExtendLinearAddress => 4,
            Kind::StartLinearAddress => 5,
        }
    }
}

/// One parsed record.
#[derive(Debug)]
pub struct Record {
    pub addr: u16,
    pub kind: Kind,
    pub data: Vec<u8>,
    pub checksum: u8,
}

/// The mathematical value of a record.
#[verifier::ext_equal]
pub struct RecordModel {
    pub addr: u16,
    pub kind: Kind,
    pub data: Seq<u8>,
    pub checksum: u8,
}

impl View for Record {
    type V = RecordModel;

    open spec fn view(&self) -> RecordModel {
        RecordModel { addr: self.addr, kind: self.kind, data: self.data@, checksum: self.checksum }
    }
}

/// ASCII hex digits: 0-9, A-F, a-f.
pub open spec fn is_hex_digit(b: u8) -> bool {
    (0x30 <= b <= 0x39) || (0x41 <= b <= 0x46) || (0x61 <= b <= 0x66)
}

/// The value of one hex digit.
pub open spec fn hex_val(b: u8) -> nat {
    if 0x30 <= b <= 0x39 {
        (b - 0x30) as nat
    } else if 0x41 <= b <= 0x46 {
        (b - 55) as nat
    } else if 0x61 <= b <= 0x66 {
        (b - 87) as nat
    } else {
        0
    }
}

/// The first hex digit of `s` at or after `p`, with the position after
/// it; `None` when the rest of `s` holds no digit.
pub open spec fn next_digit(s: Seq<u8>, p: int) -> Option<(u8, int)>
    decreases s.len() - p,
{
    if p < 0 || p >= s.len() {
        None
    } else if is_hex_digit(s[p]) {
        Some((s[p], p + 1))
    } else {
        next_digit(s, p + 1)
    }
}

/// The next `n` hex digits of `s` from `p`, with the position after
/// the last one.
pub open spec fn take_digits(s: Seq<u8>, p: int, n: nat) -> Option<(Seq<u8>, int)>
    decreases n,
{
    if n == 0 {
        Some((Seq::empty(), p))
    } else {
        match next_digit(s, p) {
            None => None,
            Some((d, p1)) => match take_digits(s, p1, (n - 1) as nat) {
                None => None,
                Some((ds, p2)) => Some((seq![d] + ds, p2)),
            },
        }
    }
}

/// The value of a big-endian string of hex digits.
pub open spec fn hex_value(ds: Seq<u8>) -> nat
    decreases ds.len(),
{
    if ds.len() == 0 {
        0
    } else {
        hex_value(ds.drop_last()) * 16 + hex_val(ds.last())
    }
}

/// The next `bytes`-byte big-endian hex number of `s` from `p`.
pub open spec fn read_num(s: Seq<u8>, p: int, bytes: nat) -> Option<(nat, int)> {
    match take_digits(s, p, bytes * 2) {
        None => None,
        Some((ds, p1)) => Some((hex_value(ds), p1)),
    }
}

/// The next `n` data bytes of `s` from `p`, two digits each.
pub open spec fn read_bytes(s: Seq<u8>, p: int, n: nat) -> Option<(Seq<u8>, int)>
    decreases n,
{
    if n == 0 {
        Some((Seq::empty(), p))
    } else {
        match read_num(s, p, 1) {
            None => None,
            Some((v, p1)) => match read_bytes(s, p1, (n - 1) as nat) {
                None => None,
                Some((bs, p2)) => Some((seq![(v as u8)] + bs, p2)),
            },
        }
    }
}

/// The record parsed from `s` at `p` and the position after it: size,
/// address, type, data and checksum in order, `Eof` when the digits
/// run out and `Kind` on a type byte above 5.
pub open spec fn spec_next(s: Seq<u8>, p: int) -> Result<(RecordModel, int), Error> {
    match read_num(s, p, 1) {
        None => Err(Error::Eof),
        Some((size, p1)) => match read_num(s, p1, 2) {
            None => Err(Error::Eof),
            Some((addr, p2)) => match read_num(s, p2, 1) {
                None => Err(Error::Eof),
                Some((kindv, p3)) => match spec_kind(kindv as u8) {
                    Err(e) => Err(e),
                    Ok(kind) => match read_bytes(s, p3, size) {
                        None => Err(Error::Eof),
                        Some((data, p4)) => match read_num(s, p4, 1) {
                            None => Err(Error::Eof),
                            Some((ck, p5)) => Ok(
                                (
                                    RecordModel {
                                        addr: addr as u16,
                                        kind,
                                        data,
                                        checksum: ck as u8,
                                    },
                                    p5,
                                ),
                            ),
                        },
                    },
                },
            },
        },
    }
}

pub proof fn lemma_next_digit_props(s: Seq<u8>, p: int)
    requires
        0 <= p,
    ensures
        match next_digit(s, p) {
            Some((d, p1)) => p < p1 <= s.len() && is_hex_digit(d),
            None => true,
        },
    decreases s.len() - p,
{
    if 0 <= p < s.len() && !is_hex_digit(s[p]) {
        lemma_next_digit_props(s, p + 1);
    }
}

pub proof fn lemma_take_digits_props(s: Seq<u8>, p: int, n: nat)
    requires
        0 <= p <= s.len(),
    ensures
        match take_digits(s, p, n) {
            Some((ds, p2)) => {
                &&& ds.len() == n
                &&& p <= p2 <= s.len()
                &&& (n > 0 ==> p < p2)
                &&& (forall|i: int| 0 <= i < ds.len() ==> is_hex_digit(#[trigger] ds[i]))
            },
            None => true,
        },
    decreases n,
{
    if n > 0 {
        lemma_next_digit_props(s, p);
        match next_digit(s, p) {
            None => {},
            Some((d, p1)) => {
                lemma_take_digits_props(s, p1, (n - 1) as nat);
                match take_digits(s, p1, (n - 1) as nat) {
                    None => {},
                    Some((ds, p2)) => {
                        let full = seq![d] + ds;
                        assert(take_digits(s, p, n) == Some((full, p2)));
                        assert(full.len() == n);
                        assert forall|i: int| 0 <= i < full.len() implies is_hex_digit(
                            #[trigger] full[i],
                        ) by {
                            if i == 0 {
                                assert(full[0] == d);
                            } else {
                                assert(full[i] == ds[i - 1]);
                            }
                        }
                    },
                }
            },
        }
    }
}

pub proof fn lemma_read_bytes_props(s: Seq<u8>, p: int, n: nat)
    requires
        0 <= p <= s.len(),
    ensures
        match read_bytes(s, p, n) {
            Some((bs, p2)) => bs.len() == n && p <= p2 <= s.len(),
            None => true,
        },
    decreases n,
{
    if n > 0 {
        lemma_take_digits_props(s, p, 2);
        match read_num(s, p, 1) {
            None => {},
            Some((v, p1)) => {
                lemma_read_bytes_props(s, p1, (n - 1) as nat);
                match read_bytes(s, p1, (n - 1) as nat) {
                    None => {},
                    Some((bs, p2)) => {
                        assert(read_bytes(s, p, n) == Some((seq![(v as u8)] + bs, p2)));
                        assert((seq![(v as u8)] + bs).len() == n);
                    },
                }
            },
        }
    }
}

/// A parsed record sits strictly ahead of where parsing began.
pub proof fn lemma_spec_next_props(s: Seq<u8>, p: int)
    requires
        0 <= p <= s.len(),
    ensures
        match spec_next(s, p) {
            Ok((rec, p2)) => p < p2 <= s.len() && rec.data.len() <= 255,
            Err(e) => true,
        },
{
    lemma_take_digits_props(s, p, 2);
    match read_num(s, p, 1) {
        None => {},
        Some((size, p1)) => {
            assert(size < 256) by {
                lemma_hex_value_bound(take_digits(s, p, 2).unwrap().0);
            }
            lemma_take_digits_props(s, p1, 4);
            match read_num(s, p1, 2) {
                None => {},
                Some((addr, p2)) => {
                    lemma_take_digits_props(s, p2, 2);
                    match read_num(s, p2, 1) {
                        None => {},
                        Some((kindv, p3)) => {
                            lemma_read_bytes_props(s, p3, size);
                            match read_bytes(s, p3, size) {
                                None => {},
                                Some((data, p4)) => {
                                    lemma_take_digits_props(s, p4, 2);
                                },
                            }
                        },
                    }
                },
            }
        },
    }
}

/// 16 raised to the power `n`.
pub open spec fn pow16(n: nat) -> nat
    decreases n,
{
    if n == 0 {
        1
    } else {
        16 * pow16((n - 1) as nat)
    }
}

/// A string of `n` hex digits is worth less than `16^n`.
pub proof fn lemma_hex_value_bound(ds: Seq<u8>)
    ensures
        hex_value(ds) < pow16(ds.len()),
        ds.len() == 2 ==> hex_value(ds) < 0x100,
        ds.len() == 4 ==> hex_value(ds) < 0x10000,
        ds.len() == 8 ==> hex_value(ds) < 0x100000000,
    decreases ds.len(),
{
    assert(pow16(0) == 1);
    assert(pow16(1) == 16 * pow16(0));
    assert(pow16(2) == 16 * pow16(1));
    assert(pow16(3) == 16 * pow16(2));
    assert(pow16(4) == 16 * pow16(3));
    assert(pow16(5) == 16 * pow16(4));
    assert(pow16(6) == 16 * pow16(5));
    assert(pow16(7) == 16 * pow16(6));
    assert(pow16(8) == 16 * pow16(7));
    if ds.len() > 0 {
        lemma_hex_value_bound(ds.drop_last());
        assert(hex_val(ds.last()) < 16);
        assert(hex_value(ds.drop_last()) * 16 + hex_val(ds.last()) < 16 * pow16(
            ds.drop_last().len(),
        )) by (nonlinear_arith)
            requires
                hex_value(ds.drop_last()) < pow16(ds.drop_last().len()),
                hex_val(ds.last()) < 16,
        ;
    }
}

/// The Intel HEX reader: a byte stream and how far it has been read.
pub struct Hex<'a> {
    pub bytes: &'a [u8],
    pub pos: usize,
}

impl<'a> Hex<'a> {
    /// Open a reader over an ASCII byte stream.
    pub fn new(bytes: &'a [u8]) -> (r: Result<Hex<'a>, Error>)
        ensures
            r matches Ok(h) && h.bytes@ == bytes@ && h.pos == 0,
    {
        Ok(Hex { bytes, pos: 0 })
    }

    /// Collect the next `size` hex digits, skipping everything else.
    fn take(&mut self, size: usize) -> (r: Result<Vec<u8>, Error>)
        requires
            old(self).pos <= old(self).bytes@.len(),
        ensures
            final(self).bytes@ == old(self).bytes@,
            final(self).pos <= final(self).bytes@.len(),
            match take_digits(old(self).bytes@, old(self).pos as int, size as nat) {
                Some((ds, p2)) => r matches Ok(v) && v@ == ds && final(self).pos == p2,
                None => r matches Err(e) && e == Error::Eof && final(self).pos == final(
                    self).bytes@.len(),
            },
    {
        let ghost s = self.bytes@;
        let mut buffer: Vec<u8> = Vec::new();
        while buffer.len() < size
            invariant
                s == self.bytes@,
                s == old(self).bytes@,
                self.pos <= s.len(),
                buffer@.len() <= size,
                forall|i: int| 0 <= i < buffer@.len() ==> is_hex_digit(#[trigger] buffer@[i]),
                take_digits(s, old(self).pos as int, size as nat) == (match take_digits(
                    s,
                    self.pos as int,
                    (size - buffer@.len()) as nat,
                ) {
                    None => None::<(Seq<u8>, int)>,
                    Some((ds, p)) => Some((buffer@ + ds, p)),
                }),
            decreases size - buffer@.len(), s.len() - self.pos,
        {
            if self.pos >= self.bytes.len() {
                proof {
                    let k = (size - buffer@.len()) as nat;
                    assert(next_digit(s, self.pos as int) is None);
                    assert(take_digits(s, self.pos as int, k) is None);
                }
                return Err(Error::Eof);
            }
            let b = self.bytes[self.pos];
            self.pos = self.pos + 1;
            let is_digit = (0x30 <= b && b <= 0x39) || (0x41 <= b && b <= 0x46) || (0x61 <= b && b
                <= 0x66);
            if is_digit {
                let ghost k = (size - buffer@.len()) as nat;
                buffer.push(b);
                proof {
                    assert(next_digit(s, self.pos - 1) == Some((b, self.pos as int)));
                    match take_digits(s, self.pos as int, (k - 1) as nat) {
                        None => {},
                        Some((ds, p)) => {
                            assert(take_digits(s, self.pos - 1, k) == Some((seq![b] + ds, p)));
                            assert(buffer@ + ds =~= (buffer@.drop_last() + (seq![b] + ds)));
                        },
                    }
                }
            } else {
                proof {
                    assert(next_digit(s, self.pos - 1) == next_digit(s, self.pos as int));
                    let k = (size - buffer@.len()) as nat;
                    assert(take_digits(s, self.pos - 1, k) == take_digits(s, self.pos as int, k));
                }
            }
        }
        proof {
            assert(take_digits(s, self.pos as int, 0) == Some((Seq::<u8>::empty(), self.pos as int)));
            match take_digits(s, old(self).pos as int, size as nat) {
                None => {},
                Some((ds, p)) => {
                    assert(buffer@ + Seq::<u8>::empty() =~= buffer@);
                },
            }
        }
        Ok(buffer)
    }

    /// Parse the next two digits as one byte.
    fn read_u8(&mut self) -> (r: Result<u8, Error>)
        requires
            old(self).pos <= old(self).bytes@.len(),
        ensures
            final(self).bytes@ == old(self).bytes@,
            final(self).pos <= final(self).bytes@.len(),
            match read_num(old(self).bytes@, old(self).pos as int, 1) {
                Some((v, p2)) => r matches Ok(b) && b == v && final(self).pos == p2,
                None => r matches Err(e) && e == Error::Eof,
            },
    {
        let ds = match self.take(2) {
            Ok(v) => v,
            Err(e) => {
                return Err(e);
            },
        };
        proof {
            lemma_take_digits_props(old(self).bytes@, old(self).pos as int, 2);
            let s2 = take_digits(old(self).bytes@, old(self).pos as int, 2).unwrap().0;
            let s1 = s2.drop_last();
            assert(s1.drop_last() =~= Seq::<u8>::empty());
            assert(hex_value(Seq::<u8>::empty()) == 0);
            assert(s1.last() == s2[0] && s2.last() == s2[1]);
            assert(hex_value(s1) == hex_value(s1.drop_last()) * 16 + hex_val(s1.last()));
            assert(hex_value(s2) == hex_value(s1) * 16 + hex_val(s2[1]));
        }
        let hi = digit_value(ds[0]);
        let lo = digit_value(ds[1]);
        Ok(hi * 16 + lo)
    }

    /// Parse the next four digits as one big-endian 16-bit number.
    fn read_u16(&mut self) -> (r: Result<u16, Error>)
        requires
            old(self).pos <= old(self).bytes@.len(),
        ensures
            final(self).bytes@ == old(self).bytes@,
            final(self).pos <= final(self).bytes@.len(),
            match read_num(old(self).bytes@, old(self).pos as int, 2) {
                Some((v, p2)) => r matches Ok(b) && b == v && final(self).pos == p2,
                None => r matches Err(e) && e == Error::Eof,
            },
    {
        let ds = match self.take(4) {
            Ok(v) => v,
            Err(e) => {
                return Err(e);
            },
        };
        proof {
            lemma_take_digits_props(old(self).bytes@, old(self).pos as int, 4);
            let s4 = take_digits(old(self).bytes@, old(self).pos as int, 4).unwrap().0;
            let s3 = s4.drop_last();
            let s2 = s3.drop_last();
            let s1 = s2.drop_last();
            assert(s1.drop_last() =~= Seq::<u8>::empty());
            assert(hex_value(Seq::<u8>::empty()) == 0);
            assert(s1.last() == s4[0] && s2.last() == s4[1] && s3.last() == s4[2] && s4.last()
                == s4[3]);
            assert(hex_value(s1) == hex_value(s1.drop_last()) * 16 + hex_val(s1.last()));
            assert(hex_value(s2) == hex_value(s1) * 16 + hex_val(s4[1]));
            assert(hex_value(s3) == hex_value(s2) * 16 + hex_val(s4[2]));
            assert(hex_value(s4) == hex_value(s3) * 16 + hex_val(s4[3]));
            lemma_hex_value_bound(s4);
        }
        let d0 = digit_value(ds[0]) as u16;
        let d1 = digit_value(ds[1]) as u16;
        let d2 = digit_value(ds[2]) as u16;
        let d3 = digit_value(ds[3]) as u16;
        Ok(((d0 * 16 + d1) * 16 + d2) * 16 + d3)
    }

    /// Parse the next `size` data bytes.
    fn read_vec(&mut self, size: usize) -> (r: Result<Vec<u8>, Error>)
        requires
            old(self).pos <= old(self).bytes@.len(),
        ensures
            final(self).bytes@ == old(self).bytes@,
            final(self).pos <= final(self).bytes@.len(),
            match read_bytes(old(self).bytes@, old(self).pos as int, size as nat) {
                Some((bs, p2)) => r matches Ok(v) && v@ == bs && final(self).pos == p2,
                None => r matches Err(e) && e == Error::Eof,
            },
    {
        let ghost s = self.bytes@;
        let mut buffer: Vec<u8> = Vec::new();
        while buffer.len() < size
            invariant
                s == self.bytes@,
                s == old(self).bytes@,
                self.pos <= s.len(),
                buffer@.len() <= size,
                read_bytes(s, old(self).pos as int, size as nat) == (match read_bytes(
                    s,
                    self.pos as int,
                    (size - buffer@.len()) as nat,
                ) {
                    None => None::<(Seq<u8>, int)>,
                    Some((bs, p)) => Some((buffer@ + bs, p)),
                }),
            decreases size - buffer@.len(),
        {
            let ghost k = (size - buffer@.len()) as nat;
            let ghost p0 = self.pos as int;
            let b = match self.read_u8() {
                Ok(v) => v,
                Err(e) => {
                    proof {
                        assert(read_bytes(s, p0, k) is None);
                    }
                    return Err(e);
                },
            };
            buffer.push(b);
            proof {
                match read_bytes(s, self.pos as int, (k - 1) as nat) {
                    None => {},
                    Some((bs, p)) => {
                        assert(read_bytes(s, p0, k) == Some((seq![b] + bs, p)));
                        assert(buffer@ + bs =~= (buffer@.drop_last() + (seq![b] + bs)));
                    },
                }
            }
        }
        proof {
            assert(read_bytes(s, self.pos as int, 0) == Some((Seq::<u8>::empty(), self.pos as int)));
            match read_bytes(s, old(self).pos as int, size as nat) {
                None => {},
                Some((bs, p)) => {
                    assert(buffer@ + Seq::<u8>::empty() =~= buffer@);
                },
            }
        }
        Ok(buffer)
    }

    /// Parse the next record: size, address, type, data, checksum.
    pub fn next(&mut self) -> (r: Result<Record, Error>)
        requires
            old(self).pos <= old(self).bytes@.len(),
        ensures
            final(self).bytes@ == old(self).bytes@,
            final(self).pos <= final(self).bytes@.len(),
            match spec_next(old(self).bytes@, old(self).pos as int) {
                Ok((rec, p2)) => r matches Ok(record) && record@ == rec && final(self).pos == p2,
                Err(e) => r matches Err(e2) && e2 == e,
            },
    {
        let size = match self.read_u8() {
            Ok(v) => v,
            Err(e) => {
                return Err(e);
            },
        };
        let addr = match self.read_u16() {
            Ok(v) => v,
            Err(e) => {
                return Err(e);
            },
        };
        let kindv = match self.read_u8() {
            Ok(v) => v,
            Err(e) => {
                return Err(e);
            },
        };
        let kind = match Kind::new(kindv) {
            Ok(v) => v,
            Err(e) => {
                return Err(e);
            },
        };
        let data = match self.read_vec(size as usize) {
            Ok(v) => v,
            Err(e) => {
                return Err(e);
            },
        };
        let checksum = match self.read_u8() {
            Ok(v) => v,
            Err(e) => {
                return Err(e);
            },
        };
        let record = Record { addr, kind, data, checksum };
        proof {
            assert(record@ =~= spec_next(old(self).bytes@, old(self).pos as int).unwrap().0);
        }
        Ok(record)
    }
}

/// The value of one hex digit.
fn digit_value(b: u8) -> (r: u8)
    requires
        is_hex_digit(b),
    ensures
        r == hex_val(b),
        r < 16,
{
    if b <= 0x39 {
        b - 0x30
    } else if b <= 0x46 {
        b - 55
    } else {
        b - 87
    }
}

/// The sum of a byte sequence.
pub open spec fn byte_sum(s: Seq<u8>) -> int
    decreases s.len(),
{
    if s.len() == 0 {
        0
    } else {
        byte_sum(s.drop_last()) + s.last()
    }
}

/// A record's checksum is valid when it is the one's complement of the
/// sum of all its preceding bytes: length, the two address bytes, the
/// type byte and the data.
pub open spec fn record_checksum_ok(r: RecordModel) -> bool {
    r.checksum == !(((r.data.len() + r.addr / 0x100 + r.addr % 0x100 + kind_code(r.kind)
        + byte_sum(r.data)) % 256) as u8)
}

/// Whether a record's stored checksum matches its contents.
pub fn checksum_ok(record: &Record) -> (r: bool)
    requires
        record@.data.len() <= 255,
    ensures
        r == record_checksum_ok(record@),
{
    let mut sum: u32 = record.data.len() as u32;
    sum = sum + (record.addr >> 8) as u32;
    sum = sum + (record.addr & 0xff) as u32;
    sum = sum + record.kind.code() as u32;
    let ghost s = record.data@;
    let mut i: usize = 0;
    proof {
        let a = record.addr;
        assert((a >> 8u16) == a / 0x100 && (a & 0xffu16) == a % 0x100) by (bit_vector);
        assert(s.take(0).len() == 0);
    }
    while i < record.data.len()
        invariant
            i <= s.len(),
            s == record.data@,
            s.len() <= 255,
            sum == s.len() + record@.addr / 0x100 + record@.addr % 0x100 + kind_code(record@.kind)
                + byte_sum(s.take(i as int)),
            sum <= 1020 + 255 * i,
        decreases s.len() - i,
    {
        proof {
            assert(s.take(i + 1).drop_last() =~= s.take(i as int));
            assert(s.take(i + 1).last() == s[i as int]);
        }
        sum = sum + record.data[i] as u32;
        i = i + 1;
    }
    proof {
        assert(s.take(s.len() as int) =~= s);
        let t = sum;
        assert((t as u8) == (t % 256) as u8) by (bit_vector);
    }
    record.checksum == !(sum as u8)
}

/// The value of a big-endian byte string.
pub open spec fn be_int(s: Seq<u8>) -> nat
    decreases s.len(),
{
    if s.len() == 0 {
        0
    } else {
        (be_int(s.drop_last()) * 256 + s.last()) as nat
    }
}

/// The entry point a StartSegmentAddress record encodes: its data
/// bytes read big-endian, truncated to 32 bits.
pub open spec fn entry_of(data: Seq<u8>) -> u32 {
    (be_int(data) % 0x100000000) as u32
}

/// Read a record's data bytes as a big-endian entry address.
pub fn entry_value(data: &Vec<u8>) -> (r: u32)
    ensures
        r == entry_of(data@),
{
    let ghost s = data@;
    let mut acc: u32 = 0;
    let mut i: usize = 0;
    proof {
        assert(s.take(0).len() == 0);
    }
    while i < data.len()
        invariant
            i <= s.len(),
            s == data@,
            acc == be_int(s.take(i as int)) % 0x100000000,
        decreases s.len() - i,
    {
        let b = data[i];
        proof {
            let t = s.take(i + 1);
            assert(t.drop_last() =~= s.take(i as int));
            assert(t.last() == s[i as int]);
            let a = be_int(s.take(i as int)) as int;
            let m = 0x100000000int;
            vstd::arithmetic::div_mod::lemma_mul_mod_noop_left(a, 256, m);
            vstd::arithmetic::div_mod::lemma_add_mod_noop((a % m) * 256, b as int, m);
            vstd::arithmetic::div_mod::lemma_add_mod_noop(a * 256, b as int, m);
            assert(((a % m) * 256 + b) % m == (a * 256 + b) % m);
        }
        acc = acc.wrapping_mul(256).wrapping_add(b as u32);
        i = i + 1;
    }
    proof {
        assert(s.take(s.len() as int) =~= s);
    }
    acc
}

/// How an image section is classified: executable text, initialized
/// data, or anything else.
#[derive(Debug, Clone, Copy, PartialEq, Eq, Structural)]
pub enum SectionClass {
    Text,
    Data,
    Other,
}

/// What parsing an ELF image yields: each section in file order as its
/// address (truncated to 32 bits), bytes and classification; `None`
/// when the image or a section's bytes cannot be read.
pub uninterp spec fn elf_sections_of(rom: Seq<u8>) -> Option<Seq<(u32, Seq<u8>, SectionClass)>>;

/// The section list as mathematical values.
pub open spec fn sections_view(v: Seq<(u32, Vec<u8>, SectionClass)>) -> Seq<
    (u32, Seq<u8>, SectionClass),
> {
    v.map(|i: int, t: (u32, Vec<u8>, SectionClass)| (t.0, t.1@, t.2))
}

/// Relies on `object::File::parse` and its section iterator: each
/// section's `address` and `data` in file order, with `kind` carried
/// over as `Text`, `Data` or `Other`. A 64-bit section address is
/// truncated to 32 bits; parse and data errors become `Parse`.
#[verifier::external_body]
pub(crate) fn elf_sections(rom: &[u8]) -> (r: Result<Vec<(u32, Vec<u8>, SectionClass)>, Error>)
    ensures
        match r {
            Ok(v) => elf_sections_of(rom@) == Some(sections_view(v@)),
            Err(e) => e == Error::Parse && elf_sections_of(rom@) is None,
        },
{
    let file = object::File::parse(rom).map_err(|_| Error::Parse)?;
    let mut out: Vec<(u32, Vec<u8>, SectionClass)> = Vec::new();
    for section in file.sections() {
        let class = match section.kind() {
            object::SectionKind::Text => SectionClass::Text,
            object::SectionKind::Data => SectionClass::Data,
            _ => SectionClass::Other,
        };
        let data = section.data().map_err(|_| Error::Parse)?.to_vec();
        out.push((section.address() as u32, data, class));
    }
    Ok(out)
}

} // verus!
