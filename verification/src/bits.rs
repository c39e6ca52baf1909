//! Fixed-width little-endian encoding and decoding, and the `DataBus`
//! contract every byte-addressed device follows.
//!
//! Every other component reads and writes multi-byte values through the
//! `BitSize` trait defined here, so the little-endian byte model is stated
//! once, as the spec functions `le_int` and `le_bytes`, and proved once.

use vstd::prelude::*;

verus! {

/// 256 raised to the power `w`: the number of values a `w`-byte field can hold.
pub open spec fn pow256(w: nat) -> nat
    decreases w,
{
    if w == 0 {
        1
    } else {
        256 * pow256((w - 1) as nat)
    }
}

/// The value of a byte sequence read little-endian: the first byte is the
/// least significant.
pub open spec fn le_int(s: Seq<u8>) -> nat
    decreases s.len(),
{
    if s.len() == 0 {
        0
    } else {
        (s[0] + 256 * le_int(s.skip(1))) as nat
    }
}

/// The `w` little-endian bytes of `v` (`v` taken modulo `pow256(w)`).
pub open spec fn le_bytes(v: nat, w: nat) -> Seq<u8>
    decreases w,
{
    if w == 0 {
        Seq::empty()
    } else {
        seq![(v % 256) as u8] + le_bytes(v / 256, (w - 1) as nat)
    }
}

pub proof fn lemma_pow256_values()
    ensures
        pow256(0) == 1,
        pow256(1) == 0x100,
        pow256(2) == 0x10000,
        pow256(3) == 0x1000000,
        pow256(4) == 0x100000000,
{
    assert(pow256(0) == 1);
    assert(pow256(1) == 256 * pow256(0));
    assert(pow256(2) == 256 * pow256(1));
    assert(pow256(3) == 256 * pow256(2));
    assert(pow256(4) == 256 * pow256(3));
}

/// The little-endian value of one byte.
pub proof fn lemma_le_int1(s: Seq<u8>)
    requires
        s.len() == 1,
    ensures
        le_int(s) == s[0],
{
    assert(s.skip(1) =~= Seq::<u8>::empty());
    assert(le_int(Seq::<u8>::empty()) == 0);
    assert(le_int(s) == (s[0] + 256 * le_int(s.skip(1))) as nat);
}

/// The little-endian value of two bytes.
pub proof fn lemma_le_int2(s: Seq<u8>)
    requires
        s.len() == 2,
    ensures
        le_int(s) == s[0] + 0x100 * s[1],
{
    lemma_le_int1(s.skip(1));
    assert(s.skip(1)[0] == s[1]);
}

/// The little-endian value of four bytes.
pub proof fn lemma_le_int4(s: Seq<u8>)
    requires
        s.len() == 4,
    ensures
        le_int(s) == s[0] + 0x100 * s[1] + 0x10000 * s[2] + 0x1000000 * s[3],
{
    lemma_le_int2(s.skip(1).skip(1));
    assert(s.skip(1).skip(1)[0] == s[2] && s.skip(1).skip(1)[1] == s[3]);
    assert(le_int(s.skip(1)) == (s.skip(1)[0] + 256 * le_int(s.skip(1).skip(1))) as nat);
    assert(s.skip(1)[0] == s[1]);
}

/// The one little-endian byte of a value.
pub proof fn lemma_le_bytes1(v: nat)
    ensures
        le_bytes(v, 1) =~= seq![(v % 256) as u8],
{
    assert(le_bytes(v / 256, 0) =~= Seq::<u8>::empty());
}

/// The two little-endian bytes of a value.
pub proof fn lemma_le_bytes2(v: nat)
    ensures
        le_bytes(v, 2) =~= seq![(v % 256) as u8, ((v / 256) % 256) as u8],
{
    lemma_le_bytes1(v / 256);
    assert(le_bytes(v, 2) == seq![(v % 256) as u8] + le_bytes(v / 256, 1));
}

/// The four little-endian bytes of a value.
pub proof fn lemma_le_bytes4(v: nat)
    ensures
        le_bytes(v, 4) =~= seq![
            (v % 256) as u8,
            ((v / 256) % 256) as u8,
            ((v / 0x10000) % 256) as u8,
            ((v / 0x1000000) % 256) as u8,
        ],
{
    lemma_le_bytes2(v / 0x10000);
    assert(le_bytes(v, 4) == seq![(v % 256) as u8] + le_bytes(v / 256, 3));
    assert(le_bytes(v / 256, 3) == seq![((v / 256) % 256) as u8] + le_bytes(v / 256 / 256, 2));
    assert(v / 256 / 256 == v / 0x10000) by (nonlinear_arith);
    assert(v / 0x10000 / 256 == v / 0x1000000) by (nonlinear_arith);
}

pub proof fn lemma_le_bytes_len(v: nat, w: nat)
    ensures
        le_bytes(v, w).len() == w,
    decreases w,
{
    if w > 0 {
        lemma_le_bytes_len(v / 256, (w - 1) as nat);
    }
}

/// Decoding the little-endian bytes of `v` gives `v` back.
pub proof fn lemma_le_int_le_bytes(v: nat, w: nat)
    requires
        v < pow256(w),
    ensures
        le_int(le_bytes(v, w)) == v,
    decreases w,
{
    if w > 0 {
        let s = le_bytes(v, w);
        lemma_le_bytes_len(v, w);
        assert(s.skip(1) =~= le_bytes(v / 256, (w - 1) as nat));
        assert(v / 256 < pow256((w - 1) as nat)) by (nonlinear_arith)
            requires
                v < 256 * pow256((w - 1) as nat),
        ;
        lemma_le_int_le_bytes(v / 256, (w - 1) as nat);
        assert(v == v % 256 + 256 * (v / 256)) by (nonlinear_arith);
    }
}

/// A byte sequence's little-endian value fits in as many bytes.
pub proof fn lemma_le_int_bound(s: Seq<u8>)
    ensures
        le_int(s) < pow256(s.len()),
    decreases s.len(),
{
    if s.len() > 0 {
        lemma_le_int_bound(s.skip(1));
        assert(s[0] + 256 * le_int(s.skip(1)) < 256 * pow256(s.skip(1).len())) by (
        nonlinear_arith)
            requires
                0 <= s[0] < 256,
                le_int(s.skip(1)) < pow256(s.skip(1).len()),
        ;
    }
}


/// `s` with the bytes of `b` written at offset `at`.
pub open spec fn splice(s: Seq<u8>, at: int, b: Seq<u8>) -> Seq<u8> {
    s.take(at) + b + s.skip(at + b.len())
}

/// A fixed-width unsigned integer that the bus can move as little-endian
/// bytes: `from` decodes the first `width()` bytes, `to_bytes` encodes.
pub trait BitSize: Sized {
    /// How many bytes a value of this type occupies.
    spec fn width() -> nat;

    /// The value as a mathematical integer.
    spec fn as_nat(self) -> nat;

    proof fn lemma_bounds()
        ensures
            1 <= Self::width() <= 4,
            forall|v: Self| (#[trigger] v.as_nat()) < pow256(Self::width()),
    ;

    fn size() -> (r: usize)
        ensures
            r == Self::width(),
    ;

    fn to_u32(self) -> (r: u32)
        ensures
            r == self.as_nat(),
    ;

    fn from(values: &[u8]) -> (r: Self)
        requires
            Self::width() <= values@.len(),
        ensures
            r.as_nat() == le_int(values@.take(Self::width() as int)),
    ;

    fn to_bytes(&self) -> (r: Vec<u8>)
        ensures
            r@ == le_bytes(self.as_nat(), Self::width()),
    ;
}

impl BitSize for u8 {
    open spec fn width() -> nat {
        1
    }

    fn size() -> (r: usize) {
        1
    }

    open spec fn as_nat(self) -> nat {
        self as nat
    }

    proof fn lemma_bounds() {
        lemma_pow256_values();
    }

    fn to_u32(self) -> (r: u32) {
        self as u32
    }

    fn from(values: &[u8]) -> (r: u8) {
        let r = values[0];
        proof {
            lemma_le_int1(values@.take(1));
        }
        r
    }

    fn to_bytes(&self) -> (r: Vec<u8>) {
        let mut r: Vec<u8> = Vec::new();
        r.push(*self);
        proof {
            lemma_le_bytes1(self.as_nat());
            assert(r@ =~= le_bytes(self.as_nat(), 1));
        }
        r
    }
}

impl BitSize for u16 {
    open spec fn width() -> nat {
        2
    }

    fn size() -> (r: usize) {
        2
    }

    open spec fn as_nat(self) -> nat {
        self as nat
    }

    proof fn lemma_bounds() {
        lemma_pow256_values();
    }

    fn to_u32(self) -> (r: u32) {
        self as u32
    }

    fn from(values: &[u8]) -> (r: u16) {
        let b0 = values[0];
        let b1 = values[1];
        let r = (b0 as u16) | ((b1 as u16) << 8);
        proof {
            assert(r == b0 + 256 * b1) by (bit_vector)
                requires
                    r == (b0 as u16) | ((b1 as u16) << 8u16),
            ;
            lemma_le_int2(values@.take(2));
        }
        r
    }

    fn to_bytes(&self) -> (r: Vec<u8>) {
        let x = *self;
        let b0 = x as u8;
        let b1 = (x >> 8) as u8;
        let mut r: Vec<u8> = Vec::new();
        r.push(b0);
        r.push(b1);
        proof {
            assert(b0 == x % 256 && b1 == (x / 256) % 256) by (bit_vector)
                requires
                    b0 == x as u8,
                    b1 == (x >> 8u16) as u8,
            ;
            lemma_le_bytes2(x as nat);
            assert(r@ =~= le_bytes(x as nat, 2));
        }
        r
    }
}

impl BitSize for u32 {
    open spec fn width() -> nat {
        4
    }

    fn size() -> (r: usize) {
        4
    }

    open spec fn as_nat(self) -> nat {
        self as nat
    }

    proof fn lemma_bounds() {
        lemma_pow256_values();
    }

    fn to_u32(self) -> (r: u32) {
        self
    }

    fn from(values: &[u8]) -> (r: u32) {
        let b0 = values[0];
        let b1 = values[1];
        let b2 = values[2];
        let b3 = values[3];
        let r = (b0 as u32) | ((b1 as u32) << 8) | ((b2 as u32) << 16) | ((b3 as u32) << 24);
        proof {
            assert(r == b0 + 0x100 * b1 + 0x10000 * b2 + 0x1000000 * b3) by (bit_vector)
                requires
                    r == (b0 as u32) | ((b1 as u32) << 8u32) | ((b2 as u32) << 16u32) | ((b3
                        as u32) << 24u32),
            ;
            lemma_le_int4(values@.take(4));
        }
        r
    }

    fn to_bytes(&self) -> (r: Vec<u8>) {
        let x = *self;
        let b0 = x as u8;
        let b1 = (x >> 8) as u8;
        let b2 = (x >> 16) as u8;
        let b3 = (x >> 24) as u8;
        let mut r: Vec<u8> = Vec::new();
        r.push(b0);
        r.push(b1);
        r.push(b2);
        r.push(b3);
        proof {
            assert(b0 == x % 256 && b1 == (x / 256) % 256 && b2 == (x / 0x10000) % 256 && b3 == (x
                / 0x1000000) % 256) by (bit_vector)
                requires
                    b0 == x as u8,
                    b1 == (x >> 8u32) as u8,
                    b2 == (x >> 16u32) as u8,
                    b3 == (x >> 24u32) as u8,
            ;
            lemma_le_bytes4(x as nat);
            assert(r@ =~= le_bytes(x as nat, 4));
        }
        r
    }
}

/// A byte-addressed device that moves fixed-width values little-endian.
///
/// The spec members say what a device does: whether it is in working
/// order (`bus_ok`), which accesses it admits (`access_ok`), and the
/// state and value each access produces, stated over the device's view.
pub trait DataBus: View + Sized {
    /// The device invariant every access preserves.
    spec fn bus_ok(self) -> bool;

    /// Whether the device admits a `w`-byte access at `addr`.
    spec fn access_ok(self, addr: int, w: nat) -> bool;

    /// The device after a `w`-byte read at `addr`.
    spec fn read_state(self, addr: int, w: nat) -> Self::V;

    /// What a `w`-byte read at `addr` returns.
    spec fn read_val(self, addr: int, w: nat) -> nat;

    /// The device after a `w`-byte write of `v` at `addr`.
    spec fn write_state(self, addr: int, w: nat, v: nat) -> Self::V;

    fn read<T: BitSize>(&mut self, addr: usize) -> (r: T)
        requires
            old(self).bus_ok(),
            old(self).access_ok(addr as int, T::width()),
        ensures
            final(self).bus_ok(),
            final(self)@ == old(self).read_state(addr as int, T::width()),
            r.as_nat() == old(self).read_val(addr as int, T::width()),
    ;

    fn write<T: BitSize>(&mut self, addr: usize, value: T)
        requires
            old(self).bus_ok(),
            old(self).access_ok(addr as int, T::width()),
        ensures
            final(self).bus_ok(),
            final(self)@ == old(self).write_state(addr as int, T::width(), value.as_nat()),
    ;
}

} // verus!
