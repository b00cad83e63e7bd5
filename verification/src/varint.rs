//! LEB128-style variable-length integer encoding (varint / varlong).
//!
//! A value is emitted as 7-bit groups, least significant first; the high bit
//! of every byte but the last is set as a continuation marker. The encoding
//! produced here is the shortest one that round-trips.

use vstd::prelude::*;

verus! {

/// Length of the shortest varint encoding of `v` (the LEB128 length table).
pub open spec fn varint_len(v: u32) -> int {
    if v < 0x80 {
        1
    } else if v < 0x4000 {
        2
    } else if v < 0x20_0000 {
        3
    } else if v < 0x1000_0000 {
        4
    } else {
        5
    }
}

/// Length of the shortest varlong encoding of `v`.
pub open spec fn varlong_len(v: u64) -> int {
    if v < 0x80 {
        1
    } else if v < 0x4000 {
        2
    } else if v < 0x20_0000 {
        3
    } else if v < 0x1000_0000 {
        4
    } else if v < 0x8_0000_0000 {
        5
    } else if v < 0x400_0000_0000 {
        6
    } else if v < 0x2_0000_0000_0000 {
        7
    } else if v < 0x100_0000_0000_0000 {
        8
    } else if v < 0x8000_0000_0000_0000 {
        9
    } else {
        10
    }
}

/// Shortest LEB128 encoding of a 32-bit value.
pub open spec fn varint_seq(v: u32) -> Seq<u8>
    decreases v,
{
    if v < 0x80 {
        seq![v as u8]
    } else {
        seq![(v % 0x80 + 0x80) as u8] + varint_seq(v / 0x80)
    }
}

/// Shortest LEB128 encoding of a 64-bit value.
pub open spec fn varlong_seq(v: u64) -> Seq<u8>
    decreases v,
{
    if v < 0x80 {
        seq![v as u8]
    } else {
        seq![(v % 0x80 + 0x80) as u8] + varlong_seq(v / 0x80)
    }
}

/// The value carried by a LEB128 byte group: the low 7 bits of each byte,
/// least significant group first. Continuation bits are ignored.
pub open spec fn leb_value(s: Seq<u8>) -> nat
    decreases s.len(),
{
    if s.len() == 0 {
        0
    } else {
        (s[0] % 0x80) as nat + 0x80 * leb_value(s.skip(1))
    }
}

/// Index of the first byte without the continuation bit set, or `s.len()`
/// if every byte of `s` has it set. A decoder stops after this byte.
pub open spec fn leb_term_index(s: Seq<u8>) -> int
    decreases s.len(),
{
    if s.len() == 0 {
        0
    } else if s[0] < 0x80 {
        0
    } else {
        1 + leb_term_index(s.skip(1))
    }
}

pub proof fn lemma_leb_term_index_range(s: Seq<u8>)
    ensures
        0 <= leb_term_index(s) <= s.len(),
        leb_term_index(s) < s.len() ==> s[leb_term_index(s)] < 0x80,
        forall|i: int| 0 <= i < leb_term_index(s) ==> s[i] >= 0x80,
    decreases s.len(),
{
    if s.len() != 0 && s[0] >= 0x80 {
        lemma_leb_term_index_range(s.skip(1));
        assert forall|i: int| 0 <= i < leb_term_index(s) implies s[i] >= 0x80 by {
            if i > 0 {
                assert(s.skip(1)[i - 1] == s[i]);
            }
        }
        assert(leb_term_index(s) < s.len() ==> s[leb_term_index(s)] < 0x80) by {
            if leb_term_index(s) < s.len() {
                assert(s.skip(1)[leb_term_index(s) - 1] == s[leb_term_index(s)]);
            }
        }
    }
}

pub proof fn lemma_varint_seq_len(v: u32)
    ensures
        varint_seq(v).len() == varint_len(v),
        1 <= varint_len(v) <= 5,
    decreases v,
{
    if v >= 0x80 {
        lemma_varint_seq_len(v / 0x80);
    }
}

pub proof fn lemma_varlong_seq_len(v: u64)
    ensures
        varlong_seq(v).len() == varlong_len(v),
        1 <= varlong_len(v) <= 10,
    decreases v,
{
    if v >= 0x80 {
        lemma_varlong_seq_len(v / 0x80);
    }
}

/// Reducing the tail of a LEB128 sum modulo `m` does not change the sum
/// modulo `m`.
pub proof fn lemma_leb_mod_step(a: nat, x: nat, m: nat)
    requires
        m > 0,
    ensures
        (a + 0x80 * (x % m)) % m == (a + 0x80 * x) % m,
{
    let q = x / m;
    let rem = x % m;
    let p = m * q;
    assert(x == p + rem) by (nonlinear_arith)
        requires
            m > 0,
            q == x / m,
            rem == x % m,
            p == m * q,
    ;
    assert(0x80 * x == 0x80 * p + 0x80 * rem) by (nonlinear_arith)
        requires
            x == p + rem,
    ;
    assert(0x80 * p == m * (0x80 * q)) by (nonlinear_arith)
        requires
            p == m * q,
    ;
    vstd::arithmetic::div_mod::lemma_mod_multiples_vanish(
        (0x80 * q) as int,
        (a + 0x80 * rem) as int,
        m as int,
    );
    assert(a + 0x80 * x == m * (0x80 * q) + (a + 0x80 * rem));
}

/// The shortest encoding decodes to the value it was built from, it ends at
/// its own last byte even with further bytes appended, and the decoder
/// consumes exactly the encoding.
pub proof fn lemma_varint_round_trip(v: u32, rest: Seq<u8>)
    ensures
        leb_term_index(varint_seq(v) + rest) == varint_seq(v).len() - 1,
        (varint_seq(v) + rest).take(varint_seq(v).len() as int) == varint_seq(v),
        (varint_seq(v) + rest).skip(varint_seq(v).len() as int) == rest,
        leb_value(varint_seq(v)) == v,
        varint_seq(v).len() == varint_len(v),
    decreases v,
{
    lemma_varint_seq_len(v);
    let s = varint_seq(v) + rest;
    assert(s.take(varint_seq(v).len() as int) =~= varint_seq(v));
    assert(s.skip(varint_seq(v).len() as int) =~= rest);
    if v < 0x80 {
        assert(s[0] == v as u8);
        assert(leb_value(varint_seq(v)) == (v as u8 % 0x80) as nat + 0x80 * leb_value(
            varint_seq(v).skip(1),
        ));
        assert(varint_seq(v).skip(1) =~= Seq::<u8>::empty());
    } else {
        lemma_varint_round_trip(v / 0x80, rest);
        let b0 = (v % 0x80 + 0x80) as u8;
        assert(s[0] == b0);
        assert(b0 >= 0x80);
        assert(s.skip(1) =~= varint_seq(v / 0x80) + rest);
        assert(leb_term_index(s) == 1 + leb_term_index(varint_seq(v / 0x80) + rest));
        assert(varint_seq(v).skip(1) =~= varint_seq(v / 0x80));
        assert(leb_value(varint_seq(v)) == (b0 % 0x80) as nat + 0x80 * leb_value(
            varint_seq(v / 0x80),
        ));
        assert((b0 % 0x80) as nat == v % 0x80);
        assert(leb_value(varint_seq(v)) == (v % 0x80) as nat + 0x80 * (v / 0x80) as nat);
        assert((v % 0x80) as nat + 0x80 * (v / 0x80) as nat == v) by (nonlinear_arith);
    }
}

/// Varlong analogue of `lemma_varint_round_trip`.
pub proof fn lemma_varlong_round_trip(v: u64, rest: Seq<u8>)
    ensures
        leb_term_index(varlong_seq(v) + rest) == varlong_seq(v).len() - 1,
        (varlong_seq(v) + rest).take(varlong_seq(v).len() as int) == varlong_seq(v),
        (varlong_seq(v) + rest).skip(varlong_seq(v).len() as int) == rest,
        leb_value(varlong_seq(v)) == v,
        varlong_seq(v).len() == varlong_len(v),
    decreases v,
{
    lemma_varlong_seq_len(v);
    let s = varlong_seq(v) + rest;
    assert(s.take(varlong_seq(v).len() as int) =~= varlong_seq(v));
    assert(s.skip(varlong_seq(v).len() as int) =~= rest);
    if v < 0x80 {
        assert(s[0] == v as u8);
        assert(leb_value(varlong_seq(v)) == (v as u8 % 0x80) as nat + 0x80 * leb_value(
            varlong_seq(v).skip(1),
        ));
        assert(varlong_seq(v).skip(1) =~= Seq::<u8>::empty());
    } else {
        lemma_varlong_round_trip(v / 0x80, rest);
        let b0 = (v % 0x80 + 0x80) as u8;
        assert(s[0] == b0);
        assert(b0 >= 0x80);
        assert(s.skip(1) =~= varlong_seq(v / 0x80) + rest);
        assert(leb_term_index(s) == 1 + leb_term_index(varlong_seq(v / 0x80) + rest));
        assert(varlong_seq(v).skip(1) =~= varlong_seq(v / 0x80));
        assert(leb_value(varlong_seq(v)) == (b0 % 0x80) as nat + 0x80 * leb_value(
            varlong_seq(v / 0x80),
        ));
        assert((b0 % 0x80) as nat == v % 0x80);
        assert(leb_value(varlong_seq(v)) == (v % 0x80) as nat + 0x80 * (v / 0x80) as nat);
        assert((v % 0x80) as nat + 0x80 * (v / 0x80) as nat == v) by (nonlinear_arith);
    }
}

} // verus!
