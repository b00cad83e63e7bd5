//! The status-response JSON document, emitted byte by byte.
//!
//! The document has the fixed shape
//! `{"version":{"name":N,"protocol":P},"players":{"max":M,"online":O},
//! "description":{"text":T}}`. Strings are escaped as JSON asks: a quote or
//! backslash gets a backslash before it, other control bytes become `\u00XX`.

use vstd::prelude::*;
use vstd::string::StringSliceAdditionalSpecFns;

verus! {

/// One escaped byte of a JSON string body.
pub open spec fn esc_byte(b: u8) -> Seq<u8> {
    if b == 0x22 {
        seq![0x5Cu8, 0x22u8]
    } else if b == 0x5C {
        seq![0x5Cu8, 0x5Cu8]
    } else if b < 0x20 {
        seq![0x5Cu8, 0x75u8, 0x30u8, 0x30u8, hex_digit(b / 16), hex_digit(b % 16)]
    } else {
        seq![b]
    }
}

/// A lowercase hex digit.
pub open spec fn hex_digit(n: u8) -> u8 {
    if n < 10 {
        (0x30 + n) as u8
    } else {
        (0x61 + (n - 10)) as u8
    }
}

/// A JSON-escaped string body.
pub open spec fn esc_bytes(s: Seq<u8>) -> Seq<u8>
    decreases s.len(),
{
    if s.len() == 0 {
        Seq::empty()
    } else {
        esc_byte(s[0]) + esc_bytes(s.skip(1))
    }
}

proof fn lemma_esc_bytes_snoc(s: Seq<u8>, i: int)
    requires
        0 <= i < s.len(),
    ensures
        esc_bytes(s.take(i + 1)) == esc_bytes(s.take(i)) + esc_byte(s[i]),
    decreases i,
{
    let a = s.take(i + 1);
    if i == 0 {
        assert(a.skip(1) =~= Seq::<u8>::empty());
        assert(s.take(0) =~= Seq::<u8>::empty());
        assert(esc_bytes(a) =~= esc_byte(s[0]) + esc_bytes(a.skip(1)));
        assert(esc_bytes(a) =~= esc_bytes(s.take(0)) + esc_byte(s[0]));
    } else {
        lemma_esc_bytes_snoc(s.skip(1), i - 1);
        assert(a.skip(1) =~= s.skip(1).take(i));
        assert(s.take(i).skip(1) =~= s.skip(1).take(i - 1));
        assert(s.skip(1)[i - 1] == s[i]);
        assert(esc_bytes(a) == esc_byte(s[0]) + esc_bytes(s.skip(1).take(i)));
        assert(esc_bytes(s.take(i)) == esc_byte(s[0]) + esc_bytes(s.skip(1).take(i - 1)));
        assert(esc_bytes(a) =~= esc_bytes(s.take(i)) + esc_byte(s[i]));
    }
}

/// The decimal digits of `n`.
pub open spec fn dec_u32(n: u32) -> Seq<u8>
    decreases n,
{
    if n < 10 {
        seq![(0x30 + n) as u8]
    } else {
        dec_u32(n / 10) + seq![(0x30 + n % 10) as u8]
    }
}

/// The decimal digits of `n`, with a minus sign when negative.
pub open spec fn dec_i32(n: i32) -> Seq<u8> {
    if n >= 0 {
        dec_u32(n as u32)
    } else {
        seq![0x2Du8] + dec_u32((-(n as int)) as u32)
    }
}

/// Appends the decimal digits of `n`.
pub fn push_dec_u32(out: &mut Vec<u8>, n: u32)
    ensures
        final(out)@ == old(out)@ + dec_u32(n),
    decreases n,
{
    if n < 10 {
        out.push(0x30 + n as u8);
        assert(out@ =~= old(out)@ + dec_u32(n));
    } else {
        push_dec_u32(out, n / 10);
        out.push(0x30 + (n % 10) as u8);
        assert(out@ =~= old(out)@ + dec_u32(n));
    }
}

/// Appends the decimal form of `n`, sign included.
pub fn push_dec_i32(out: &mut Vec<u8>, n: i32)
    ensures
        final(out)@ == old(out)@ + dec_i32(n),
{
    if n >= 0 {
        push_dec_u32(out, n as u32);
    } else {
        out.push(0x2D);
        let mag: u32 = (-(n as i64)) as u32;
        push_dec_u32(out, mag);
        assert(out@ =~= old(out)@ + dec_i32(n));
    }
}

/// Appends the JSON escape of one byte.
fn push_esc_byte(out: &mut Vec<u8>, b: u8)
    ensures
        final(out)@ == old(out)@ + esc_byte(b),
{
    if b == 0x22 {
        out.push(0x5C);
        out.push(0x22);
    } else if b == 0x5C {
        out.push(0x5C);
        out.push(0x5C);
    } else if b < 0x20 {
        out.push(0x5C);
        out.push(0x75);
        out.push(0x30);
        out.push(0x30);
        let hi = b / 16;
        let lo = b % 16;
        out.push(
            if hi < 10 {
                0x30 + hi
            } else {
                0x61 + (hi - 10)
            },
        );
        out.push(
            if lo < 10 {
                0x30 + lo
            } else {
                0x61 + (lo - 10)
            },
        );
    } else {
        out.push(b);
    }
    assert(out@ =~= old(out)@ + esc_byte(b));
}

/// Appends the JSON-escaped body of a string.
pub fn push_escaped(out: &mut Vec<u8>, s: &str)
    ensures
        final(out)@ == old(out)@ + esc_bytes(s.spec_bytes()),
{
    let bytes = s.as_bytes();
    let ghost init = out@;
    let mut i: usize = 0;
    while i < bytes.len()
        invariant
            i <= bytes@.len(),
            out@ == init + esc_bytes(bytes@.take(i as int)),
        decreases bytes@.len() - i,
    {
        push_esc_byte(out, bytes[i]);
        proof {
            lemma_esc_bytes_snoc(bytes@, i as int);
        }
        i = i + 1;
    }
    assert(bytes@.take(bytes@.len() as int) =~= bytes@);
}

/// The bytes of the literal `{\"version\":{\"name\":\"`.
pub open spec fn l_version() -> Seq<u8> {
    seq![0x7Bu8, 0x22u8, 0x76u8, 0x65u8, 0x72u8, 0x73u8, 0x69u8, 0x6Fu8, 0x6Eu8, 0x22u8, 0x3Au8, 0x7Bu8, 0x22u8, 0x6Eu8, 0x61u8, 0x6Du8, 0x65u8, 0x22u8, 0x3Au8, 0x22u8]
}

/// The bytes of the literal `\",\"protocol\":`.
pub open spec fn l_protocol() -> Seq<u8> {
    seq![0x22u8, 0x2Cu8, 0x22u8, 0x70u8, 0x72u8, 0x6Fu8, 0x74u8, 0x6Fu8, 0x63u8, 0x6Fu8, 0x6Cu8, 0x22u8, 0x3Au8]
}

/// The bytes of the literal `},\"players\":{\"max\":`.
pub open spec fn l_players() -> Seq<u8> {
    seq![0x7Du8, 0x2Cu8, 0x22u8, 0x70u8, 0x6Cu8, 0x61u8, 0x79u8, 0x65u8, 0x72u8, 0x73u8, 0x22u8, 0x3Au8, 0x7Bu8, 0x22u8, 0x6Du8, 0x61u8, 0x78u8, 0x22u8, 0x3Au8]
}

/// The bytes of the literal `,\"online\":`.
pub open spec fn l_online() -> Seq<u8> {
    seq![0x2Cu8, 0x22u8, 0x6Fu8, 0x6Eu8, 0x6Cu8, 0x69u8, 0x6Eu8, 0x65u8, 0x22u8, 0x3Au8]
}

/// The bytes of the literal `},\"description\":{\"text\":\"`.
pub open spec fn l_description() -> Seq<u8> {
    seq![0x7Du8, 0x2Cu8, 0x22u8, 0x64u8, 0x65u8, 0x73u8, 0x63u8, 0x72u8, 0x69u8, 0x70u8, 0x74u8, 0x69u8, 0x6Fu8, 0x6Eu8, 0x22u8, 0x3Au8, 0x7Bu8, 0x22u8, 0x74u8, 0x65u8, 0x78u8, 0x74u8, 0x22u8, 0x3Au8, 0x22u8]
}

/// The bytes of the literal `\"}}`.
pub open spec fn l_end() -> Seq<u8> {
    seq![0x22u8, 0x7Du8, 0x7Du8]
}

fn push_l_version(out: &mut Vec<u8>)
    ensures
        final(out)@ == old(out)@ + l_version(),
{
    out.push(0x7B);
    out.push(0x22);
    out.push(0x76);
    out.push(0x65);
    out.push(0x72);
    out.push(0x73);
    out.push(0x69);
    out.push(0x6F);
    out.push(0x6E);
    out.push(0x22);
    out.push(0x3A);
    out.push(0x7B);
    out.push(0x22);
    out.push(0x6E);
    out.push(0x61);
    out.push(0x6D);
    out.push(0x65);
    out.push(0x22);
    out.push(0x3A);
    out.push(0x22);
    assert(out@ =~= old(out)@ + l_version());
}

fn push_l_protocol(out: &mut Vec<u8>)
    ensures
        final(out)@ == old(out)@ + l_protocol(),
{
    out.push(0x22);
    out.push(0x2C);
    out.push(0x22);
    out.push(0x70);
    out.push(0x72);
    out.push(0x6F);
    out.push(0x74);
    out.push(0x6F);
    out.push(0x63);
    out.push(0x6F);
    out.push(0x6C);
    out.push(0x22);
    out.push(0x3A);
    assert(out@ =~= old(out)@ + l_protocol());
}

fn push_l_players(out: &mut Vec<u8>)
    ensures
        final(out)@ == old(out)@ + l_players(),
{
    out.push(0x7D);
    out.push(0x2C);
    out.push(0x22);
    out.push(0x70);
    out.push(0x6C);
    out.push(0x61);
    out.push(0x79);
    out.push(0x65);
    out.push(0x72);
    out.push(0x73);
    out.push(0x22);
    out.push(0x3A);
    out.push(0x7B);
    out.push(0x22);
    out.push(0x6D);
    out.push(0x61);
    out.push(0x78);
    out.push(0x22);
    out.push(0x3A);
    assert(out@ =~= old(out)@ + l_players());
}

fn push_l_online(out: &mut Vec<u8>)
    ensures
        final(out)@ == old(out)@ + l_online(),
{
    out.push(0x2C);
    out.push(0x22);
    out.push(0x6F);
    out.push(0x6E);
    out.push(0x6C);
    out.push(0x69);
    out.push(0x6E);
    out.push(0x65);
    out.push(0x22);
    out.push(0x3A);
    assert(out@ =~= old(out)@ + l_online());
}

fn push_l_description(out: &mut Vec<u8>)
    ensures
        final(out)@ == old(out)@ + l_description(),
{
    out.push(0x7D);
    out.push(0x2C);
    out.push(0x22);
    out.push(0x64);
    out.push(0x65);
    out.push(0x73);
    out.push(0x63);
    out.push(0x72);
    out.push(0x69);
    out.push(0x70);
    out.push(0x74);
    out.push(0x69);
    out.push(0x6F);
    out.push(0x6E);
    out.push(0x22);
    out.push(0x3A);
    out.push(0x7B);
    out.push(0x22);
    out.push(0x74);
    out.push(0x65);
    out.push(0x78);
    out.push(0x74);
    out.push(0x22);
    out.push(0x3A);
    out.push(0x22);
    assert(out@ =~= old(out)@ + l_description());
}

fn push_l_end(out: &mut Vec<u8>)
    ensures
        final(out)@ == old(out)@ + l_end(),
{
    out.push(0x22);
    out.push(0x7D);
    out.push(0x7D);
    assert(out@ =~= old(out)@ + l_end());
}

/// The whole status JSON document over the hook-supplied values.
pub open spec fn status_json_bytes(
    name: Seq<u8>,
    protocol: i32,
    max: u32,
    online: u32,
    text: Seq<u8>,
) -> Seq<u8> {
    l_version() + esc_bytes(name) + l_protocol() + dec_i32(protocol) + l_players() + dec_u32(max)
        + l_online() + dec_u32(online) + l_description() + esc_bytes(text) + l_end()
}

/// Builds the status JSON document.
pub fn status_json(name: &str, protocol: i32, max: u32, online: u32, text: &str) -> (r: Vec<u8>)
    ensures
        r@ == status_json_bytes(name.spec_bytes(), protocol, max, online, text.spec_bytes()),
{
    let mut out: Vec<u8> = Vec::new();
    push_l_version(&mut out);
    push_escaped(&mut out, name);
    push_l_protocol(&mut out);
    push_dec_i32(&mut out, protocol);
    push_l_players(&mut out);
    push_dec_u32(&mut out, max);
    push_l_online(&mut out);
    push_dec_u32(&mut out, online);
    push_l_description(&mut out);
    push_escaped(&mut out, text);
    push_l_end(&mut out);
    assert(out@ =~= status_json_bytes(
        name.spec_bytes(),
        protocol,
        max,
        online,
        text.spec_bytes(),
    ));
    out
}

} // verus!
