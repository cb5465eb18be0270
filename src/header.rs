use vstd::prelude::*;

verus! {

/// Number of bytes in the session header: a 32-bit sample rate and an 8-bit depth.
pub const HEADER_LEN: usize = 5;

/// Stream parameters announced once, before any sample data.
#[derive(Clone, Copy, Debug, PartialEq, Eq, Structural)]
pub struct SessionParams {
    pub sample_rate: u32,
    pub bit_depth: u8,
}

/// The four little-endian bytes of a 32-bit value.
pub open spec fn le_u32(v: u32) -> Seq<u8> {
    seq![
        (v % 256) as u8,
        ((v / 256) % 256) as u8,
        ((v / 65536) % 256) as u8,
        (v / 16777216) as u8,
    ]
}

/// The header bytes for a session: the sample rate little-endian, then the bit depth.
pub open spec fn header_bytes(p: SessionParams) -> Seq<u8> {
    le_u32(p.sample_rate).push(p.bit_depth)
}

/// Builds the header that a server writes to a newly accepted connection.
pub fn encode_header(p: SessionParams) -> (r: Vec<u8>)
    ensures
        r@ == header_bytes(p),
{
    let v = p.sample_rate;
    let mut r: Vec<u8> = Vec::new();
    r.push((v % 256) as u8);
    r.push(((v / 256) % 256) as u8);
    r.push(((v / 65536) % 256) as u8);
    r.push((v / 16777216) as u8);
    r.push(p.bit_depth);
    assert(r@ =~= header_bytes(p));
    r
}

proof fn lemma_byte_split(b: int, x: int)
    requires
        0 <= b < 256,
        0 <= x,
    ensures
        (b + 256 * x) % 256 == b,
        (b + 256 * x) / 256 == x,
{
    vstd::arithmetic::div_mod::lemma_fundamental_div_mod_converse(b + 256 * x, 256, x, b);
}

proof fn lemma_le_u32_decompose(b0: u8, b1: u8, b2: u8, b3: u8, v: u32)
    requires
        v as int == b0 + 256 * (b1 + 256 * (b2 + 256 * b3)),
    ensures
        le_u32(v) == seq![b0, b1, b2, b3],
{
    let x2 = b2 + 256 * (b3 as int);
    let x1 = b1 + 256 * x2;
    lemma_byte_split(b0 as int, x1);
    lemma_byte_split(b1 as int, x2);
    lemma_byte_split(b2 as int, b3 as int);
    assert(v / 65536 == x2) by {
        vstd::arithmetic::div_mod::lemma_div_denominator(v as int, 256, 256);
    }
    assert(v / 16777216 == b3 as int) by {
        vstd::arithmetic::div_mod::lemma_div_denominator(v as int, 65536, 256);
        assert(x2 / 256 == b3 as int);
    }
    assert(le_u32(v) =~= seq![b0, b1, b2, b3]);
}

/// Reads a session header; present exactly when `bytes` holds the five header bytes.
pub fn parse_header(bytes: &[u8]) -> (r: Option<SessionParams>)
    ensures
        r.is_some() <==> bytes@.len() == HEADER_LEN,
        r matches Some(p) ==> header_bytes(p) == bytes@,
{
    if bytes.len() != HEADER_LEN {
        return None;
    }
    let b0 = bytes[0] as u32;
    let b1 = bytes[1] as u32;
    let b2 = bytes[2] as u32;
    let b3 = bytes[3] as u32;
    let rate: u32 = b0 + 256 * (b1 + 256 * (b2 + 256 * b3));
    let p = SessionParams { sample_rate: rate, bit_depth: bytes[4] };
    proof {
        lemma_le_u32_decompose(bytes[0], bytes[1], bytes[2], bytes[3], rate);
        assert(header_bytes(p) =~= bytes@);
    }
    Some(p)
}

/// Distinct session parameters give distinct headers, so reading back a header
/// that was written for `p` yields `p`.
pub proof fn lemma_header_round_trip(p: SessionParams, q: SessionParams)
    requires
        header_bytes(p) == header_bytes(q),
    ensures
        p == q,
{
    assert(header_bytes(p).take(4) =~= le_u32(p.sample_rate));
    assert(header_bytes(q).take(4) =~= le_u32(q.sample_rate));
    assert(header_bytes(p)[4] == p.bit_depth);
    assert(header_bytes(q)[4] == q.bit_depth);
    lemma_le_u32_value(p.sample_rate);
    lemma_le_u32_value(q.sample_rate);
}

proof fn lemma_le_u32_value(v: u32)
    ensures
        v as int == le_u32(v)[0] + 256 * (le_u32(v)[1] + 256 * (le_u32(v)[2] + 256 * le_u32(v)[3])),
{
    let x = v as int;
    vstd::arithmetic::div_mod::lemma_fundamental_div_mod(x, 256);
    vstd::arithmetic::div_mod::lemma_fundamental_div_mod(x / 256, 256);
    vstd::arithmetic::div_mod::lemma_fundamental_div_mod(x / 65536, 256);
    vstd::arithmetic::div_mod::lemma_div_denominator(x, 256, 256);
    vstd::arithmetic::div_mod::lemma_div_denominator(x, 65536, 256);
    assert(x / 16777216 < 256);
}


/// The decimal digits of `n`, most significant first, without leading zeros.
pub open spec fn decimal(n: nat) -> Seq<u8>
    decreases n,
{
    if n < 10 {
        seq![(48 + n) as u8]
    } else {
        decimal(n / 10).push((48 + n % 10) as u8)
    }
}

fn push_decimal(n: u32, out: &mut Vec<u8>)
    ensures
        final(out)@ == old(out)@ + decimal(n as nat),
    decreases n,
{
    if n >= 10 {
        push_decimal(n / 10, out);
    }
    out.push((48 + n % 10) as u8);
    proof {
        if n < 10 {
            assert(old(out)@ + decimal(n as nat) =~= old(out)@.push((48 + n % 10) as u8));
        } else {
            assert(old(out)@ + decimal(n as nat) =~= (old(out)@ + decimal((n / 10) as nat)).push(
                (48 + n % 10) as u8,
            ));
        }
    }
}

/// The line that tells the sensing device which sample rate to use: the rate in
/// decimal, then a newline.
pub fn rate_announcement(sample_rate: u32) -> (r: Vec<u8>)
    ensures
        r@ == decimal(sample_rate as nat).push(10u8),
{
    let mut r: Vec<u8> = Vec::new();
    push_decimal(sample_rate, &mut r);
    r.push(10u8);
    assert(Seq::<u8>::empty() + decimal(sample_rate as nat) =~= decimal(sample_rate as nat));
    r
}

} // verus!
