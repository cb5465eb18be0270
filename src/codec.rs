use vstd::prelude::*;

verus! {

/// Value of one symbol of the transport alphabet `A-Z a-z 0-9 + /`;
/// any other byte stands for symbol 0.
pub open spec fn symbol_of(c: u8) -> int {
    if 65 <= c <= 90 {
        c - 65
    } else if 97 <= c <= 122 {
        c - 97 + 26
    } else if 48 <= c <= 57 {
        c - 48 + 52
    } else if c == 43 {
        62
    } else if c == 47 {
        63
    } else {
        0
    }
}

/// Decodes one byte of the transport alphabet into its symbol value.
pub fn decode_char(c: u8) -> (r: u8)
    ensures
        r as int == symbol_of(c),
        r < 64,
{
    if ('A' as u8) <= c && c <= ('Z' as u8) {
        c - ('A' as u8)
    } else if ('a' as u8) <= c && c <= ('z' as u8) {
        c - ('a' as u8) + 26
    } else if ('0' as u8) <= c && c <= ('9' as u8) {
        c - ('0' as u8) + 52
    } else if c == ('+' as u8) {
        62
    } else if c == ('/' as u8) {
        63
    } else {
        0
    }
}


/// The signed sample that the code pair `(low, high)` stands for:
/// the 12-bit value `(symbol(high) << 6) | symbol(low)`, centred on 2048 and scaled by 16.
pub open spec fn sample_of(low: u8, high: u8) -> int {
    (symbol_of(high) * 64 + symbol_of(low) - 2048) * 16
}

/// The samples that a line of code pairs decodes to; a trailing unpaired byte is dropped.
pub open spec fn samples_of(line: Seq<u8>) -> Seq<i16> {
    Seq::new(line.len() / 2, |j: int| sample_of(line[2 * j], line[2 * j + 1]) as i16)
}

/// The two little-endian bytes of a 16-bit sample.
pub open spec fn le_pair(v: i16) -> Seq<u8> {
    let u: int = if v < 0 { v + 65536 } else { v as int };
    seq![(u % 256) as u8, (u / 256) as u8]
}

/// The little-endian byte stream of a sequence of samples.
pub open spec fn le_stream(xs: Seq<i16>) -> Seq<u8>
    decreases xs.len(),
{
    if xs.len() == 0 {
        Seq::empty()
    } else {
        le_stream(xs.drop_last()) + le_pair(xs.last())
    }
}

proof fn lemma_symbol_range(c: u8)
    ensures
        0 <= symbol_of(c) < 64,
{
}

proof fn lemma_sample_range(low: u8, high: u8)
    ensures
        -32768 <= sample_of(low, high) <= 32752,
        sample_of(low, high) % 16 == 0,
{
    lemma_symbol_range(low);
    lemma_symbol_range(high);
    let v = symbol_of(high) * 64 + symbol_of(low);
    assert(0 <= v <= 4095) by (nonlinear_arith)
        requires
            0 <= symbol_of(high) < 64,
            0 <= symbol_of(low) < 64,
            v == symbol_of(high) * 64 + symbol_of(low),
    ;
}

/// Decodes one code pair into a signed 16-bit sample.
pub fn decode_sample(l: u8, h: u8) -> (r: i16)
    ensures
        r as int == sample_of(l, h),
{
    proof {
        lemma_sample_range(l, h);
    }
    let hv = decode_char(h) as i32;
    let lv = decode_char(l) as i32;
    let v: i32 = hv * 64 + lv;
    ((v - 2048) * 16) as i16
}

/// The two little-endian bytes of a sample.
pub fn sample_to_le(v: i16) -> (r: [u8; 2])
    ensures
        r@ == le_pair(v),
{
    let u: u16 = if v < 0 { (v as i32 + 65536) as u16 } else { v as u16 };
    let r = [(u % 256) as u8, (u / 256) as u8];
    assert(r@ =~= le_pair(v));
    r
}

/// Reads a sample back from its two little-endian bytes.
pub fn sample_from_le(lo: u8, hi: u8) -> (r: i16)
    ensures
        le_pair(r) == seq![lo, hi],
{
    let u: u32 = lo as u32 + 256 * (hi as u32);
    let r: i16 = if u >= 32768 { (u as i32 - 65536) as i16 } else { u as i16 };
    assert(le_pair(r) =~= seq![lo, hi]);
    r
}

/// Decodes a line of code pairs into samples, in order.
pub fn decode_samples(inbuf: &[u8]) -> (r: Vec<i16>)
    ensures
        r@ == samples_of(inbuf@),
{
    let mut r: Vec<i16> = Vec::new();
    let len: usize = inbuf.len();
    let n: usize = len / 2;
    let mut k: usize = 0;
    while k < n
        invariant
            n == inbuf@.len() / 2,
            len == inbuf@.len(),
            2 * n <= len,
            k <= n,
            r@ =~= samples_of(inbuf@).take(k as int),
        decreases n - k,
    {
        let s = decode_sample(inbuf[2 * k], inbuf[2 * k + 1]);
        r.push(s);
        k = k + 1;
    }
    assert(samples_of(inbuf@).take(n as int) =~= samples_of(inbuf@));
    r
}

/// Decodes a line of code pairs and appends each sample's two little-endian
/// bytes to `outq`; a trailing unpaired byte is dropped.
pub fn decode_buffer(inbuf: &[u8], outq: &mut Vec<u8>)
    ensures
        final(outq)@ == old(outq)@ + le_stream(samples_of(inbuf@)),
{
    let len: usize = inbuf.len();
    let n: usize = len / 2;
    let mut k: usize = 0;
    while k < n
        invariant
            n == inbuf@.len() / 2,
            len == inbuf@.len(),
            2 * n <= len,
            k <= n,
            outq@ == old(outq)@ + le_stream(samples_of(inbuf@).take(k as int)),
        decreases n - k,
    {
        let s = decode_sample(inbuf[2 * k], inbuf[2 * k + 1]);
        let bytes = sample_to_le(s);
        outq.push(bytes[0]);
        outq.push(bytes[1]);
        proof {
            let xs = samples_of(inbuf@);
            assert(xs.take(k + 1).drop_last() =~= xs.take(k as int));
            assert(xs.take(k + 1).last() == s);
        }
        k = k + 1;
    }
    assert(samples_of(inbuf@).take(n as int) =~= samples_of(inbuf@));
}


/// Whether a byte belongs to the transport alphabet.
pub open spec fn in_alphabet(c: u8) -> bool {
    (65 <= c <= 90) || (97 <= c <= 122) || (48 <= c <= 57) || c == 43 || c == 47
}

/// The byte of the alphabet at position `i`: `A..Z`, then `a..z`, then `0..9`, then `+` and `/`.
pub open spec fn alphabet_at(i: int) -> u8
    recommends
        0 <= i < 64,
{
    if i < 26 {
        (65 + i) as u8
    } else if i < 52 {
        (97 + i - 26) as u8
    } else if i < 62 {
        (48 + i - 52) as u8
    } else if i == 62 {
        43
    } else {
        47
    }
}

/// A byte outside the alphabet decodes to symbol 0.
pub proof fn lemma_outside_alphabet_is_zero(b: u8)
    requires
        !in_alphabet(b),
    ensures
        symbol_of(b) == 0,
{
}

/// On the alphabet, decoding is injective, lands in `0..64`, and follows the
/// alphabet's order: the byte at position `i` decodes to `i`.
pub proof fn lemma_alphabet_order(a: u8, b: u8, i: int)
    requires
        in_alphabet(a),
        in_alphabet(b),
        0 <= i < 64,
    ensures
        0 <= symbol_of(a) < 64,
        symbol_of(a) == symbol_of(b) ==> a == b,
        in_alphabet(alphabet_at(i)),
        symbol_of(alphabet_at(i)) == i,
        alphabet_at(symbol_of(a)) == a,
{
}

proof fn lemma_le_stream_len(xs: Seq<i16>)
    ensures
        le_stream(xs).len() == 2 * xs.len(),
    decreases xs.len(),
{
    if xs.len() > 0 {
        lemma_le_stream_len(xs.drop_last());
    }
}

proof fn lemma_le_stream_pair(xs: Seq<i16>, i: int)
    requires
        0 <= i < xs.len(),
    ensures
        le_stream(xs).subrange(2 * i, 2 * i + 2) == le_pair(xs[i]),
    decreases xs.len(),
{
    lemma_le_stream_len(xs);
    lemma_le_stream_len(xs.drop_last());
    let pre = le_stream(xs.drop_last());
    if i == xs.len() - 1 {
        assert(le_stream(xs).subrange(2 * i, 2 * i + 2) =~= le_pair(xs[i]));
    } else {
        lemma_le_stream_pair(xs.drop_last(), i);
        assert(le_stream(xs).subrange(2 * i, 2 * i + 2) =~= pre.subrange(2 * i, 2 * i + 2));
    }
}

/// Decoding a line yields `floor(len / 2)` samples, two bytes each; the bytes at
/// `2i, 2i + 1` are those of the sample decoded from the input pair at `2i, 2i + 1`,
/// so an unpaired last byte contributes nothing.
pub proof fn lemma_decode_buffer_pairs(line: Seq<u8>, i: int)
    requires
        0 <= i < line.len() / 2,
    ensures
        samples_of(line).len() == line.len() / 2,
        le_stream(samples_of(line)).len() == 2 * (line.len() / 2),
        le_stream(samples_of(line)).subrange(2 * i, 2 * i + 2) == le_pair(
            decode_sample_spec(line[2 * i], line[2 * i + 1]),
        ),
{
    lemma_le_stream_len(samples_of(line));
    lemma_le_stream_pair(samples_of(line), i);
}

/// The sample of a code pair, as a 16-bit value.
pub open spec fn decode_sample_spec(low: u8, high: u8) -> i16 {
    sample_of(low, high) as i16
}

} // verus!
