//! Turns color channel values into the SPI byte stream of a strip update.
use crate::timings::{ChannelOrder, TimingModel, TimingTable};
use vstd::prelude::*;

verus! {

/// Bit `i` of `b`, counted from the most significant bit (`i` in `0..8`).
pub open spec fn bit_at(b: u8, i: int) -> bool {
    (b >> ((7 - i) as u8)) & 1u8 == 1u8
}

/// The pattern that stands for one data bit.
pub open spec fn pattern_for(t: TimingModel, bit: bool) -> Seq<u8> {
    if bit {
        t.one
    } else {
        t.zero
    }
}

/// The patterns of the first `n` bits of `b`, most significant first.
pub open spec fn bit_patterns(t: TimingModel, b: u8, n: nat) -> Seq<Seq<u8>> {
    Seq::new(n, |i: int| pattern_for(t, bit_at(b, i)))
}

/// Encoding of one byte: the patterns of its eight bits, most significant first.
pub open spec fn spec_encode_byte(t: TimingModel, b: u8) -> Seq<u8> {
    bit_patterns(t, b, 8).flatten()
}

/// `s` repeated `n` times.
pub open spec fn repeat(s: Seq<u8>, n: nat) -> Seq<u8> {
    Seq::new(n, |i: int| s).flatten()
}

/// The channels of `(r, g, b)` in the order the chip takes them.
pub open spec fn ordered_channels(order: ChannelOrder, c: (u8, u8, u8)) -> Seq<u8> {
    match order {
        ChannelOrder::Grb => seq![c.1, c.0, c.2],
        ChannelOrder::Rgb => seq![c.0, c.1, c.2],
    }
}

/// Encoding of one pixel: its three channels in the table's order.
pub open spec fn spec_encode_color(t: TimingModel, c: (u8, u8, u8)) -> Seq<u8> {
    let ch = ordered_channels(t.order, c);
    spec_encode_byte(t, ch[0]) + spec_encode_byte(t, ch[1]) + spec_encode_byte(t, ch[2])
}

/// Encodings of the pixels, in strip order.
pub open spec fn encode_pixels(t: TimingModel, colors: Seq<(u8, u8, u8)>) -> Seq<u8> {
    colors.map_values(|c: (u8, u8, u8)| spec_encode_color(t, c)).flatten()
}

/// A full frame: every pixel in strip order, then the latch padding.
pub open spec fn spec_encode_strip(t: TimingModel, colors: Seq<(u8, u8, u8)>) -> Seq<u8> {
    encode_pixels(t, colors) + Seq::new(t.reset, |i: int| 0u8)
}

/// A flattened sequence of blocks of length `k` has length `n * k`.
pub proof fn lemma_flatten_uniform_len(s: Seq<Seq<u8>>, k: nat)
    requires
        forall|i: int| 0 <= i < s.len() ==> (#[trigger] s[i]).len() == k,
    ensures
        s.flatten().len() == s.len() * k,
    decreases s.len(),
{
    if s.len() > 0 {
        lemma_flatten_uniform_len(s.drop_first(), k);
        assert(s.drop_first().len() * k + k == s.len() * k) by (nonlinear_arith)
            requires s.drop_first().len() + 1 == s.len();
    }
}

/// Two sequences of blocks of one length that flatten to the same sequence
/// are equal.
pub proof fn lemma_flatten_uniform_injective(s1: Seq<Seq<u8>>, s2: Seq<Seq<u8>>, k: nat)
    requires
        s1.len() == s2.len(),
        forall|i: int| 0 <= i < s1.len() ==> (#[trigger] s1[i]).len() == k,
        forall|i: int| 0 <= i < s2.len() ==> (#[trigger] s2[i]).len() == k,
        s1.flatten() == s2.flatten(),
    ensures
        s1 == s2,
    decreases s1.len(),
{
    if s1.len() > 0 {
        let h1 = s1.first();
        let h2 = s2.first();
        assert(s1.flatten() == h1 + s1.drop_first().flatten());
        assert(s2.flatten() == h2 + s2.drop_first().flatten());
        assert(h1 =~= s1.flatten().subrange(0, k as int));
        assert(h2 =~= s2.flatten().subrange(0, k as int));
        assert(s1.drop_first().flatten() =~= s1.flatten().subrange(k as int, s1.flatten().len() as int));
        assert(s2.drop_first().flatten() =~= s2.flatten().subrange(k as int, s2.flatten().len() as int));
        lemma_flatten_uniform_injective(s1.drop_first(), s2.drop_first(), k);
        assert(s1 =~= seq![h1] + s1.drop_first());
        assert(s2 =~= seq![h2] + s2.drop_first());
    } else {
        assert(s1 =~= s2);
    }
}

/// Appends `pat` to `out`.
fn push_pattern(out: &mut Vec<u8>, pat: &Vec<u8>)
    ensures
        final(out)@ == old(out)@ + pat@,
{
    let mut i: usize = 0;
    while i < pat.len()
        invariant
            i <= pat@.len(),
            out@ == old(out)@ + pat@.subrange(0, i as int),
        decreases pat@.len() - i,
    {
        out.push(pat[i]);
        i += 1;
        assert(pat@.subrange(0, i as int) =~= pat@.subrange(0, i - 1 as int).push(pat@[i - 1]));
    }
    assert(pat@.subrange(0, i as int) =~= pat@);
}

/// Appends the encoding of `b` to `out`.
fn push_encoded_byte(out: &mut Vec<u8>, table: &TimingTable, b: u8)
    ensures
        final(out)@ == old(out)@ + spec_encode_byte(table@, b),
{
    let mut i: u8 = 0;
    while i < 8
        invariant
            i <= 8,
            out@ == old(out)@ + bit_patterns(table@, b, i as nat).flatten(),
        decreases 8 - i,
    {
        let bit = (b >> (7 - i)) & 1 == 1;
        if bit {
            push_pattern(out, &table.one_pattern);
        } else {
            push_pattern(out, &table.zero_pattern);
        }
        proof {
            let t = table@;
            assert(bit_patterns(t, b, (i + 1) as nat) =~= bit_patterns(t, b, i as nat).push(
                pattern_for(t, bit_at(b, i as int)),
            ));
            bit_patterns(t, b, i as nat).lemma_flatten_push(pattern_for(t, bit_at(b, i as int)));
        }
        i += 1;
    }
}

/// The SPI bytes for one channel value: for each of its eight bits, most
/// significant first, the table's pattern for 1 or for 0.
pub fn encode_byte(table: &TimingTable, b: u8) -> (r: Vec<u8>)
    requires
        table@.wf(),
    ensures
        r@ == spec_encode_byte(table@, b),
        r@.len() == 8 * table@.bytes_per_data_bit(),
{
    let mut out: Vec<u8> = Vec::new();
    push_encoded_byte(&mut out, table, b);
    proof {
        lemma_encode_byte_len(table@, b);
        assert(out@ =~= spec_encode_byte(table@, b));
    }
    out
}

/// Every byte encodes to `8 * bytes_per_data_bit` transport bytes.
pub proof fn lemma_encode_byte_len(t: TimingModel, b: u8)
    requires
        t.wf(),
    ensures
        spec_encode_byte(t, b).len() == 8 * t.bytes_per_data_bit(),
{
    lemma_flatten_uniform_len(bit_patterns(t, b, 8), t.bytes_per_data_bit());
}

/// A byte is determined by its eight bits.
proof fn lemma_bits_determine_byte(b1: u8, b2: u8)
    requires
        forall|i: int| 0 <= i < 8 ==> bit_at(b1, i) == bit_at(b2, i),
    ensures
        b1 == b2,
{
    assert(bit_at(b1, 0) == bit_at(b2, 0));
    assert(bit_at(b1, 1) == bit_at(b2, 1));
    assert(bit_at(b1, 2) == bit_at(b2, 2));
    assert(bit_at(b1, 3) == bit_at(b2, 3));
    assert(bit_at(b1, 4) == bit_at(b2, 4));
    assert(bit_at(b1, 5) == bit_at(b2, 5));
    assert(bit_at(b1, 6) == bit_at(b2, 6));
    assert(bit_at(b1, 7) == bit_at(b2, 7));
    assert(b1 == b2) by (bit_vector)
        requires
            ((b1 >> 7u8) & 1u8 == 1u8) == ((b2 >> 7u8) & 1u8 == 1u8),
            ((b1 >> 6u8) & 1u8 == 1u8) == ((b2 >> 6u8) & 1u8 == 1u8),
            ((b1 >> 5u8) & 1u8 == 1u8) == ((b2 >> 5u8) & 1u8 == 1u8),
            ((b1 >> 4u8) & 1u8 == 1u8) == ((b2 >> 4u8) & 1u8 == 1u8),
            ((b1 >> 3u8) & 1u8 == 1u8) == ((b2 >> 3u8) & 1u8 == 1u8),
            ((b1 >> 2u8) & 1u8 == 1u8) == ((b2 >> 2u8) & 1u8 == 1u8),
            ((b1 >> 1u8) & 1u8 == 1u8) == ((b2 >> 1u8) & 1u8 == 1u8),
            ((b1 >> 0u8) & 1u8 == 1u8) == ((b2 >> 0u8) & 1u8 == 1u8),
    ;
}

/// Distinct byte values never share an encoding.
pub proof fn lemma_encode_byte_injective(t: TimingModel, b1: u8, b2: u8)
    requires
        t.wf(),
        b1 != b2,
    ensures
        spec_encode_byte(t, b1) != spec_encode_byte(t, b2),
{
    if spec_encode_byte(t, b1) == spec_encode_byte(t, b2) {
        let s1 = bit_patterns(t, b1, 8);
        let s2 = bit_patterns(t, b2, 8);
        lemma_flatten_uniform_injective(s1, s2, t.bytes_per_data_bit());
        assert forall|i: int| 0 <= i < 8 implies bit_at(b1, i) == bit_at(b2, i) by {
            assert(s1[i] == s2[i]);
        }
        lemma_bits_determine_byte(b1, b2);
    }
}

/// `0x00` encodes to the zero pattern eight times, `0xFF` to the one pattern
/// eight times.
pub proof fn lemma_encode_byte_extremes(t: TimingModel)
    ensures
        spec_encode_byte(t, 0x00u8) == repeat(t.zero, 8),
        spec_encode_byte(t, 0xFFu8) == repeat(t.one, 8),
{
    assert forall|i: int| 0 <= i < 8 implies !bit_at(0x00u8, i) && bit_at(0xFFu8, i) by {
        let s = (7 - i) as u8;
        assert(s < 8);
        assert((0x00u8 >> s) & 1u8 == 0u8 && (0xFFu8 >> s) & 1u8 == 1u8) by (bit_vector)
            requires s < 8u8;
    }
    assert(bit_patterns(t, 0x00u8, 8) =~= Seq::new(8, |i: int| t.zero));
    assert(bit_patterns(t, 0xFFu8, 8) =~= Seq::new(8, |i: int| t.one));
}

/// Appends the encoding of one pixel to `out`.
fn push_encoded_color(out: &mut Vec<u8>, table: &TimingTable, c: (u8, u8, u8))
    ensures
        final(out)@ == old(out)@ + spec_encode_color(table@, c),
{
    let (r, g, b) = c;
    let (first, second, third) = match table.channel_order {
        ChannelOrder::Grb => (g, r, b),
        ChannelOrder::Rgb => (r, g, b),
    };
    push_encoded_byte(out, table, first);
    push_encoded_byte(out, table, second);
    push_encoded_byte(out, table, third);
    assert(final(out)@ =~= old(out)@ + spec_encode_color(table@, c));
}

/// Every pixel encodes to `24 * bytes_per_data_bit` transport bytes.
pub proof fn lemma_encode_color_len(t: TimingModel, c: (u8, u8, u8))
    requires
        t.wf(),
    ensures
        spec_encode_color(t, c).len() == 24 * t.bytes_per_data_bit(),
{
    let ch = ordered_channels(t.order, c);
    lemma_encode_byte_len(t, ch[0]);
    lemma_encode_byte_len(t, ch[1]);
    lemma_encode_byte_len(t, ch[2]);
}

/// The SPI bytes for one pixel `(r, g, b)`: the encodings of its channels in
/// the order of the table's variant.
pub fn encode_rgb(table: &TimingTable, r: u8, g: u8, b: u8) -> (res: Vec<u8>)
    requires
        table@.wf(),
    ensures
        res@ == spec_encode_color(table@, (r, g, b)),
        res@.len() == 24 * table@.bytes_per_data_bit(),
{
    let mut out: Vec<u8> = Vec::new();
    push_encoded_color(&mut out, table, (r, g, b));
    proof {
        lemma_encode_color_len(table@, (r, g, b));
        assert(out@ =~= spec_encode_color(table@, (r, g, b)));
    }
    out
}

/// The whole frame for a strip: the encodings of the pixels, first pixel
/// (nearest to the data input) first, then `reset_byte_count` zero bytes.
/// The frame is meant to be written to the transport in one piece.
pub fn encode_rgb_slice(table: &TimingTable, data: &[(u8, u8, u8)]) -> (res: Vec<u8>)
    requires
        table@.wf(),
    ensures
        res@ == spec_encode_strip(table@, data@),
        res@.len() == 24 * data@.len() * table@.bytes_per_data_bit() + table@.reset,
{
    let mut out: Vec<u8> = Vec::new();
    let mut i: usize = 0;
    let ghost f = |c: (u8, u8, u8)| spec_encode_color(table@, c);
    while i < data.len()
        invariant
            i <= data@.len(),
            f == (|c: (u8, u8, u8)| spec_encode_color(table@, c)),
            out@ == data@.subrange(0, i as int).map_values(f).flatten(),
        decreases data@.len() - i,
    {
        push_encoded_color(&mut out, table, data[i]);
        proof {
            let pre = data@.subrange(0, i as int).map_values(f);
            assert(data@.subrange(0, i + 1 as int).map_values(f) =~= pre.push(f(data@[i as int])));
            pre.lemma_flatten_push(f(data@[i as int]));
        }
        i += 1;
    }
    assert(data@.subrange(0, i as int) =~= data@);
    let ghost pixels = out@;
    let mut j: u64 = 0;
    while j < table.reset_byte_count
        invariant
            j <= table@.reset,
            out@ == pixels + Seq::new(j as nat, |k: int| 0u8),
        decreases table@.reset - j,
    {
        out.push(0u8);
        j += 1;
        assert(out@ =~= pixels + Seq::new(j as nat, |k: int| 0u8));
    }
    proof {
        lemma_encode_pixels_len(table@, data@);
    }
    out
}

/// The pixels of a strip take `24 * bytes_per_data_bit` transport bytes each.
pub proof fn lemma_encode_pixels_len(t: TimingModel, colors: Seq<(u8, u8, u8)>)
    requires
        t.wf(),
    ensures
        encode_pixels(t, colors).len() == 24 * colors.len() * t.bytes_per_data_bit(),
{
    let f = |c: (u8, u8, u8)| spec_encode_color(t, c);
    let s = colors.map_values(f);
    assert forall|i: int| 0 <= i < s.len() implies (#[trigger] s[i]).len() == 24
        * t.bytes_per_data_bit() by {
        lemma_encode_color_len(t, colors[i]);
    }
    lemma_flatten_uniform_len(s, 24 * t.bytes_per_data_bit());
    assert(colors.len() * (24 * t.bytes_per_data_bit()) == 24 * colors.len()
        * t.bytes_per_data_bit()) by (nonlinear_arith);
}

/// The frame of an empty strip is the latch padding alone: `reset` zero bytes.
pub proof fn lemma_empty_strip(t: TimingModel)
    ensures
        spec_encode_strip(t, Seq::empty()).len() == t.reset,
        forall|i: int| 0 <= i < t.reset ==> #[trigger] spec_encode_strip(t, Seq::empty())[i] == 0u8,
{
    let f = |c: (u8, u8, u8)| spec_encode_color(t, c);
    assert(Seq::<(u8, u8, u8)>::empty().map_values(f) =~= Seq::<Seq<u8>>::empty());
    assert(spec_encode_strip(t, Seq::empty()) =~= Seq::new(t.reset, |i: int| 0u8));
}

/// The frame of a two-pixel strip has room for both pixels and the padding,
/// and begins with the encoding of the first pixel.
pub proof fn lemma_two_pixel_strip(t: TimingModel, c1: (u8, u8, u8), c2: (u8, u8, u8))
    requires
        t.wf(),
    ensures
        spec_encode_strip(t, seq![c1, c2]).len() == 24 * 2 * t.bytes_per_data_bit() + t.reset,
        spec_encode_strip(t, seq![c1, c2]).subrange(0, 24 * t.bytes_per_data_bit() as int)
            == spec_encode_color(t, c1),
{
    let f = |c: (u8, u8, u8)| spec_encode_color(t, c);
    let e1 = spec_encode_color(t, c1);
    let e2 = spec_encode_color(t, c2);
    assert(seq![c1, c2].map_values(f) =~= Seq::<Seq<u8>>::empty().push(e1).push(e2));
    Seq::<Seq<u8>>::empty().lemma_flatten_push(e1);
    Seq::<Seq<u8>>::empty().push(e1).lemma_flatten_push(e2);
    assert(Seq::<Seq<u8>>::empty().flatten() =~= Seq::<u8>::empty());
    lemma_encode_color_len(t, c1);
    lemma_encode_color_len(t, c2);
    let s = spec_encode_strip(t, seq![c1, c2]);
    assert(s =~= e1 + e2 + Seq::new(t.reset, |i: int| 0u8));
    assert(s.subrange(0, 24 * t.bytes_per_data_bit() as int) =~= e1);
    assert(24 * 2 * t.bytes_per_data_bit() == 24 * t.bytes_per_data_bit() + 24
        * t.bytes_per_data_bit()) by (nonlinear_arith);
}

} // verus!
