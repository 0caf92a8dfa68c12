//! The canonical byte encoding of a genome, and the colour derived from it.
//!
//! A neuron is a 16-byte record: its pool tag, seven zero bytes, and its index
//! as a little-endian 64-bit integer. A connection is a 40-byte record: the
//! source record, the target record, the weight bits in little-endian order,
//! and four zero bytes. A genome is its connection records in sequence order.
use vstd::prelude::*;

use crate::genome::{Connection, NeuralNetwork, Neuron};
use crate::CONNECTIONS_N;

verus! {

/// Length of a neuron record.
pub const NEURON_RECORD_LEN: usize = 16;

/// Length of a connection record.
pub const CONNECTION_RECORD_LEN: usize = 40;

/// Length of a genome's encoding.
pub const GENOME_BYTES_LEN: usize = CONNECTIONS_N * CONNECTION_RECORD_LEN;

/// `n` zero bytes of padding.
pub open spec fn zeros(n: nat) -> Seq<u8> {
    Seq::new(n, |_i: int| 0u8)
}

/// Little-endian bytes of a 64-bit integer.
pub open spec fn le_u64(v: u64) -> Seq<u8> {
    seq![
        (v & 0xff) as u8,
        ((v >> 8u64) & 0xff) as u8,
        ((v >> 16u64) & 0xff) as u8,
        ((v >> 24u64) & 0xff) as u8,
        ((v >> 32u64) & 0xff) as u8,
        ((v >> 40u64) & 0xff) as u8,
        ((v >> 48u64) & 0xff) as u8,
        ((v >> 56u64) & 0xff) as u8,
    ]
}

/// Little-endian bytes of a 32-bit integer.
pub open spec fn le_u32(v: u32) -> Seq<u8> {
    seq![
        (v & 0xff) as u8,
        ((v >> 8u32) & 0xff) as u8,
        ((v >> 16u32) & 0xff) as u8,
        ((v >> 24u32) & 0xff) as u8,
    ]
}

/// The 16-byte record of a neuron.
pub open spec fn neuron_record(n: Neuron) -> Seq<u8> {
    seq![n.discriminant()] + zeros(7) + le_u64(n.value() as u64)
}

/// The 40-byte record of a connection.
pub open spec fn connection_record(c: Connection) -> Seq<u8> {
    neuron_record(c.from) + neuron_record(c.to) + le_u32(c.weight_bits) + zeros(4)
}

/// The records of a sequence of connections, concatenated in order.
pub open spec fn connection_records(s: Seq<Connection>) -> Seq<u8>
    decreases s.len(),
{
    if s.len() == 0 {
        Seq::empty()
    } else {
        connection_records(s.drop_last()) + connection_record(s.last())
    }
}

/// The canonical encoding of a genome.
pub open spec fn genome_bytes(g: NeuralNetwork) -> Seq<u8> {
    connection_records(g.connections@)
}

/// One connection record's contribution to a colour channel
/// (0 red, 1 green, 2 blue); `base` is where the record starts.
pub open spec fn record_channel(b: Seq<u8>, base: int, channel: int) -> int {
    if channel == 0 {
        (b[base] + b[base + 8] + b[base + 16]) / 3
    } else if channel == 1 {
        (b[base + 24] + b[base + 32] + b[base + 33]) / 3
    } else {
        (b[base + 34] + b[base + 35]) / 2
    }
}

/// Sum of a channel's contributions over the first `k` connection records.
pub open spec fn channel_total(b: Seq<u8>, k: nat, channel: int) -> int
    decreases k,
{
    if k == 0 {
        0
    } else {
        channel_total(b, (k - 1) as nat, channel) + record_channel(
            b,
            40 * (k - 1),
            channel,
        )
    }
}

/// The colour of an encoded genome: each channel is the mean of its
/// per-connection contributions.
pub open spec fn color_of_bytes(b: Seq<u8>) -> (u8, u8, u8) {
    (
        (channel_total(b, 8, 0) / 8) as u8,
        (channel_total(b, 8, 1) / 8) as u8,
        (channel_total(b, 8, 2) / 8) as u8,
    )
}

fn push_zeros(out: &mut Vec<u8>, n: usize)
    ensures
        final(out)@ == old(out)@ + zeros(n as nat),
{
    let ghost start = out@;
    let mut i: usize = 0;
    while i < n
        invariant
            i <= n,
            out@ == start + zeros(i as nat),
        decreases n - i,
    {
        out.push(0u8);
        i += 1;
        assert(out@ =~= start + zeros(i as nat));
    }
}

fn push_u64_le(out: &mut Vec<u8>, v: u64)
    ensures
        final(out)@ == old(out)@ + le_u64(v),
{
    let ghost start = out@;
    out.push((v & 0xff) as u8);
    out.push(((v >> 8u64) & 0xff) as u8);
    out.push(((v >> 16u64) & 0xff) as u8);
    out.push(((v >> 24u64) & 0xff) as u8);
    out.push(((v >> 32u64) & 0xff) as u8);
    out.push(((v >> 40u64) & 0xff) as u8);
    out.push(((v >> 48u64) & 0xff) as u8);
    out.push(((v >> 56u64) & 0xff) as u8);
    assert(out@ =~= start + le_u64(v));
}

fn push_u32_le(out: &mut Vec<u8>, v: u32)
    ensures
        final(out)@ == old(out)@ + le_u32(v),
{
    let ghost start = out@;
    out.push((v & 0xff) as u8);
    out.push(((v >> 8u32) & 0xff) as u8);
    out.push(((v >> 16u32) & 0xff) as u8);
    out.push(((v >> 24u32) & 0xff) as u8);
    assert(out@ =~= start + le_u32(v));
}

impl Neuron {
    /// Appends this neuron's record.
    pub fn write_bytes(&self, out: &mut Vec<u8>)
        ensures
            final(out)@ == old(out)@ + neuron_record(*self),
    {
        let ghost start = out@;
        out.push(self.get_discriminant());
        push_zeros(out, 7);
        push_u64_le(out, self.get_value() as u64);
        assert(out@ =~= start + neuron_record(*self));
    }

    /// This neuron's record.
    pub fn to_bytes(&self) -> (r: Vec<u8>)
        ensures
            r@ == neuron_record(*self),
    {
        let mut out: Vec<u8> = Vec::new();
        self.write_bytes(&mut out);
        assert(out@ =~= neuron_record(*self));
        out
    }
}

impl Connection {
    /// Appends this connection's record.
    pub fn write_bytes(&self, out: &mut Vec<u8>)
        ensures
            final(out)@ == old(out)@ + connection_record(*self),
    {
        let ghost start = out@;
        self.from.write_bytes(out);
        self.to.write_bytes(out);
        push_u32_le(out, self.weight_bits);
        push_zeros(out, 4);
        assert(out@ =~= start + connection_record(*self));
    }

    /// This connection's record.
    pub fn to_bytes(&self) -> (r: Vec<u8>)
        ensures
            r@ == connection_record(*self),
    {
        let mut out: Vec<u8> = Vec::new();
        self.write_bytes(&mut out);
        assert(out@ =~= connection_record(*self));
        out
    }
}

impl NeuralNetwork {
    /// The canonical encoding: the connection records in sequence order.
    pub fn all_bytes(&self) -> (r: Vec<u8>)
        ensures
            r@ == genome_bytes(*self),
            r@.len() == GENOME_BYTES_LEN,
    {
        let mut v: Vec<u8> = Vec::with_capacity(GENOME_BYTES_LEN);
        let ghost s = self.connections@;
        let mut i: usize = 0;
        while i < CONNECTIONS_N
            invariant
                i <= CONNECTIONS_N,
                s == self.connections@,
                s.len() == CONNECTIONS_N,
                v@ == connection_records(s.take(i as int)),
            decreases CONNECTIONS_N - i,
        {
            self.connections[i].write_bytes(&mut v);
            assert(s.take(i + 1).drop_last() =~= s.take(i as int));
            i += 1;
        }
        assert(s.take(CONNECTIONS_N as int) =~= s);
        proof {
            lemma_records_len(s);
        }
        v
    }

    /// The display colour, derived from the canonical encoding alone.
    pub fn color(&self) -> (r: (u8, u8, u8))
        ensures
            r == color_of_bytes(genome_bytes(*self)),
    {
        let bytes = self.all_bytes();
        let mut sum_r: u16 = 0;
        let mut sum_g: u16 = 0;
        let mut sum_b: u16 = 0;
        let mut k: usize = 0;
        while k < CONNECTIONS_N
            invariant
                k <= CONNECTIONS_N,
                bytes@.len() == GENOME_BYTES_LEN,
                sum_r == channel_total(bytes@, k as nat, 0),
                sum_g == channel_total(bytes@, k as nat, 1),
                sum_b == channel_total(bytes@, k as nat, 2),
                sum_r <= 255 * k,
                sum_g <= 255 * k,
                sum_b <= 255 * k,
            decreases CONNECTIONS_N - k,
        {
            let base = k * CONNECTION_RECORD_LEN;
            sum_r = sum_r + (bytes[base] as u16 + bytes[base + 8] as u16 + bytes[base + 16] as u16)
                / 3;
            sum_g = sum_g + (bytes[base + 24] as u16 + bytes[base + 32] as u16 + bytes[base
                + 33] as u16) / 3;
            sum_b = sum_b + (bytes[base + 34] as u16 + bytes[base + 35] as u16) / 2;
            k += 1;
        }
        ((sum_r / 8) as u8, (sum_g / 8) as u8, (sum_b / 8) as u8)
    }
}

/// Each connection contributes one 40-byte record.
pub proof fn lemma_records_len(s: Seq<Connection>)
    ensures
        connection_records(s).len() == 40 * s.len(),
    decreases s.len(),
{
    if s.len() > 0 {
        lemma_records_len(s.drop_last());
    }
}

/// Two genomes have the same encoding exactly when they are the same genome:
/// equal connection sequences encode alike, and a difference in any
/// connection's weight, endpoint kind or endpoint index changes the encoding.
pub proof fn lemma_encoding_identifies_genome(g: NeuralNetwork, h: NeuralNetwork)
    ensures
        (genome_bytes(g) == genome_bytes(h)) <==> (g == h),
{
    broadcast use vstd::array::group_array_axioms;

    if genome_bytes(g) == genome_bytes(h) {
        lemma_records_injective(g.connections@, h.connections@);
        assert(g.connections =~= h.connections);
    }
}

proof fn lemma_le_u64_injective(a: u64, b: u64)
    requires
        le_u64(a) == le_u64(b),
    ensures
        a == b,
{
    assert(le_u64(a)[0] == le_u64(b)[0]);
    assert(le_u64(a)[1] == le_u64(b)[1]);
    assert(le_u64(a)[2] == le_u64(b)[2]);
    assert(le_u64(a)[3] == le_u64(b)[3]);
    assert(le_u64(a)[4] == le_u64(b)[4]);
    assert(le_u64(a)[5] == le_u64(b)[5]);
    assert(le_u64(a)[6] == le_u64(b)[6]);
    assert(le_u64(a)[7] == le_u64(b)[7]);
    assert(a & 0xff <= 0xff && (a >> 8u64) & 0xff <= 0xff && (a >> 16u64) & 0xff <= 0xff && (a
        >> 24u64) & 0xff <= 0xff && (a >> 32u64) & 0xff <= 0xff && (a >> 40u64) & 0xff <= 0xff
        && (a >> 48u64) & 0xff <= 0xff && (a >> 56u64) & 0xff <= 0xff) by (bit_vector);
    assert(b & 0xff <= 0xff && (b >> 8u64) & 0xff <= 0xff && (b >> 16u64) & 0xff <= 0xff && (b
        >> 24u64) & 0xff <= 0xff && (b >> 32u64) & 0xff <= 0xff && (b >> 40u64) & 0xff <= 0xff
        && (b >> 48u64) & 0xff <= 0xff && (b >> 56u64) & 0xff <= 0xff) by (bit_vector);
    assert(a == b) by (bit_vector)
        requires
            a & 0xff == b & 0xff,
            (a >> 8u64) & 0xff == (b >> 8u64) & 0xff,
            (a >> 16u64) & 0xff == (b >> 16u64) & 0xff,
            (a >> 24u64) & 0xff == (b >> 24u64) & 0xff,
            (a >> 32u64) & 0xff == (b >> 32u64) & 0xff,
            (a >> 40u64) & 0xff == (b >> 40u64) & 0xff,
            (a >> 48u64) & 0xff == (b >> 48u64) & 0xff,
            (a >> 56u64) & 0xff == (b >> 56u64) & 0xff,
    ;
}

proof fn lemma_le_u32_injective(a: u32, b: u32)
    requires
        le_u32(a) == le_u32(b),
    ensures
        a == b,
{
    assert(le_u32(a)[0] == le_u32(b)[0]);
    assert(le_u32(a)[1] == le_u32(b)[1]);
    assert(le_u32(a)[2] == le_u32(b)[2]);
    assert(le_u32(a)[3] == le_u32(b)[3]);
    assert(a & 0xff <= 0xff && (a >> 8u32) & 0xff <= 0xff && (a >> 16u32) & 0xff <= 0xff && (a
        >> 24u32) & 0xff <= 0xff) by (bit_vector);
    assert(b & 0xff <= 0xff && (b >> 8u32) & 0xff <= 0xff && (b >> 16u32) & 0xff <= 0xff && (b
        >> 24u32) & 0xff <= 0xff) by (bit_vector);
    assert(a == b) by (bit_vector)
        requires
            a & 0xff == b & 0xff,
            (a >> 8u32) & 0xff == (b >> 8u32) & 0xff,
            (a >> 16u32) & 0xff == (b >> 16u32) & 0xff,
            (a >> 24u32) & 0xff == (b >> 24u32) & 0xff,
    ;
}

proof fn lemma_neuron_record_injective(m: Neuron, n: Neuron)
    requires
        neuron_record(m) == neuron_record(n),
    ensures
        m == n,
{
    let rm = neuron_record(m);
    let rn = neuron_record(n);
    assert(rm[0] == m.discriminant());
    assert(rn[0] == n.discriminant());
    assert(rm.subrange(8, 16) =~= le_u64(m.value() as u64));
    assert(rn.subrange(8, 16) =~= le_u64(n.value() as u64));
    lemma_le_u64_injective(m.value() as u64, n.value() as u64);
}

proof fn lemma_connection_record_injective(c: Connection, d: Connection)
    requires
        connection_record(c) == connection_record(d),
    ensures
        c == d,
{
    let rc = connection_record(c);
    let rd = connection_record(d);
    assert(rc.subrange(0, 16) =~= neuron_record(c.from));
    assert(rd.subrange(0, 16) =~= neuron_record(d.from));
    assert(rc.subrange(16, 32) =~= neuron_record(c.to));
    assert(rd.subrange(16, 32) =~= neuron_record(d.to));
    assert(rc.subrange(32, 36) =~= le_u32(c.weight_bits));
    assert(rd.subrange(32, 36) =~= le_u32(d.weight_bits));
    lemma_neuron_record_injective(c.from, d.from);
    lemma_neuron_record_injective(c.to, d.to);
    lemma_le_u32_injective(c.weight_bits, d.weight_bits);
}

proof fn lemma_records_injective(s: Seq<Connection>, t: Seq<Connection>)
    requires
        connection_records(s) == connection_records(t),
        s.len() == t.len(),
    ensures
        s == t,
    decreases s.len(),
{
    if s.len() > 0 {
        let n = 40 * (s.len() - 1);
        lemma_records_len(s.drop_last());
        lemma_records_len(t.drop_last());
        let rs = connection_records(s);
        let rt = connection_records(t);
        assert(rs.subrange(0, n) =~= connection_records(s.drop_last()));
        assert(rt.subrange(0, n) =~= connection_records(t.drop_last()));
        assert(rs.subrange(n, n + 40) =~= connection_record(s.last()));
        assert(rt.subrange(n, n + 40) =~= connection_record(t.last()));
        lemma_records_injective(s.drop_last(), t.drop_last());
        lemma_connection_record_injective(s.last(), t.last());
        assert(s =~= s.drop_last().push(s.last()));
        assert(t =~= t.drop_last().push(t.last()));
    }
}

} // verus!
