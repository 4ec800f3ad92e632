//! Running byte counts of the server, overall and per kind of transform.
//!
//! Every counter wraps around on overflow.  Each kind of transform keeps the
//! bytes received and sent for it and a ratio between the two; the ratio is
//! worked out by a function that the caller supplies (the service works it
//! out in floating point, which stays outside this crate) and is only
//! refreshed while the count of bytes sent is not zero.
use vstd::prelude::*;

verus! {

/// `a + b` modulo 2^64.
pub open spec fn wrapping_sum(a: u64, b: u64) -> u64 {
    ((a as int + b as int) % 0x1_0000_0000_0000_0000int) as u64
}

/// The counts of one kind of transform.
pub struct ChannelView {
    pub sent: u64,
    pub rcv: u64,
    pub ratio: u8,
}

/// The abstract value of the statistics.
pub struct StatsView {
    pub bytes_sent: u64,
    pub bytes_received: u64,
    pub compression: ChannelView,
    pub decompression: ChannelView,
    pub encode: ChannelView,
    pub decode: ChannelView,
}

/// A channel with every count zero.
pub open spec fn zero_channel() -> ChannelView {
    ChannelView { sent: 0, rcv: 0, ratio: 0 }
}

/// Statistics with every count zero.
pub open spec fn zero_stats() -> StatsView {
    StatsView {
        bytes_sent: 0,
        bytes_received: 0,
        compression: zero_channel(),
        decompression: zero_channel(),
        encode: zero_channel(),
        decode: zero_channel(),
    }
}

/// `new` is `old` with `rcv` and `sent` added (wrapping) to its counts; while
/// the count sent is zero, the ratio is kept.
pub open spec fn channel_added(old: ChannelView, new: ChannelView, rcv: u64, sent: u64) -> bool {
    &&& new.sent == wrapping_sum(old.sent, sent)
    &&& new.rcv == wrapping_sum(old.rcv, rcv)
    &&& new.sent == 0 ==> new.ratio == old.ratio
}

/// The ratio of `c` is one that `ratio` may return for its counts, whenever
/// the count sent is not zero.
pub open spec fn ratio_from<F: Fn(u64, u64) -> u8>(c: ChannelView, ratio: F) -> bool {
    c.sent != 0 ==> call_ensures(ratio, (c.rcv, c.sent), c.ratio)
}

/// `ratio` may be called on any counts whose count sent is not zero.
pub open spec fn ratio_callable<F: Fn(u64, u64) -> u8>(ratio: F) -> bool {
    forall|r: u64, s: u64| s != 0 ==> #[trigger] call_requires(ratio, (r, s))
}

pub struct ServerStats {
    bytes_sent: u64,
    bytes_received: u64,
    compress_sent: u64,
    compress_rcv: u64,
    decompress_sent: u64,
    decompress_rcv: u64,
    compression_ratio: u8,
    decompression_ratio: u8,
    encode_ratio: u8,
    decode_ratio: u8,
    encode_sent: u64,
    encode_rcv: u64,
    decode_sent: u64,
    decode_rcv: u64,
}

impl View for ServerStats {
    type V = StatsView;

    closed spec fn view(&self) -> StatsView {
        StatsView {
            bytes_sent: self.bytes_sent,
            bytes_received: self.bytes_received,
            compression: ChannelView {
                sent: self.compress_sent,
                rcv: self.compress_rcv,
                ratio: self.compression_ratio,
            },
            decompression: ChannelView {
                sent: self.decompress_sent,
                rcv: self.decompress_rcv,
                ratio: self.decompression_ratio,
            },
            encode: ChannelView {
                sent: self.encode_sent,
                rcv: self.encode_rcv,
                ratio: self.encode_ratio,
            },
            decode: ChannelView {
                sent: self.decode_sent,
                rcv: self.decode_rcv,
                ratio: self.decode_ratio,
            },
        }
    }
}

/// `a + b`, wrapping around on overflow.
fn add_wrapping(a: u64, b: u64) -> (r: u64)
    ensures
        r == wrapping_sum(a, b),
{
    if a.checked_add(b).is_some() {
        a + b
    } else {
        a.wrapping_add(b)
    }
}

/// Adds `rcv` and `sent` to the counts of one channel and refreshes its
/// ratio when the count sent is not zero.
fn add_channel<F: Fn(u64, u64) -> u8>(
    sent_total: u64,
    rcv_total: u64,
    old_ratio: u8,
    rcv: u64,
    sent: u64,
    ratio: &F,
) -> (r: (u64, u64, u8))
    requires
        ratio_callable(*ratio),
    ensures
        channel_added(
            ChannelView { sent: sent_total, rcv: rcv_total, ratio: old_ratio },
            ChannelView { sent: r.0, rcv: r.1, ratio: r.2 },
            rcv,
            sent,
        ),
        ratio_from(ChannelView { sent: r.0, rcv: r.1, ratio: r.2 }, *ratio),
{
    let new_sent = add_wrapping(sent_total, sent);
    let new_rcv = add_wrapping(rcv_total, rcv);
    if new_rcv.checked_div(new_sent).is_some() {
        let q = ratio(new_rcv, new_sent);
        (new_sent, new_rcv, q)
    } else {
        (new_sent, new_rcv, old_ratio)
    }
}

impl ServerStats {
    /// Statistics with every count zero.
    pub fn new() -> (s: ServerStats)
        ensures
            s@ == zero_stats(),
    {
        ServerStats {
            bytes_sent: 0,
            bytes_received: 0,
            compress_sent: 0,
            compress_rcv: 0,
            compression_ratio: 0,
            decompress_sent: 0,
            decompress_rcv: 0,
            decompression_ratio: 0,
            encode_sent: 0,
            encode_rcv: 0,
            encode_ratio: 0,
            decode_sent: 0,
            decode_rcv: 0,
            decode_ratio: 0,
        }
    }

    /// Bytes sent, bytes received, and the compression, decompression,
    /// encode and decode ratios.
    pub fn get_stats(&self) -> (r: (u64, u64, u8, u8, u8, u8))
        ensures
            r == (
                self@.bytes_sent,
                self@.bytes_received,
                self@.compression.ratio,
                self@.decompression.ratio,
                self@.encode.ratio,
                self@.decode.ratio,
            ),
    {
        (
            self.bytes_sent,
            self.bytes_received,
            self.compression_ratio,
            self.decompression_ratio,
            self.encode_ratio,
            self.decode_ratio,
        )
    }

    /// Counts `rcv` bytes received and `sent` bytes sent for a compression.
    pub fn add_compression_data<F: Fn(u64, u64) -> u8>(&mut self, rcv: u64, sent: u64, ratio: F)
        requires
            ratio_callable(ratio),
        ensures
            channel_added(old(self)@.compression, final(self)@.compression, rcv, sent),
            ratio_from(final(self)@.compression, ratio),
            final(self)@ == (StatsView { compression: final(self)@.compression, ..old(self)@ }),
    {
        let (s, r, q) = add_channel(
            self.compress_sent,
            self.compress_rcv,
            self.compression_ratio,
            rcv,
            sent,
            &ratio,
        );
        self.compress_sent = s;
        self.compress_rcv = r;
        self.compression_ratio = q;
    }

    /// Counts `rcv` bytes received and `sent` bytes sent for a decompression.
    pub fn add_decompression_data<F: Fn(u64, u64) -> u8>(&mut self, rcv: u64, sent: u64, ratio: F)
        requires
            ratio_callable(ratio),
        ensures
            channel_added(old(self)@.decompression, final(self)@.decompression, rcv, sent),
            ratio_from(final(self)@.decompression, ratio),
            final(self)@ == (StatsView { decompression: final(self)@.decompression, ..old(self)@ }),
    {
        let (s, r, q) = add_channel(
            self.decompress_sent,
            self.decompress_rcv,
            self.decompression_ratio,
            rcv,
            sent,
            &ratio,
        );
        self.decompress_sent = s;
        self.decompress_rcv = r;
        self.decompression_ratio = q;
    }

    /// Counts `rcv` bytes received and `sent` bytes sent for a decoding.
    pub fn add_decode_data<F: Fn(u64, u64) -> u8>(&mut self, rcv: u64, sent: u64, ratio: F)
        requires
            ratio_callable(ratio),
        ensures
            channel_added(old(self)@.decode, final(self)@.decode, rcv, sent),
            ratio_from(final(self)@.decode, ratio),
            final(self)@ == (StatsView { decode: final(self)@.decode, ..old(self)@ }),
    {
        let (s, r, q) = add_channel(
            self.decode_sent,
            self.decode_rcv,
            self.decode_ratio,
            rcv,
            sent,
            &ratio,
        );
        self.decode_sent = s;
        self.decode_rcv = r;
        self.decode_ratio = q;
    }

    /// Counts `rcv` bytes received and `sent` bytes sent for an encoding.
    pub fn add_encode_data<F: Fn(u64, u64) -> u8>(&mut self, rcv: u64, sent: u64, ratio: F)
        requires
            ratio_callable(ratio),
        ensures
            channel_added(old(self)@.encode, final(self)@.encode, rcv, sent),
            ratio_from(final(self)@.encode, ratio),
            final(self)@ == (StatsView { encode: final(self)@.encode, ..old(self)@ }),
    {
        let (s, r, q) = add_channel(
            self.encode_sent,
            self.encode_rcv,
            self.encode_ratio,
            rcv,
            sent,
            &ratio,
        );
        self.encode_sent = s;
        self.encode_rcv = r;
        self.encode_ratio = q;
    }

    /// Sets every count back to zero.
    pub fn reset_stats(&mut self)
        ensures
            final(self)@ == zero_stats(),
    {
        self.bytes_sent = 0;
        self.bytes_received = 0;
        self.compress_rcv = 0;
        self.compress_sent = 0;
        self.compression_ratio = 0;
        self.decompress_rcv = 0;
        self.decompress_sent = 0;
        self.decompression_ratio = 0;
        self.encode_rcv = 0;
        self.encode_sent = 0;
        self.encode_ratio = 0;
        self.decode_rcv = 0;
        self.decode_sent = 0;
        self.decode_ratio = 0;
    }

    /// Adds to the overall counts of bytes sent and received.
    pub fn update_stats(&mut self, update_sent: u64, update_recv: u64)
        ensures
            final(self)@ == (StatsView {
                bytes_sent: wrapping_sum(old(self)@.bytes_sent, update_sent),
                bytes_received: wrapping_sum(old(self)@.bytes_received, update_recv),
                ..old(self)@
            }),
    {
        self.bytes_sent = add_wrapping(self.bytes_sent, update_sent);
        self.bytes_received = add_wrapping(self.bytes_received, update_recv);
    }
}

/// Counts do not depend on the order in which amounts are added.
pub proof fn lemma_counts_commute(x: u64, a: u64, b: u64)
    ensures
        wrapping_sum(wrapping_sum(x, a), b) == wrapping_sum(wrapping_sum(x, b), a),
{
}

/// A wrapping sum is the plain sum when that fits in 64 bits, and the sum
/// less 2^64 when it does not.
pub proof fn lemma_wrapping_sum(a: u64, b: u64)
    ensures
        a + b <= u64::MAX ==> wrapping_sum(a, b) == a + b,
        a + b > u64::MAX ==> wrapping_sum(a, b) == a + b - 0x1_0000_0000_0000_0000int,
{
}

} // verus!
