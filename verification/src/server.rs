//! The decisions of the server: checking an incoming request, working out
//! the response, and keeping the statistics.  The socket work around them
//! (accepting, reading, writing) is done by the caller, which hands the
//! results of each step in.
use vstd::prelude::*;
use crate::message::{header_of, message_of, Message, MessageHeader, MessageView};
use crate::primitives::{decimal_u16, ne_bytes_of, parse_u16_decimal, u64_to_ne_bytes};
use crate::stats::{
    channel_added, ratio_callable, ratio_from, wrapping_sum, zero_stats, ServerStats, StatsView,
};
use crate::transform::Transform;

verus! {

/// The abstract state of a server.
pub struct ServerView {
    pub addr: [u8; 4],
    pub port: u16,
    pub stats: StatsView,
    pub error_state: Option<u16>,
    /// How the server's transform may end: in `direction`, for a payload
    /// `before`, with `after` in the payload and `ok` as whether it
    /// succeeded (the transform's `transform_rel`).
    pub transform: spec_fn(bool, Seq<u8>, Seq<u8>, bool) -> bool,
}

/// What happened when the body of a request was read.
pub enum BodyEvent {
    /// The stream could not be read.
    ReadFailed,
    /// The bytes read do not make a message.
    Undecodable,
    /// The message that was read.
    Decoded(Message),
}

/// A message with no payload whose header carries `code`.
pub open spec fn status_message(code: u16) -> MessageView {
    message_of(0, code, None)
}

/// `resp` is the statistics response for `stats`: bytes sent, bytes
/// received (8 bytes each, in the machine's byte order) and the compression
/// ratio.
pub open spec fn stats_message(stats: StatsView, resp: MessageView) -> bool {
    &&& resp.header == header_of(17, crate::OK)
    &&& resp.payload.len() == 17
    &&& ne_bytes_of(resp.payload.subrange(0, 8), stats.bytes_sent)
    &&& ne_bytes_of(resp.payload.subrange(8, 16), stats.bytes_received)
    &&& resp.payload[16] == stats.compression.ratio
}

/// The status that answers a failed transform for a request of `code`:
/// `OTHER_ERROR` for a decompression, `EINVAL` for any other request.
pub open spec fn failure_status(code: u16) -> u16 {
    if code == 5 {
        crate::OTHER_ERROR
    } else {
        crate::EINVAL
    }
}

/// Whether the server takes a request of `code` that comes with no payload:
/// ping, get and reset, and any code above 4 (which is then answered with
/// `ENOSUP`); a compression, or code 0, must come with a payload.
pub open spec fn takes_without_payload(code: u16) -> bool {
    (1 <= code <= 3) || code > 4
}

/// `new` and `resp` are the state and response after the server answered
/// a transform request of `code` on a payload of `input_len` bytes, given
/// what the transform came back with: `None` when it failed, else the
/// transformed payload.  A failure is answered with `failure_status(code)`; a success with
/// the transformed payload and its length, and for a compression the bytes
/// are counted: the output as received, the input as sent.
pub open spec fn answered<R: Fn(u64, u64) -> u8>(
    old: ServerView,
    new: ServerView,
    code: u16,
    input_len: nat,
    outcome: Option<Seq<u8>>,
    resp: MessageView,
    ratio: R,
) -> bool {
    match outcome {
        None => new == old && resp == status_message(failure_status(code)),
        Some(out) => {
            &&& resp == message_of(out.len() as u16, crate::OK, Some(out))
            &&& if code == 4 {
                &&& new == (ServerView {
                    stats: StatsView { compression: new.stats.compression, ..old.stats },
                    ..old
                })
                &&& channel_added(
                    old.stats.compression,
                    new.stats.compression,
                    out.len() as u64,
                    input_len as u64,
                )
                &&& ratio_from(new.stats.compression, ratio)
            } else {
                new == old
            }
        },
    }
}

/// `new` and `resp` are the state and response after the server generated
/// the response to a request of `code` with `payload`: with no payload, a
/// message with no payload carrying `code`; for a transform request, the
/// answer to some outcome of the transform; any other request is answered
/// with `ENOSUP`.
pub open spec fn generated<R: Fn(u64, u64) -> u8>(
    old: ServerView,
    new: ServerView,
    code: u16,
    payload: Option<Seq<u8>>,
    resp: MessageView,
    ratio: R,
) -> bool {
    match payload {
        None => new == old && resp == status_message(code),
        Some(p) => if 4 <= code <= 7 {
            answered_somehow(old, new, code, p, resp, ratio)
        } else {
            new == old && resp == status_message(crate::ENOSUP)
        },
    }
}

/// The direction in which a transform request runs the transform:
/// compress and encode run it "to" (`true`), decompress and decode "from".
pub open spec fn direction_of(code: u16) -> bool {
    code == 4 || code == 6
}

/// `outcome` is a way the server's transform in `direction` may end for
/// `input`: `Some` of the transformed payload when it succeeds, `None` when
/// it fails.
pub open spec fn transform_outcome(
    v: ServerView,
    direction: bool,
    input: Seq<u8>,
    outcome: Option<Seq<u8>>,
) -> bool {
    match outcome {
        Some(out) => (v.transform)(direction, input, out, true),
        None => exists|after: Seq<u8>| #[trigger] (v.transform)(direction, input, after, false),
    }
}

/// `new` and `resp` are as `answered` says for an outcome that the
/// server's transform, run in the request's direction on `input`, may have.
pub open spec fn answered_somehow<R: Fn(u64, u64) -> u8>(
    old: ServerView,
    new: ServerView,
    code: u16,
    input: Seq<u8>,
    resp: MessageView,
    ratio: R,
) -> bool {
    exists|outcome: Option<Seq<u8>>|
        transform_outcome(old, direction_of(code), input, outcome) && #[trigger] answered(
            old,
            new,
            code,
            input.len(),
            outcome,
            resp,
            ratio,
        )
}

/// A payload as the server reads it from a message: none when it is empty.
pub open spec fn payload_of(p: Seq<u8>) -> Option<Seq<u8>> {
    if p.len() == 0 {
        None
    } else {
        Some(p)
    }
}

/// `new` and `resp` are the state and response after the server processed a
/// request of `code` with `payload` (empty for none): ping is answered with
/// `OK`, get with the statistics, reset clears them and is answered with
/// `OK`; a request of a code above 4 with no payload is answered with
/// `ENOSUP`; any other request goes on as `generated` says, with its
/// payload (none when it is empty).
pub open spec fn processed<R: Fn(u64, u64) -> u8>(
    old: ServerView,
    new: ServerView,
    code: u16,
    payload: Seq<u8>,
    resp: MessageView,
    ratio: R,
) -> bool {
    if code == 1 {
        new == old && resp == status_message(crate::OK)
    } else if code == 2 {
        new == old && stats_message(old.stats, resp)
    } else if code == 3 {
        new == (ServerView { stats: zero_stats(), ..old }) && resp == status_message(crate::OK)
    } else if payload.len() == 0 && code > 4 {
        new == old && resp == status_message(crate::ENOSUP)
    } else {
        generated(old, new, code, payload_of(payload), resp, ratio)
    }
}

/// `v` after `n` bytes of payload and the 8 bytes of a header were received.
pub open spec fn received(v: ServerView, n: nat) -> ServerView {
    ServerView {
        stats: StatsView {
            bytes_received: wrapping_sum(v.stats.bytes_received, (n + 8) as u64),
            ..v.stats
        },
        ..v
    }
}

/// A server whose payloads go through the transform `B`.
pub struct Server<B> {
    addr: [u8; 4],
    port: u16,
    stats: ServerStats,
    error_state: Option<u16>,
    method: B,
}

impl<B: Transform> View for Server<B> {
    type V = ServerView;

    closed spec fn view(&self) -> ServerView {
        ServerView {
            addr: self.addr,
            port: self.port,
            stats: self.stats@,
            error_state: self.error_state,
            transform: |d: bool, b: Seq<u8>, a: Seq<u8>, ok: bool| self.method.transform_rel(d, b, a, ok),
        }
    }
}

impl<B: Transform> Server<B> {
    /// A server for the given transform, listening on `addr` (the four
    /// octets of an IPv4 address, `None` when the address given was not
    /// one) and on the decimal port `port`.  Either being invalid gives
    /// `EINVAL`.
    pub fn new(method: B, addr: Option<[u8; 4]>, port: String) -> (r: Result<Server<B>, u16>)
        ensures
            r is Err <==> addr is None || decimal_u16(port@) is None,
            r matches Err(e) ==> e == crate::EINVAL,
            r matches Ok(s) ==> {
                &&& s@.addr == addr.unwrap()
                &&& s@.port == decimal_u16(port@).unwrap()
                &&& s@.stats == zero_stats()
                &&& s@.error_state is None
                &&& forall|d: bool, b: Seq<u8>, a: Seq<u8>, ok: bool|
                    #[trigger] (s@.transform)(d, b, a, ok) == method.transform_rel(d, b, a, ok)
            },
    {
        let p = parse_u16_decimal(port.as_str());
        match addr {
            None => Err(crate::EINVAL),
            Some(a) => match p {
                None => Err(crate::EINVAL),
                Some(p) => Ok(
                    Server {
                        addr: a,
                        port: p,
                        stats: ServerStats::new(),
                        error_state: None,
                        method: method,
                    },
                ),
            },
        }
    }

    /// The four octets of the address to listen on.
    pub fn addr(&self) -> (a: [u8; 4])
        ensures
            a == self@.addr,
    {
        self.addr
    }

    /// The port to listen on.
    pub fn port(&self) -> (p: u16)
        ensures
            p == self@.port,
    {
        self.port
    }

    /// The statistics.
    pub fn stats(&self) -> (s: &ServerStats)
        ensures
            s@ == self@.stats,
    {
        &self.stats
    }

    fn process_request<R: Fn(u64, u64) -> u8>(
        &mut self,
        request: u16,
        payload: Option<Vec<u8>>,
        ratio: R,
    ) -> (m: Message)
        requires
            ratio_callable(ratio),
        ensures
            request == 1 ==> final(self)@ == old(self)@ && m@ == status_message(crate::OK),
            request == 2 ==> final(self)@ == old(self)@ && stats_message(old(self)@.stats, m@),
            request == 3 ==> final(self)@ == (ServerView { stats: zero_stats(), ..old(self)@ })
                && m@ == status_message(crate::OK),
            request > 3 || request == 0 ==> generated(
                old(self)@,
                final(self)@,
                request,
                match payload {
                    Some(p) => Some(p@),
                    None => None,
                },
                m@,
                ratio,
            ),
    {
        if request == 1 {
            Message::new(0, crate::OK, None)
        } else if request == 2 {
            self.generate_stats()
        } else if request == 3 {
            self.reset_stats()
        } else {
            self.generate_msg(request, payload, ratio)
        }
    }

    /// Bytes sent, bytes received and the compression ratio.
    fn get_stats(&self) -> (r: (u64, u64, u8))
        ensures
            r == (self@.stats.bytes_sent, self@.stats.bytes_received, self@.stats.compression.ratio),
    {
        let (sent, rcv, ratio, _, _, _) = self.stats.get_stats();
        (sent, rcv, ratio)
    }

    /// Sets all statistics back to zero.
    fn reset_stats(&mut self) -> (m: Message)
        ensures
            final(self)@ == (ServerView { stats: zero_stats(), ..old(self)@ }),
            m@ == status_message(crate::OK),
    {
        self.stats.reset_stats();
        Message::new(0, crate::OK, None)
    }

    fn update_stats(&mut self, update_sent: u64, update_recv: u64)
        ensures
            final(self)@ == (ServerView {
                stats: StatsView {
                    bytes_sent: wrapping_sum(old(self)@.stats.bytes_sent, update_sent),
                    bytes_received: wrapping_sum(old(self)@.stats.bytes_received, update_recv),
                    ..old(self)@.stats
                },
                ..old(self)@
            }),
    {
        self.stats.update_stats(update_sent, update_recv)
    }

    fn add_compression_data<R: Fn(u64, u64) -> u8>(&mut self, update_sent: u64, update_recv: u64, ratio: R)
        requires
            ratio_callable(ratio),
        ensures
            final(self)@ == (ServerView {
                stats: StatsView { compression: final(self)@.stats.compression, ..old(self)@.stats },
                ..old(self)@
            }),
            channel_added(old(self)@.stats.compression, final(self)@.stats.compression, update_sent, update_recv),
            ratio_from(final(self)@.stats.compression, ratio),
    {
        self.stats.add_compression_data(update_sent, update_recv, ratio)
    }

    /// Runs the transform in `direction` over `payload`: the transformed
    /// payload, or `Err` when the transform failed.
    fn transform_payload(&mut self, direction: bool, payload: Vec<u8>) -> (r: Result<Vec<u8>, ()>)
        ensures
            final(self)@ == old(self)@,
            transform_outcome(
                old(self)@,
                direction,
                payload@,
                match r {
                    Ok(out) => Some(out@),
                    Err(_) => None,
                },
            ),
    {
        let ghost input = payload@;
        let mut payload = payload;
        match self.method.transform(direction, &mut payload) {
            Ok(()) => {
                assert((self@.transform)(direction, input, payload@, true));
                Ok(payload)
            },
            Err(_) => {
                assert((self@.transform)(direction, input, payload@, false));
                Err(())
            },
        }
    }

    /// The answer to a transform request of `code` on a payload of
    /// `input_len` bytes, once the transform came back with `outcome` (see
    /// `answered`).
    pub fn transform_response<R: Fn(u64, u64) -> u8>(
        &mut self,
        code: u16,
        input_len: usize,
        outcome: Result<Vec<u8>, ()>,
        ratio: R,
    ) -> (m: Message)
        requires
            ratio_callable(ratio),
        ensures
            answered(
                old(self)@,
                final(self)@,
                code,
                input_len as nat,
                match outcome {
                    Ok(out) => Some(out@),
                    Err(_) => None,
                },
                m@,
                ratio,
            ),
    {
        match outcome {
            Err(()) => {
                if code == 5 {
                    Message::new(0, crate::OTHER_ERROR, None)
                } else {
                    Message::new(0, crate::EINVAL, None)
                }
            },
            Ok(msg) => {
                let n = msg.len();
                if code == 4 {
                    self.add_compression_data(n as u64, input_len as u64, ratio);
                }
                Message::new(n as u16, crate::OK, Some(msg))
            },
        }
    }

    /// Compresses the payload; a failed compression is answered with
    /// `EINVAL`.
    fn generate_compression<R: Fn(u64, u64) -> u8>(&mut self, payload: Vec<u8>, ratio: R) -> (m: Message)
        requires
            ratio_callable(ratio),
        ensures
            generated(old(self)@, final(self)@, 4, Some(payload@), m@, ratio),
    {
        let ghost input = payload@;
        let old_len = payload.len();
        let compressed = self.transform_payload(true, payload);
        let ghost outcome = match compressed {
            Ok(ref v) => Some(v@),
            Err(_) => None,
        };
        let m = self.transform_response(4, old_len, compressed, ratio);
        assert(transform_outcome(old(self)@, direction_of(4), input, outcome));
        assert(answered(old(self)@, self@, 4, input.len(), outcome, m@, ratio));
        m
    }

    /// Decompresses the payload; a failed decompression is answered with
    /// `OTHER_ERROR`.
    fn generate_decompression<R: Fn(u64, u64) -> u8>(&mut self, payload: Vec<u8>, ratio: R) -> (m: Message)
        requires
            ratio_callable(ratio),
        ensures
            generated(old(self)@, final(self)@, 5, Some(payload@), m@, ratio),
    {
        let ghost input = payload@;
        let old_len = payload.len();
        let decompressed = self.transform_payload(false, payload);
        let ghost outcome = match decompressed {
            Ok(ref v) => Some(v@),
            Err(_) => None,
        };
        let m = self.transform_response(5, old_len, decompressed, ratio);
        assert(transform_outcome(old(self)@, direction_of(5), input, outcome));
        assert(answered(old(self)@, self@, 5, input.len(), outcome, m@, ratio));
        m
    }

    /// The statistics as a message: bytes sent and received (8 bytes each,
    /// in the machine's byte order) followed by the compression ratio.
    fn generate_stats(&mut self) -> (m: Message)
        ensures
            final(self)@ == old(self)@,
            stats_message(old(self)@.stats, m@),
    {
        let (sent, rcv, ratio) = self.get_stats();
        let sent_bytes = u64_to_ne_bytes(sent);
        let rcv_bytes = u64_to_ne_bytes(rcv);
        let mut payload: Vec<u8> = Vec::new();
        let mut i: usize = 0;
        while i < 8
            invariant
                i <= 8,
                sent_bytes@.len() == 8,
                payload@ == sent_bytes@.take(i as int),
            decreases 8 - i,
        {
            payload.push(sent_bytes[i]);
            i = i + 1;
            assert(payload@ == sent_bytes@.take(i as int));
        }
        let mut j: usize = 0;
        while j < 8
            invariant
                j <= 8,
                sent_bytes@.len() == 8,
                rcv_bytes@.len() == 8,
                payload@ == sent_bytes@ + rcv_bytes@.take(j as int),
            decreases 8 - j,
        {
            payload.push(rcv_bytes[j]);
            j = j + 1;
            assert(payload@ == sent_bytes@ + rcv_bytes@.take(j as int));
        }
        payload.push(ratio);
        proof {
            assert(sent_bytes@.take(8) == sent_bytes@);
            assert(rcv_bytes@.take(8) == rcv_bytes@);
            assert(payload@.subrange(0, 8) == sent_bytes@);
            assert(payload@.subrange(8, 16) == rcv_bytes@);
        }
        let len = payload.len();
        Message::new(len as u16, crate::OK, Some(payload))
    }

    /// The response to a request of type `mtype` with `payload`.  Without a
    /// payload the response is a message with no payload whose code is
    /// `mtype` (this is how error responses are made).
    fn generate_msg<R: Fn(u64, u64) -> u8>(&mut self, mtype: u16, payload: Option<Vec<u8>>, ratio: R) -> (m: Message)
        requires
            ratio_callable(ratio),
        ensures
            generated(
                old(self)@,
                final(self)@,
                mtype,
                match payload {
                    Some(p) => Some(p@),
                    None => None,
                },
                m@,
                ratio,
            ),
    {
        match payload {
            Some(payload) => {
                if mtype == 4 {
                    self.generate_compression(payload, ratio)
                } else if mtype == 5 {
                    self.generate_decompression(payload, ratio)
                } else if mtype == 6 || mtype == 7 {
                    let ghost input = payload@;
                    let n = payload.len();
                    let t = self.transform_payload(mtype == 6, payload);
                    let ghost outcome = match t {
                        Ok(ref v) => Some(v@),
                        Err(_) => None,
                    };
                    let m = self.transform_response(mtype, n, t, ratio);
                    assert(transform_outcome(old(self)@, direction_of(mtype), input, outcome));
                    assert(answered(old(self)@, self@, mtype, input.len(), outcome, m@, ratio));
                    m
                } else {
                    Message::new(0, crate::ENOSUP, None)
                }
            },
            None => Message::new(0, mtype, None),
        }
    }

    /// The response owed before anything is read, when the server is in an
    /// error state: a message with no payload carrying that state.
    pub fn error_response(&self) -> (r: Option<Message>)
        ensures
            r is None <==> self@.error_state is None,
            r matches Some(m) ==> m@ == status_message(self@.error_state.unwrap()),
    {
        match self.error_state {
            Some(state) => Some(Message::new(0, state, None)),
            None => None,
        }
    }

    /// Checks the header of an incoming request (`None` when it could not
    /// be read or decoded): it must carry the magic number and announce a
    /// payload of at most `MAX_PAYLOAD_LEN` bytes.  Gives the announced
    /// length and request code, or the `EINVAL` response.
    pub fn check_header(&self, header: Option<MessageHeader>) -> (r: Result<(u16, u16), Message>)
        ensures
            r is Ok <==> (header matches Some(h) && h@.magic == crate::MAGIC && h@.length
                <= crate::MAX_PAYLOAD_LEN),
            r matches Ok(lc) ==> lc == (header.unwrap()@.length, header.unwrap()@.code),
            r matches Err(m) ==> m@ == status_message(crate::EINVAL),
    {
        match header {
            None => Err(Message::new(0, crate::EINVAL, None)),
            Some(header) => {
                if !header.is_valid() {
                    return Err(Message::new(0, crate::EINVAL, None));
                }
                let (len, request) = header.get();
                if len as usize > crate::MAX_PAYLOAD_LEN {
                    return Err(Message::new(0, crate::EINVAL, None));
                }
                Ok((len, request))
            },
        }
    }

    /// Takes in the body of a request whose header announced `len` bytes of
    /// payload for request `request`.  A body that could not be read gives
    /// `INTERNAL_ERROR`; one that does not decode, or whose payload is not
    /// `len` bytes long, gives `EINVAL`.  A body whose payload is not empty
    /// and has the announced length is taken, as the request with that
    /// payload; so is a body with no payload and an announced length of 0,
    /// for a request that is taken without a payload (see
    /// `takes_without_payload`); any other body without a payload gives
    /// `EINVAL`.  The bytes received (header and payload) are counted
    /// whenever the body decoded and either has a payload or is taken.
    pub fn get_request(&mut self, len: u16, request: u16, body: BodyEvent) -> (r: Result<Message, Message>)
        requires
            body matches BodyEvent::Decoded(m) ==> m@.payload.len() + 8 <= usize::MAX,
        ensures
            match body {
                BodyEvent::ReadFailed => final(self)@ == old(self)@ && r is Err && r->Err_0@
                    == status_message(crate::INTERNAL_ERROR),
                BodyEvent::Undecodable => final(self)@ == old(self)@ && r is Err && r->Err_0@
                    == status_message(crate::EINVAL),
                BodyEvent::Decoded(m) => {
                    let p = m@.payload;
                    if p.len() == len && (p.len() != 0 || takes_without_payload(request)) {
                        &&& final(self)@ == received(old(self)@, p.len())
                        &&& r is Ok
                        &&& r->Ok_0@ == message_of(len, request, payload_of(p))
                    } else if p.len() != 0 {
                        &&& final(self)@ == received(old(self)@, p.len())
                        &&& r is Err
                        &&& r->Err_0@ == status_message(crate::EINVAL)
                    } else {
                        final(self)@ == old(self)@ && r is Err && r->Err_0@ == status_message(
                            crate::EINVAL,
                        )
                    }
                },
            },
    {
        let bytes_rcv: usize = 8;
        match body {
            BodyEvent::ReadFailed => Err(Message::new(0, crate::INTERNAL_ERROR, None)),
            BodyEvent::Undecodable => Err(Message::new(0, crate::EINVAL, None)),
            BodyEvent::Decoded(deserialized_msg) => {
                let n = deserialized_msg.payload_len();
                let taken_empty = (1 <= request && request <= 3) || request > 4;
                if len as usize == n && (n != 0 || taken_empty) {
                    self.update_stats(0, (bytes_rcv + n) as u64);
                    Ok(Message::new(len, request, deserialized_msg.get_payload()))
                } else if n != 0 {
                    self.update_stats(0, (bytes_rcv + n) as u64);
                    Err(Message::new(0, crate::EINVAL, None))
                } else {
                    Err(Message::new(0, crate::EINVAL, None))
                }
            },
        }
    }

    /// The response to a request that passed the checks: ping is answered
    /// with `OK`, get with the statistics, reset sets the statistics to zero
    /// and is answered with `OK`; a request of a code above 4 without a
    /// payload is answered with `ENOSUP`; any other request goes on with its
    /// payload, none when it is empty (see `generated`).  `ratio` works out the compression ratio.
    pub fn process<R: Fn(u64, u64) -> u8>(&mut self, msg: Message, ratio: R) -> (m: Message)
        requires
            ratio_callable(ratio),
        ensures
            processed(old(self)@, final(self)@, msg@.header.code, msg@.payload, m@, ratio),
    {
        let (_, code) = msg.get_header().get();
        if code == 1 {
            Message::new(0, crate::OK, None)
        } else if code == 2 {
            self.generate_stats()
        } else if code == 3 {
            self.reset_stats()
        } else if msg.payload_len() == 0 && code > 4 {
            Message::new(0, crate::ENOSUP, None)
        } else {
            self.generate_msg(code, msg.get_payload(), ratio)
        }
    }

    /// Counts a response of `written` bytes that went out: all but the 8
    /// bytes of its header count as bytes sent.
    pub fn count_response(&mut self, written: usize)
        requires
            written >= 8,
        ensures
            final(self)@ == (ServerView {
                stats: StatsView {
                    bytes_sent: wrapping_sum(old(self)@.stats.bytes_sent, (written - 8) as u64),
                    ..old(self)@.stats
                },
                ..old(self)@
            }),
    {
        let send_len = written - 8;
        self.update_stats(send_len as u64, 0);
    }
}

/// After a reset, a get reports zero bytes sent, zero received and a zero
/// compression ratio, and the statistics stay zero.
pub proof fn lemma_get_after_reset<R: Fn(u64, u64) -> u8>(
    v0: ServerView,
    v1: ServerView,
    v2: ServerView,
    p1: Seq<u8>,
    p2: Seq<u8>,
    r1: MessageView,
    r2: MessageView,
    ratio: R,
)
    requires
        processed(v0, v1, 3, p1, r1, ratio),
        processed(v1, v2, 2, p2, r2, ratio),
    ensures
        r1 == status_message(crate::OK),
        v2.stats == zero_stats(),
        stats_message(zero_stats(), r2),
{
}

/// Ping and get leave the server as it is, whatever their payload.
pub proof fn lemma_ping_and_get_change_nothing<R: Fn(u64, u64) -> u8>(
    old: ServerView,
    new: ServerView,
    code: u16,
    payload: Seq<u8>,
    resp: MessageView,
    ratio: R,
)
    requires
        code == 1 || code == 2,
        processed(old, new, code, payload, resp, ratio),
    ensures
        new == old,
{
}

/// Only a compression or a reset touches the transform statistics, and the
/// overall byte counts are never touched while processing.
pub proof fn lemma_processing_keeps_byte_counts<R: Fn(u64, u64) -> u8>(
    old: ServerView,
    new: ServerView,
    code: u16,
    payload: Seq<u8>,
    resp: MessageView,
    ratio: R,
)
    requires
        processed(old, new, code, payload, resp, ratio),
    ensures
        code != 3 ==> new.stats.bytes_sent == old.stats.bytes_sent,
        code != 3 ==> new.stats.bytes_received == old.stats.bytes_received,
        code != 3 && code != 4 ==> new == old,
        new.addr == old.addr && new.port == old.port && new.error_state == old.error_state,
{
    if 4 <= code <= 7 && payload.len() != 0 {
        let outcome = choose|o: Option<Seq<u8>>| #[trigger]
            answered(old, new, code, payload.len(), o, resp, ratio);
        assert(answered(old, new, code, payload.len(), outcome, resp, ratio));
    }
}

/// A request without a payload that the server takes (ping, get, reset, or
/// a code above 4) goes through: its header carries the magic number and
/// announces no payload, the server takes it with its 8 bytes counted, and
/// answers ping and reset with `OK`, get with the statistics as they stand
/// once the request is counted, and a code above 4 with `ENOSUP`, changing
/// nothing more.
pub proof fn lemma_request_without_payload<R: Fn(u64, u64) -> u8>(
    v0: ServerView,
    v1: ServerView,
    code: u16,
    resp: MessageView,
    ratio: R,
)
    requires
        takes_without_payload(code),
        processed(received(v0, 0), v1, code, message_of(0, code, None).payload, resp, ratio),
    ensures
        message_of(0, code, None).header.magic == crate::MAGIC,
        message_of(0, code, None).header.length == message_of(0, code, None).payload.len(),
        code == 1 || code == 3 ==> resp == status_message(crate::OK),
        code == 2 ==> stats_message(received(v0, 0).stats, resp),
        code == 1 || code == 2 ==> v1 == received(v0, 0),
        code > 4 ==> resp == status_message(crate::ENOSUP) && v1 == received(v0, 0),
{
}

/// A transform that failed is answered with a message that has no payload
/// and leaves the server as it was; its status is `OTHER_ERROR` for a
/// decompression and `EINVAL` for a compression, an encoding or a decoding
/// (and any other request).
pub proof fn lemma_failed_transform_answer<R: Fn(u64, u64) -> u8>(
    old: ServerView,
    new: ServerView,
    code: u16,
    input_len: nat,
    resp: MessageView,
    ratio: R,
)
    requires
        answered(old, new, code, input_len, None, resp, ratio),
    ensures
        new == old,
        resp.payload.len() == 0,
        resp.header.length == 0,
        resp.header.magic == crate::MAGIC,
        code == 5 ==> resp.header.code == crate::OTHER_ERROR,
        code != 5 ==> resp.header.code == crate::EINVAL,
{
}

/// How the server acts on each request's wire code: ping, get and reset
/// have codes 1, 2 and 3 and are taken without a payload; compress,
/// decompress, encode and decode have codes 4 to 7 in that order;
/// compress and encode run the transform to a payload and decompress and
/// decode run it back; only a failed decompression is answered with
/// `OTHER_ERROR`; no request has code 0 but `NONE`.
pub proof fn lemma_request_dispatch(r: crate::REQUEST)
    ensures
        r == crate::REQUEST::NONE <==> crate::request_code(r) == 0,
        r == crate::REQUEST::PING <==> crate::request_code(r) == 1,
        r == crate::REQUEST::GET <==> crate::request_code(r) == 2,
        r == crate::REQUEST::RESET <==> crate::request_code(r) == 3,
        r == crate::REQUEST::COMPRESS <==> crate::request_code(r) == 4,
        r == crate::REQUEST::DECOMPRESS <==> crate::request_code(r) == 5,
        r == crate::REQUEST::ENCODE <==> crate::request_code(r) == 6,
        r == crate::REQUEST::DECODE <==> crate::request_code(r) == 7,
        (r == crate::REQUEST::COMPRESS || r == crate::REQUEST::ENCODE) <==> direction_of(
            crate::request_code(r),
        ),
        r == crate::REQUEST::DECOMPRESS <==> failure_status(crate::request_code(r))
            == crate::OTHER_ERROR,
        failure_status(crate::request_code(r)) != crate::OTHER_ERROR ==> failure_status(
            crate::request_code(r),
        ) == crate::EINVAL,
        crate::client::is_plain_request(crate::request_code(r)) <==> (r == crate::REQUEST::PING
            || r == crate::REQUEST::GET || r == crate::REQUEST::RESET),
        crate::client::is_transform_request(crate::request_code(r)) <==> (r
            == crate::REQUEST::COMPRESS || r == crate::REQUEST::DECOMPRESS || r
            == crate::REQUEST::ENCODE || r == crate::REQUEST::DECODE),
{
}

/// The statistics payload is exactly the bytes sent, then the bytes
/// received (8 bytes each, in the machine's byte order), then the ratio,
/// under a header announcing its 17 bytes with status `OK`.
pub proof fn lemma_stats_payload_layout(stats: StatsView, resp: MessageView)
    ensures
        stats_message(stats, resp) <==> (resp.header == header_of(17, crate::OK) && resp.payload
            == crate::primitives::native_bytes(stats.bytes_sent) + crate::primitives::native_bytes(
            stats.bytes_received,
        ) + seq![stats.compression.ratio]),
{
    let p = crate::primitives::native_bytes(stats.bytes_sent) + crate::primitives::native_bytes(
        stats.bytes_received,
    ) + seq![stats.compression.ratio];
    assert(crate::primitives::le_bytes(stats.bytes_sent).len() == 8);
    assert(crate::primitives::le_bytes(stats.bytes_received).len() == 8);
    if stats_message(stats, resp) {
        assert(resp.payload =~= resp.payload.subrange(0, 8) + resp.payload.subrange(8, 16) + seq![
            resp.payload[16],
        ]);
    }
    if resp.payload == p {
        assert(p.subrange(0, 8) =~= crate::primitives::native_bytes(stats.bytes_sent));
        assert(p.subrange(8, 16) =~= crate::primitives::native_bytes(stats.bytes_received));
    }
}

} // verus!
