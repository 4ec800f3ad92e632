//! The decisions of the client: which requests carry a payload, the request
//! message it sends, how it reads a statistics payload, and the status it
//! ends with once the response is in.  Files and sockets are the caller's.
use vstd::prelude::*;
use crate::message::{message_of, Message, MessageView};
use crate::primitives::{is_utf8, lemma_native_bytes_injective, ne_bytes_of, u64_from_ne_bytes};
use crate::server::stats_message;
use crate::stats::StatsView;

verus! {

/// Whether a request of `code` is one that transforms a payload (compress,
/// decompress, encode, decode).
pub open spec fn is_transform_request(code: u16) -> bool {
    4 <= code <= 7
}

/// Whether a request of `code` carries no payload (ping, get, reset).
pub open spec fn is_plain_request(code: u16) -> bool {
    1 <= code <= 3
}

/// Whether the client has to read a payload for a request of `request`:
/// yes for the transform requests, no for ping, get and reset; any other
/// request is refused with `EINVAL`.
pub fn payload_required(request: u16) -> (r: Result<bool, u16>)
    ensures
        is_transform_request(request) ==> r == Ok::<bool, u16>(true),
        is_plain_request(request) ==> r == Ok::<bool, u16>(false),
        !is_transform_request(request) && !is_plain_request(request) ==> r == Err::<bool, u16>(
            crate::EINVAL,
        ),
{
    if 4 <= request && request <= 7 {
        Ok(true)
    } else if 1 <= request && request <= 3 {
        Ok(false)
    } else {
        Err(crate::EINVAL)
    }
}

/// The request message for `request`: ping, get and reset carry no payload;
/// a transform request carries its payload and announces its length.  A
/// transform request without a payload, or an unknown request, gives the
/// default message.
pub fn base_request(request: u16, payload: Option<Vec<u8>>) -> (m: Message)
    ensures
        is_plain_request(request) ==> m@ == message_of(0, request, None),
        is_transform_request(request) ==> match payload {
            Some(p) => m@ == message_of(p@.len() as u16, request, Some(p@)),
            None => m@ == message_of(0, 0, None),
        },
        !is_transform_request(request) && !is_plain_request(request) ==> m@ == message_of(
            0,
            0,
            None,
        ),
{
    if 1 <= request && request <= 3 {
        Message::new(0, request, None)
    } else if 4 <= request && request <= 7 {
        match payload {
            Some(payload) => {
                let length = payload.len();
                Message::new(length as u16, request, Some(payload))
            },
            None => Message::default(),
        }
    } else {
        Message::default()
    }
}

/// `t` is what a statistics payload holds: the bytes sent and the bytes
/// received (8 bytes each, in the machine's byte order) and the ratio.
pub open spec fn stats_read(payload: Seq<u8>, t: (u64, u64, u8)) -> bool {
    &&& ne_bytes_of(payload.subrange(0, 8), t.0)
    &&& ne_bytes_of(payload.subrange(8, 16), t.1)
    &&& t.2 == payload[16]
}

/// Reads a statistics payload: 17 bytes, namely the bytes sent and the bytes
/// received (8 bytes each, in the machine's byte order) and the ratio.  Any
/// other length is an error.
pub fn serialize_to_stats(payload: Vec<u8>) -> (r: Result<(u64, u64, u8), ()>)
    ensures
        r is Ok <==> payload@.len() == 17,
        r matches Ok(t) ==> stats_read(payload@, t),
{
    if payload.len() != 17 {
        return Err(());
    }
    let sent_bytes: [u8; 8] = [
        payload[0],
        payload[1],
        payload[2],
        payload[3],
        payload[4],
        payload[5],
        payload[6],
        payload[7],
    ];
    let rcv_bytes: [u8; 8] = [
        payload[8],
        payload[9],
        payload[10],
        payload[11],
        payload[12],
        payload[13],
        payload[14],
        payload[15],
    ];
    let sent = u64_from_ne_bytes(sent_bytes);
    let rcv = u64_from_ne_bytes(rcv_bytes);
    let ratio = payload[16];
    assert(sent_bytes@ == payload@.subrange(0, 8));
    assert(rcv_bytes@ == payload@.subrange(8, 16));
    Ok((sent, rcv, ratio))
}

/// The status the client ends with once `response` to `request` is in
/// (`None` when the reply did not decode into a message, which ends the run
/// with `OK`): an error status in the response is passed on; a statistics
/// payload that does not read, or a transformed payload that is not UTF-8
/// text, gives `UNKNOWN`; a request that is not one of the known ones gives
/// `EINVAL`; anything else `OK`.
pub open spec fn response_status_spec(request: u16, response: Option<MessageView>) -> u16 {
    match response {
        None => crate::OK,
        Some(response) => {
            let status = response.header.code;
            if status != 0 {
                status
            } else if request == 1 || request == 3 {
                crate::OK
            } else if request == 2 {
                if response.payload.len() == 17 {
                    crate::OK
                } else {
                    crate::UNKNOWN
                }
            } else if is_transform_request(request) {
                if vstd::utf8::valid_utf8(response.payload) {
                    crate::OK
                } else {
                    crate::UNKNOWN
                }
            } else {
                crate::EINVAL
            }
        },
    }
}

/// Interprets the response to `request`, `None` when the reply did not
/// decode (see `response_status_spec`).  A successful get or transform
/// response must carry a payload.
pub fn response_status(request: u16, response: Option<&Message>) -> (s: u16)
    requires
        response matches Some(m) ==> (m@.header.code == 0 && (request == 2
            || is_transform_request(request)) ==> m@.payload.len() != 0),
    ensures
        s == response_status_spec(
            request,
            match response {
                Some(m) => Some(m@),
                None => None,
            },
        ),
{
    let response = match response {
        Some(m) => m,
        None => {
            return crate::OK;
        },
    };
    let (_, status) = response.get_header().get();
    if status != 0 {
        return status;
    }
    if request == 1 || request == 3 {
        crate::OK
    } else if request == 2 {
        match response.get_payload() {
            Some(p) => match serialize_to_stats(p) {
                Ok(_) => crate::OK,
                Err(()) => crate::UNKNOWN,
            },
            None => crate::UNKNOWN,
        }
    } else if 4 <= request && request <= 7 {
        match response.get_payload() {
            Some(p) => {
                if is_utf8(p.as_slice()) {
                    crate::OK
                } else {
                    crate::UNKNOWN
                }
            },
            None => crate::UNKNOWN,
        }
    } else {
        crate::EINVAL
    }
}

/// The client reads back the counts the server sent: what `serialize_to_stats`
/// reads from the payload of the statistics response for `stats` is the
/// bytes sent, the bytes received and the compression ratio of `stats`.
pub proof fn lemma_stats_read_back(stats: StatsView, resp: MessageView, t: (u64, u64, u8))
    requires
        stats_message(stats, resp),
        stats_read(resp.payload, t),
    ensures
        t == (stats.bytes_sent, stats.bytes_received, stats.compression.ratio),
{
    lemma_native_bytes_injective(t.0, stats.bytes_sent);
    lemma_native_bytes_injective(t.1, stats.bytes_received);
}

/// A ping, get or reset that the client builds passes the server's checks:
/// its header carries the magic number and announces no payload, and it has
/// none.
pub proof fn lemma_plain_request_passes_checks(code: u16)
    requires
        is_plain_request(code),
    ensures
        ({
            let m = message_of(0, code, None);
            &&& m.header.magic == crate::MAGIC
            &&& m.header.length <= crate::MAX_PAYLOAD_LEN
            &&& m.header.length == m.payload.len()
            &&& m.header.code == code
        }),
{
}

/// A transform response (compress, decompress, encode or decode) with
/// status 0 ends the client with `OK` exactly when its payload is valid
/// UTF-8 text and with `UNKNOWN` otherwise, and all four requests are read
/// alike.
pub proof fn lemma_transform_response_status(request: u16, other: u16, resp: MessageView)
    requires
        is_transform_request(request),
        is_transform_request(other),
        resp.header.code == 0,
    ensures
        response_status_spec(request, Some(resp)) == crate::OK <==> vstd::utf8::valid_utf8(
            resp.payload,
        ),
        response_status_spec(request, Some(resp)) == crate::UNKNOWN <==> !vstd::utf8::valid_utf8(
            resp.payload,
        ),
        response_status_spec(request, Some(resp)) == response_status_spec(other, Some(resp)),
{
}

/// A response with a nonzero status ends the client with that status,
/// whatever the request.
pub proof fn lemma_error_status_passed_on(request: u16, resp: MessageView)
    requires
        resp.header.code != 0,
    ensures
        response_status_spec(request, Some(resp)) == resp.header.code,
{
}

/// A statistics payload of 17 bytes reads as `t` exactly when it is the
/// bytes sent of `t`, then its bytes received (8 bytes each, in the
/// machine's byte order), then its ratio.
pub proof fn lemma_stats_read_layout(payload: Seq<u8>, t: (u64, u64, u8))
    requires
        payload.len() == 17,
    ensures
        stats_read(payload, t) <==> payload == crate::primitives::native_bytes(t.0)
            + crate::primitives::native_bytes(t.1) + seq![t.2],
{
    let p = crate::primitives::native_bytes(t.0) + crate::primitives::native_bytes(t.1) + seq![t.2];
    assert(crate::primitives::le_bytes(t.0).len() == 8);
    assert(crate::primitives::le_bytes(t.1).len() == 8);
    if stats_read(payload, t) {
        assert(payload =~= payload.subrange(0, 8) + payload.subrange(8, 16) + seq![payload[16]]);
    }
    if payload == p {
        assert(p.subrange(0, 8) =~= crate::primitives::native_bytes(t.0));
        assert(p.subrange(8, 16) =~= crate::primitives::native_bytes(t.1));
    }
}

} // verus!
