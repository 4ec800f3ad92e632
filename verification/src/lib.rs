//! YABTS: Yet Another Byte Transformation Service.
//!
//! The verified core of a small client/server service that transforms byte
//! payloads (encoding, compression and their inverses).  The wire messages,
//! the server's request handling and statistics, the client's request
//! construction and response interpretation, and a few transforms live here;
//! sockets, files and argument parsing live in the companion application.
use vstd::prelude::*;

pub mod primitives;
pub mod message;
pub mod stats;
pub mod transform;
pub mod server;
pub mod client;
pub mod helpers;
pub mod b64;
pub mod cobs;
pub mod simple;

verus! {

/// End users may want to modify this for different MTUs.
pub const MAX_MSG_LEN: usize = 4000;

/// The header takes 8 bytes of every message.
pub const MAX_PAYLOAD_LEN: usize = MAX_MSG_LEN - 8;

/// The magic number of a valid header.
pub const MAGIC: u32 = 0xDEADBEEF;

/// OK request / response.
pub const OK: u16 = 0;

/// Unknown internal error.
pub const UNKNOWN: u16 = 1;

/// Invalid request, e.g. a message that is too large.
pub const EINVAL: u16 = 2;

/// Unsupported request type.
pub const ENOSUP: u16 = 3;

/// Some internal error state.
pub const INTERNAL_ERROR: u16 = 33;

/// Any other error.
pub const OTHER_ERROR: u16 = 34;

/// The requests a client can make.
#[derive(Copy, Clone, Debug, PartialEq, Eq, Structural)]
pub enum REQUEST {
    NONE,
    PING,
    GET,
    RESET,
    COMPRESS,
    DECOMPRESS,
    ENCODE,
    DECODE,
}

/// The numeric code that identifies a request on the wire.
pub open spec fn request_code(r: REQUEST) -> u16 {
    match r {
        REQUEST::NONE => 0,
        REQUEST::PING => 1,
        REQUEST::GET => 2,
        REQUEST::RESET => 3,
        REQUEST::COMPRESS => 4,
        REQUEST::DECOMPRESS => 5,
        REQUEST::ENCODE => 6,
        REQUEST::DECODE => 7,
    }
}

/// The request that a wire code stands for, if any.
pub open spec fn request_of_code(v: u16) -> Option<REQUEST> {
    if v == 0 {
        Some(REQUEST::NONE)
    } else if v == 1 {
        Some(REQUEST::PING)
    } else if v == 2 {
        Some(REQUEST::GET)
    } else if v == 3 {
        Some(REQUEST::RESET)
    } else if v == 4 {
        Some(REQUEST::COMPRESS)
    } else if v == 5 {
        Some(REQUEST::DECOMPRESS)
    } else if v == 6 {
        Some(REQUEST::ENCODE)
    } else if v == 7 {
        Some(REQUEST::DECODE)
    } else {
        None
    }
}

/// The request that a command-line name stands for, if any.
pub open spec fn request_of_name(s: Seq<char>) -> Option<REQUEST> {
    if s == "ping"@ {
        Some(REQUEST::PING)
    } else if s == "get"@ {
        Some(REQUEST::GET)
    } else if s == "reset"@ {
        Some(REQUEST::RESET)
    } else if s == "compress"@ {
        Some(REQUEST::COMPRESS)
    } else if s == "decompress"@ {
        Some(REQUEST::DECOMPRESS)
    } else if s == "encode"@ {
        Some(REQUEST::ENCODE)
    } else if s == "decode"@ {
        Some(REQUEST::DECODE)
    } else {
        None
    }
}

impl REQUEST {
    /// The numeric code of this request.
    pub fn code(self) -> (c: u16)
        ensures
            c == request_code(self),
    {
        match self {
            REQUEST::NONE => 0,
            REQUEST::PING => 1,
            REQUEST::GET => 2,
            REQUEST::RESET => 3,
            REQUEST::COMPRESS => 4,
            REQUEST::DECOMPRESS => 5,
            REQUEST::ENCODE => 6,
            REQUEST::DECODE => 7,
        }
    }

    /// The request with the given numeric code, if there is one.
    pub fn from_code(v: u16) -> (r: Option<REQUEST>)
        ensures
            r == request_of_code(v),
    {
        if v == 0 {
            Some(REQUEST::NONE)
        } else if v == 1 {
            Some(REQUEST::PING)
        } else if v == 2 {
            Some(REQUEST::GET)
        } else if v == 3 {
            Some(REQUEST::RESET)
        } else if v == 4 {
            Some(REQUEST::COMPRESS)
        } else if v == 5 {
            Some(REQUEST::DECOMPRESS)
        } else if v == 6 {
            Some(REQUEST::ENCODE)
        } else if v == 7 {
            Some(REQUEST::DECODE)
        } else {
            None
        }
    }

    /// The request named on the command line ("ping", "get", "reset",
    /// "compress", "decompress", "encode" or "decode"), if there is one.
    pub fn from_name(request: &str) -> (r: Option<REQUEST>)
        ensures
            r == request_of_name(request@),
    {
        if primitives::str_equal(request, "ping") {
            Some(REQUEST::PING)
        } else if primitives::str_equal(request, "get") {
            Some(REQUEST::GET)
        } else if primitives::str_equal(request, "reset") {
            Some(REQUEST::RESET)
        } else if primitives::str_equal(request, "compress") {
            Some(REQUEST::COMPRESS)
        } else if primitives::str_equal(request, "decompress") {
            Some(REQUEST::DECOMPRESS)
        } else if primitives::str_equal(request, "encode") {
            Some(REQUEST::ENCODE)
        } else if primitives::str_equal(request, "decode") {
            Some(REQUEST::DECODE)
        } else {
            None
        }
    }
}

/// Every request is found again from its code.
pub proof fn lemma_request_code_roundtrip(r: REQUEST)
    ensures
        request_of_code(request_code(r)) == Some(r),
{
}

/// Exactly the codes 0 to 7 stand for a request, and each for the one whose
/// code it is.
pub proof fn lemma_request_codes_exact(v: u16)
    ensures
        request_of_code(v) is Some <==> v <= 7,
        request_of_code(v) matches Some(r) ==> request_code(r) == v,
{
}

impl std::str::FromStr for REQUEST {
    type Err = std::io::Error;

    /// The request named `request` (see `request_of_name`); any other name
    /// is an error.
    fn from_str(request: &str) -> (r: Result<REQUEST, std::io::Error>)
        ensures
            r is Ok <==> request_of_name(request@) is Some,
            r matches Ok(v) ==> request_of_name(request@) == Some(v),
    {
        match REQUEST::from_name(request) {
            Some(r) => Ok(r),
            None => Err(primitives::other_io_error("Invalid request provided")),
        }
    }
}

impl TryFrom<u16> for REQUEST {
    type Error = ();

    fn try_from(v: u16) -> (r: Result<Self, Self::Error>) {
        match REQUEST::from_code(v) {
            Some(r) => Ok(r),
            None => Err(()),
        }
    }
}

impl vstd::std_specs::convert::TryFromSpecImpl<u16> for REQUEST {
    open spec fn obeys_try_from_spec() -> bool {
        true
    }

    open spec fn try_from_spec(v: u16) -> Result<Self, Self::Error> {
        match request_of_code(v) {
            Some(r) => Ok(r),
            None => Err(()),
        }
    }
}

/// How the program runs: as a client (address, port, request, optional
/// payload file) or as a server (address, port).
pub enum RUNMODE {
    CLIENT(String, String, Option<REQUEST>, Option<String>),
    SERVER(String, String),
}

} // verus!
