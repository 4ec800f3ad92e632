//! The messages exchanged between client and server: an 8-byte header
//! (magic number, payload length, request or status code) and a payload.
use vstd::prelude::*;

verus! {

/// The abstract value of a header.
pub struct HeaderView {
    pub magic: u32,
    pub length: u16,
    pub code: u16,
}

/// The abstract value of a message.
pub struct MessageView {
    pub header: HeaderView,
    pub payload: Seq<u8>,
}

/// The header that `MessageHeader::new(length, code)` builds.
pub open spec fn header_of(length: u16, code: u16) -> HeaderView {
    HeaderView { magic: crate::MAGIC, length, code }
}

/// The message that `Message::new(length, code, payload)` builds.
pub open spec fn message_of(length: u16, code: u16, payload: Option<Seq<u8>>) -> MessageView {
    MessageView {
        header: header_of(length, code),
        payload: match payload {
            Some(p) => p,
            None => Seq::empty(),
        },
    }
}

#[derive(Debug, Copy, Clone)]
pub struct MessageHeader {
    magic: u32,
    length: u16,
    code: u16,
}

impl View for MessageHeader {
    type V = HeaderView;

    closed spec fn view(&self) -> HeaderView {
        HeaderView { magic: self.magic, length: self.length, code: self.code }
    }
}

impl MessageHeader {
    /// A valid header with the given length and code.
    pub fn new(length: u16, code: u16) -> (h: MessageHeader)
        ensures
            h@ == header_of(length, code),
    {
        MessageHeader { magic: crate::MAGIC, length: length, code: code }
    }

    /// A valid header with length and code 0.
    pub fn default() -> (h: MessageHeader)
        ensures
            h@ == header_of(0, 0),
    {
        MessageHeader { magic: crate::MAGIC, length: 0, code: 0 }
    }

    /// A header with the given fields as they are, valid or not (as read off
    /// the wire).
    pub fn from_parts(magic: u32, length: u16, code: u16) -> (h: MessageHeader)
        ensures
            h@ == (HeaderView { magic, length, code }),
    {
        MessageHeader { magic, length, code }
    }

    pub fn set(&mut self, length: u16, code: u16)
        ensures
            final(self)@ == (HeaderView { magic: old(self)@.magic, length, code }),
    {
        self.length = length;
        self.code = code;
    }

    /// The length and the code.
    pub fn get(&self) -> (r: (u16, u16))
        ensures
            r == (self@.length, self@.code),
    {
        (self.length, self.code)
    }

    /// The magic number.
    pub fn magic(&self) -> (m: u32)
        ensures
            m == self@.magic,
    {
        self.magic
    }

    /// A header is valid when it carries the magic number.
    pub fn is_valid(&self) -> (b: bool)
        ensures
            b == (self@.magic == crate::MAGIC),
    {
        self.magic == crate::MAGIC
    }
}

#[derive(Debug)]
pub struct Message {
    header: MessageHeader,
    payload: Vec<u8>,
}

impl View for Message {
    type V = MessageView;

    closed spec fn view(&self) -> MessageView {
        MessageView { header: self.header@, payload: self.payload@ }
    }
}

impl Message {
    /// A message with a default header and no payload.
    pub fn default() -> (m: Message)
        ensures
            m@ == message_of(0, 0, None),
    {
        Message { header: MessageHeader::default(), payload: Vec::new() }
    }

    /// A message with a valid header of the given length and code, and the
    /// given payload (none for `None`).  The length is taken as given: it is
    /// not checked against the payload.
    pub fn new(length: u16, code: u16, payload: Option<Vec<u8>>) -> (m: Message)
        ensures
            m@ == message_of(
                length,
                code,
                match payload {
                    Some(p) => Some(p@),
                    None => None,
                },
            ),
    {
        let mut message = Message::default();
        message.set_header(length, code);
        if let Some(payload) = payload {
            message.set_payload(payload);
        }
        message
    }

    /// A message made of the given header and payload as they are (as read
    /// off the wire).
    pub fn from_parts(header: MessageHeader, payload: Vec<u8>) -> (m: Message)
        ensures
            m@ == (MessageView { header: header@, payload: payload@ }),
    {
        Message { header, payload }
    }

    pub fn payload_len(&self) -> (n: usize)
        ensures
            n == self@.payload.len(),
    {
        return self.payload.len();
    }

    /// A copy of the payload, or `None` when it is empty.
    pub fn get_payload(&self) -> (r: Option<Vec<u8>>)
        ensures
            r matches Some(p) ==> p@ == self@.payload && self@.payload.len() != 0,
            r is None <==> self@.payload.len() == 0,
    {
        if self.payload.len() != 0 {
            Some(self.payload.clone())
        } else {
            None
        }
    }

    pub fn get_header(&self) -> (h: MessageHeader)
        ensures
            h@ == self@.header,
    {
        self.header
    }

    fn set_payload(&mut self, payload: Vec<u8>)
        ensures
            final(self)@ == (MessageView { header: old(self)@.header, payload: payload@ }),
    {
        self.payload = payload.clone()
    }

    fn set_header(&mut self, length: u16, code: u16)
        ensures
            final(self)@ == (MessageView {
                header: HeaderView { magic: old(self)@.header.magic, length, code },
                payload: old(self)@.payload,
            }),
    {
        self.header.set(length, code);
    }
}

} // verus!
