//! The byte transforms that the server applies to payloads.
//!
//! Users plug their own algorithms in by implementing `_Encode`, `_Decode`,
//! `_Compress` and `_Decompress`.  Each trait has a relation that says how
//! its method may end for a given payload; an implementation that does not
//! define it allows any outcome, and the implementations in this crate
//! define it exactly.  Code that runs a method states its outcome through
//! that relation, for the payload it hands in.
use vstd::prelude::*;

verus! {

pub trait _Encode {
    /// How an encoding of `before` may end: with `after` in the payload and
    /// `ok` as whether it succeeded.  An implementation that does not say
    /// allows any outcome.
    open spec fn encode_rel(&self, before: Seq<u8>, after: Seq<u8>, ok: bool) -> bool {
        true
    }

    fn _encode(&self, payload: &mut Vec<u8>) -> (r: Result<(), std::io::Error>)
        ensures
            self.encode_rel(old(payload)@, final(payload)@, r is Ok),
    ;
}

pub trait _Decode {
    /// How a decoding of `before` may end (see `_Encode::encode_rel`).
    open spec fn decode_rel(&self, before: Seq<u8>, after: Seq<u8>, ok: bool) -> bool {
        true
    }

    fn _decode(&self, payload: &mut Vec<u8>) -> (r: Result<(), std::io::Error>)
        ensures
            self.decode_rel(old(payload)@, final(payload)@, r is Ok),
    ;
}

pub trait _Compress {
    /// How a compression of `before` may end (see `_Encode::encode_rel`).
    open spec fn compress_rel(&self, before: Seq<u8>, after: Seq<u8>, ok: bool) -> bool {
        true
    }

    fn _compress(&self, payload: &mut Vec<u8>) -> (r: Result<(), std::io::Error>)
        ensures
            self.compress_rel(old(payload)@, final(payload)@, r is Ok),
    ;
}

pub trait _Decompress {
    /// How a decompression of `before` may end (see `_Encode::encode_rel`).
    open spec fn decompress_rel(&self, before: Seq<u8>, after: Seq<u8>, ok: bool) -> bool {
        true
    }

    fn _decompress(&self, payload: &mut Vec<u8>) -> (r: Result<(), std::io::Error>)
        ensures
            self.decompress_rel(old(payload)@, final(payload)@, r is Ok),
    ;
}

/// A transform in both directions: `true` transforms a payload "to" its
/// encoded or compressed form, `false` "from" it.
pub trait Transform {
    /// How a transform in `direction` of `before` may end (see
    /// `_Encode::encode_rel`).
    open spec fn transform_rel(&self, direction: bool, before: Seq<u8>, after: Seq<u8>, ok: bool) -> bool {
        true
    }

    fn transform(&self, direction: bool, payload: &mut Vec<u8>) -> (r: Result<(), std::io::Error>)
        ensures
            self.transform_rel(direction, old(payload)@, final(payload)@, r is Ok),
    ;
}

/// A transform made of optional methods.  To a payload, encoding is applied
/// when there is an encoder, else compression when there is a compressor;
/// from a payload, decoding when there is a decoder, else decompression.
pub struct TransformPayload {
    pub to_method_e: Option<Box<dyn _Encode>>,
    pub from_method_ed: Option<Box<dyn _Decode>>,
    pub to_method_c: Option<Box<dyn _Compress>>,
    pub from_method_cd: Option<Box<dyn _Decompress>>,
}

/// The method a `TransformPayload` applies.
#[derive(Copy, Clone, Debug, PartialEq, Eq, Structural)]
pub enum TransformStep {
    Encode,
    Compress,
    Decode,
    Decompress,
}

impl TransformPayload {
    /// The method applied in `direction`: to a payload, the encoder if there
    /// is one, else the compressor; from a payload, the decoder if there is
    /// one, else the decompressor; `None` when neither is there.
    pub open spec fn chosen(&self, direction: bool) -> Option<TransformStep> {
        if direction {
            if self.to_method_e is Some {
                Some(TransformStep::Encode)
            } else if self.to_method_c is Some {
                Some(TransformStep::Compress)
            } else {
                None
            }
        } else {
            if self.from_method_ed is Some {
                Some(TransformStep::Decode)
            } else if self.from_method_cd is Some {
                Some(TransformStep::Decompress)
            } else {
                None
            }
        }
    }

    /// The method applied in `direction` (see `chosen`).
    pub fn chosen_step(&self, direction: bool) -> (r: Option<TransformStep>)
        ensures
            r == self.chosen(direction),
    {
        if direction {
            if self.to_method_e.is_some() {
                Some(TransformStep::Encode)
            } else if self.to_method_c.is_some() {
                Some(TransformStep::Compress)
            } else {
                None
            }
        } else {
            if self.from_method_ed.is_some() {
                Some(TransformStep::Decode)
            } else if self.from_method_cd.is_some() {
                Some(TransformStep::Decompress)
            } else {
                None
            }
        }
    }
}

impl Transform for TransformPayload {
    /// The chosen method's relation for the payload as it is handed in;
    /// with no method chosen, the payload stays as it is and the transform
    /// fails.
    open spec fn transform_rel(&self, direction: bool, before: Seq<u8>, after: Seq<u8>, ok: bool) -> bool {
        match self.chosen(direction) {
            Some(TransformStep::Encode) => self.to_method_e.unwrap().encode_rel(before, after, ok),
            Some(TransformStep::Compress) => self.to_method_c.unwrap().compress_rel(before, after, ok),
            Some(TransformStep::Decode) => self.from_method_ed.unwrap().decode_rel(before, after, ok),
            Some(TransformStep::Decompress) => self.from_method_cd.unwrap().decompress_rel(
                before,
                after,
                ok,
            ),
            None => !ok && after == before,
        }
    }

    /// Applies the method chosen for `direction` (see `chosen`) to the
    /// payload and gives what it gives; with no method for `direction`, the
    /// payload is left as it is and the result is an error.
    fn transform(&self, direction: bool, payload: &mut Vec<u8>) -> (r: Result<(), std::io::Error>) {
        match self.chosen_step(direction) {
            Some(TransformStep::Encode) => self.to_method_e.as_ref().unwrap()._encode(payload),
            Some(TransformStep::Compress) => self.to_method_c.as_ref().unwrap()._compress(payload),
            Some(TransformStep::Decode) => self.from_method_ed.as_ref().unwrap()._decode(payload),
            Some(TransformStep::Decompress) => self.from_method_cd.as_ref().unwrap()._decompress(
                payload,
            ),
            None => Err(crate::primitives::other_io_error("Not implemented")),
        }
    }
}

/// A payload runner with one encoder.
pub struct Payload {
    pub method: Box<dyn _Encode>,
}

impl Payload {
    /// Encodes `bytes` in place with the encoder; whether it succeeded is
    /// not kept.
    pub fn run(&self, bytes: &mut Vec<u8>)
        ensures
            self.method.encode_rel(old(bytes)@, final(bytes)@, true)
                || self.method.encode_rel(old(bytes)@, final(bytes)@, false),
    {
        let _ = self.method._encode(bytes);
    }
}

/// A payload runner with an encoder and a decoder.
pub struct EncodePayload {
    pub to_method: Box<dyn _Encode>,
    pub from_method: Box<dyn _Decode>,
}

impl EncodePayload {
    /// Encodes `bytes` in place; whether the encoder succeeded is not kept.
    pub fn run_to(&self, bytes: &mut Vec<u8>)
        ensures
            self.to_method.encode_rel(old(bytes)@, final(bytes)@, true)
                || self.to_method.encode_rel(old(bytes)@, final(bytes)@, false),
    {
        let _ = self.to_method._encode(bytes);
    }

    /// Decodes `bytes` in place; whether the decoder succeeded is not kept.
    pub fn run_from(&self, bytes: &mut Vec<u8>)
        ensures
            self.from_method.decode_rel(old(bytes)@, final(bytes)@, true)
                || self.from_method.decode_rel(old(bytes)@, final(bytes)@, false),
    {
        let _ = self.from_method._decode(bytes);
    }
}

/// A payload with a method to transform it and one to transform it back.
pub struct _Payload<T, F> {
    pub bytes: Vec<u8>,
    to_method: T,
    from_method: F,
}

impl<T, F> _Payload<T, F> {
    /// The bytes held.
    pub closed spec fn bytes_spec(&self) -> Seq<u8> {
        self.bytes@
    }

    /// The method that transforms to.
    pub closed spec fn to_spec(&self) -> T {
        self.to_method
    }

    /// The method that transforms back.
    pub closed spec fn from_spec(&self) -> F {
        self.from_method
    }

    pub fn new(bytes: Vec<u8>, to_method: T, from_method: F) -> (p: Self)
        ensures
            p.bytes_spec() == bytes@,
            p.to_spec() == to_method,
            p.from_spec() == from_method,
    {
        _Payload { bytes, to_method, from_method }
    }
}

impl<T, F> _Payload<T, F> where T: _Encode, F: _Decode {
    /// Encodes `bytes` in place; whether it succeeded is not kept.
    pub fn run_to_encode(&self, bytes: &mut Vec<u8>)
        ensures
            self.to_spec().encode_rel(old(bytes)@, final(bytes)@, true)
                || self.to_spec().encode_rel(old(bytes)@, final(bytes)@, false),
    {
        let _ = self.to_method._encode(bytes);
    }

    /// Decodes `bytes` in place; whether it succeeded is not kept.
    pub fn run_from_encode(&self, bytes: &mut Vec<u8>)
        ensures
            self.from_spec().decode_rel(old(bytes)@, final(bytes)@, true)
                || self.from_spec().decode_rel(old(bytes)@, final(bytes)@, false),
    {
        let _ = self.from_method._decode(bytes);
    }
}

impl<T, F> _Payload<T, F> where T: _Compress, F: _Decompress {
    /// Compresses `bytes` in place; whether it succeeded is not kept.
    pub fn run_to_compress(&self, bytes: &mut Vec<u8>)
        ensures
            self.to_spec().compress_rel(old(bytes)@, final(bytes)@, true)
                || self.to_spec().compress_rel(old(bytes)@, final(bytes)@, false),
    {
        let _ = self.to_method._compress(bytes);
    }

    /// Decompresses `bytes` in place; whether it succeeded is not kept.
    pub fn run_from_compress(&self, bytes: &mut Vec<u8>)
        ensures
            self.from_spec().decompress_rel(old(bytes)@, final(bytes)@, true)
                || self.from_spec().decompress_rel(old(bytes)@, final(bytes)@, false),
    {
        let _ = self.from_method._decompress(bytes);
    }
}

/// A payload that can be encoded by an encoder of type `E`.
pub trait ___Payload<E: _Encode> {
    type Input;

    fn encode<T>(&self, payload: &mut T) -> Result<(), std::io::Error>;
}

/// A payload of any type.
pub struct __Payload<T> {
    pub bytes: T,
}

/// The identity transform: every method leaves the payload as it is and
/// succeeds.
#[derive(Copy, Clone)]
pub struct Default {}

impl _Encode for Default {
    /// The payload stays as it is, and it succeeds.
    open spec fn encode_rel(&self, before: Seq<u8>, after: Seq<u8>, ok: bool) -> bool {
        after == before && ok
    }

    fn _encode(&self, payload: &mut Vec<u8>) -> (r: Result<(), std::io::Error>) {
        Ok(())
    }
}

impl _Decode for Default {
    /// The payload stays as it is, and it succeeds.
    open spec fn decode_rel(&self, before: Seq<u8>, after: Seq<u8>, ok: bool) -> bool {
        after == before && ok
    }

    fn _decode(&self, payload: &mut Vec<u8>) -> (r: Result<(), std::io::Error>) {
        Ok(())
    }
}

impl _Compress for Default {
    /// The payload stays as it is, and it succeeds.
    open spec fn compress_rel(&self, before: Seq<u8>, after: Seq<u8>, ok: bool) -> bool {
        after == before && ok
    }

    fn _compress(&self, payload: &mut Vec<u8>) -> (r: Result<(), std::io::Error>) {
        Ok(())
    }
}

impl _Decompress for Default {
    /// The payload stays as it is, and it succeeds.
    open spec fn decompress_rel(&self, before: Seq<u8>, after: Seq<u8>, ok: bool) -> bool {
        after == before && ok
    }

    fn _decompress(&self, payload: &mut Vec<u8>) -> (r: Result<(), std::io::Error>) {
        Ok(())
    }
}

} // verus!
