//! Packet framing: a variable-length-integer byte length, then the frame
//! body. With compression negotiated the body gains an inner length
//! field — zero for a literal body below the threshold, the uncompressed
//! length for a deflated body at or above it. With a key installed the
//! whole byte stream is enciphered underneath the framing.

use vstd::prelude::*;

use crate::cipher::CipherDirection;
use crate::cipher::StreamCipher;
use crate::cipher::cfb8_decrypt_stream;
use crate::protocol::DecodeError;
use crate::protocol::WIRE_MAX;
use crate::string::copy_range;
use crate::string::push_bytes;
use crate::var::varint_dec;
use crate::var::varint_decode_raw;
use crate::var::varint_encode_raw;
use crate::var::varint_len_raw;
use crate::var::varint_wire;
use crate::var::lemma_pow128_values;
use crate::var::lemma_varint_dec_bound;
use crate::var::lemma_varint_dec_complete;
use crate::var::lemma_varint_wire_len;

verus! {

/// What `flate2`'s zlib encoder, at its default level, produces for
/// `data`.
pub uninterp spec fn deflate_of(data: Seq<u8>) -> Seq<u8>;

/// What `flate2`'s zlib decoder recovers from `data`: the decompressed
/// bytes, or nothing when `data` is not a well-formed zlib stream.
pub uninterp spec fn inflate_of(data: Seq<u8>) -> Option<Seq<u8>>;

/// Relies on `flate2::write::ZlibEncoder` at the default level: its
/// output is a function of the input bytes, and the zlib decoder
/// recovers the input from it.
#[verifier::external_body]
fn deflate(data: &Vec<u8>) -> (r: Vec<u8>)
    ensures
        r@ == deflate_of(data@),
        inflate_of(r@) == Some(data@),
{
    let mut enc = flate2::write::ZlibEncoder::new(Vec::new(), flate2::Compression::default());
    std::io::Write::write_all(&mut enc, &data[..]).unwrap();
    enc.finish().unwrap()
}

/// Relies on `flate2::bufread::ZlibDecoder`: it yields the decompressed
/// bytes of a well-formed zlib stream and fails on anything else.
#[verifier::external_body]
fn inflate(data: &Vec<u8>) -> (r: Result<Vec<u8>, DecodeError>)
    ensures
        (match r {
            Ok(v) => inflate_of(data@) == Some(v@),
            Err(_) => inflate_of(data@) is None,
        }),
{
    let mut out = Vec::new();
    let mut dec = flate2::bufread::ZlibDecoder::new(&data[..]);
    match std::io::Read::read_to_end(&mut dec, &mut out) {
        Ok(_) => Ok(out),
        Err(_) => Err(DecodeError::BadCompression),
    }
}

/// The plain frame around a body: its length, then the body.
pub open spec fn frame_wire(body: Seq<u8>) -> Seq<u8> {
    varint_wire(body.len()) + body
}

/// The inner envelope compression wraps around a body: a literal body
/// below the threshold keeps its bytes and a zero marker; a body at or
/// above it is deflated behind its uncompressed length.
pub open spec fn inner_envelope(body: Seq<u8>, threshold: nat) -> Seq<u8> {
    if body.len() >= threshold {
        varint_wire(body.len()) + deflate_of(body)
    } else {
        seq![0u8] + body
    }
}

/// The compressed frame around a body: the envelope behind its length.
pub open spec fn compressed_frame_wire(body: Seq<u8>, threshold: nat) -> Seq<u8> {
    frame_wire(inner_envelope(body, threshold))
}

/// Frame integrity: the length at the head of a plain frame is exactly
/// the byte length of everything after it.
pub proof fn lemma_frame_integrity(body: Seq<u8>)
    requires
        body.len() <= WIRE_MAX,
    ensures
        varint_dec(frame_wire(body), 5) == Ok::<(nat, int), DecodeError>(
            (body.len(), varint_wire(body.len()).len() as int),
        ),
        frame_wire(body).len() - varint_wire(body.len()).len() == body.len(),
        frame_wire(body).skip(varint_wire(body.len()).len() as int) == body,
{
    lemma_pow128_values();
    lemma_varint_wire_len(body.len(), 5);
    lemma_varint_dec_complete(body.len(), 5, body);
    assert(frame_wire(body).skip(varint_wire(body.len()).len() as int) =~= body);
}

/// The compression threshold rule: a body below the threshold is never
/// compressed — it travels literally behind a zero marker — and a body
/// at or above it always is, behind its uncompressed length.
pub proof fn lemma_compression_threshold(body: Seq<u8>, threshold: nat)
    ensures
        body.len() < threshold ==> inner_envelope(body, threshold) == seq![0u8] + body,
        body.len() >= threshold ==> inner_envelope(body, threshold) == varint_wire(body.len())
            + deflate_of(body),
{
}

/// Split one frame off the head of the buffer: the frame's bytes and how
/// much of the buffer it took, nothing when more data is needed, or a
/// fatal framing error.
pub open spec fn split_frame(buf: Seq<u8>) -> Result<Option<(Seq<u8>, int)>, DecodeError> {
    match varint_dec(buf, 5) {
        Err(DecodeError::Eof) => Ok(None),
        Err(e) => Err(e),
        Ok((lraw, n)) => {
            let l = (lraw as u32) as i32;
            if l < 0 {
                Err(DecodeError::BadLength)
            } else if buf.len() < n + l {
                Ok(None)
            } else {
                Ok(Some((buf.subrange(n, n + l), n + l)))
            }
        },
    }
}

/// Open a frame's compression envelope: the packet body it carries, or a
/// fatal error.
pub open spec fn open_envelope(frame: Seq<u8>, threshold: nat) -> Result<Seq<u8>, DecodeError> {
    match varint_dec(frame, 5) {
        Err(e) => Err(e),
        Ok((dlraw, m)) => {
            let dl = (dlraw as u32) as i32;
            if dl < 0 {
                Err(DecodeError::BadLength)
            } else if dl as nat >= threshold {
                match inflate_of(frame.skip(m)) {
                    Some(d) => if d.len() == dl {
                        Ok(d)
                    } else {
                        Err(DecodeError::BadLength)
                    },
                    None => Err(DecodeError::BadCompression),
                }
            } else {
                Ok(frame.skip(m))
            }
        },
    }
}

/// The read half of the transport pipeline: raw received bytes are
/// deciphered as they arrive and gathered in a buffer; whole frames are
/// then split off the front and their envelopes opened.
pub struct Reader {
    buffer: Vec<u8>,
    decryptor: Option<StreamCipher>,
    compress: Option<usize>,
}

impl Reader {
    /// The bytes received and deciphered but not yet consumed.
    pub closed spec fn buffer(&self) -> Seq<u8> {
        self.buffer@
    }

    /// The installed cipher state, if any.
    pub closed spec fn decryptor(&self) -> Option<StreamCipher> {
        self.decryptor
    }

    /// The compression threshold, if negotiated.
    pub closed spec fn compress(&self) -> Option<usize> {
        self.compress
    }

    /// Whatever cipher is installed runs the decrypting direction.
    pub open spec fn wf(&self) -> bool {
        match self.decryptor() {
            Some(c) => c.direction() == CipherDirection::Decrypting,
            None => true,
        }
    }

    /// A fresh reader: no buffered bytes, no cipher, no compression.
    pub fn new() -> (r: Reader)
        ensures
            r.wf(),
            r.buffer() == Seq::<u8>::empty(),
            r.decryptor() is None,
            r.compress() is None,
    {
        Reader { buffer: Vec::new(), decryptor: None, compress: None }
    }

    /// Install the symmetric cipher; from here on received bytes are
    /// deciphered before framing sees them.
    pub fn set_decryptor(&mut self, decryptor: StreamCipher)
        requires
            decryptor.direction() == CipherDirection::Decrypting,
        ensures
            final(self).wf(),
            final(self).buffer() == old(self).buffer(),
            final(self).decryptor() == Some(decryptor),
            final(self).compress() == old(self).compress(),
    {
        self.decryptor = Some(decryptor);
    }

    /// Install the compression threshold.
    pub fn set_compress(&mut self, threshold: usize)
        ensures
            final(self).buffer() == old(self).buffer(),
            final(self).decryptor() == old(self).decryptor(),
            final(self).compress() == Some(threshold),
    {
        self.compress = Some(threshold);
    }

    /// Take in freshly received bytes: decipher them if a key is
    /// installed, and append them to the buffer.
    pub fn feed(&mut self, data: Vec<u8>)
        requires
            old(self).wf(),
            old(self).buffer().len() + data@.len() <= usize::MAX,
        ensures
            final(self).wf(),
            final(self).compress() == old(self).compress(),
            (match old(self).decryptor() {
                None => final(self).buffer() == old(self).buffer() + data@ && final(self).decryptor() is None,
                Some(c) => final(self).buffer() == old(self).buffer() + cfb8_decrypt_stream(
                    c.key(),
                    c.processed() + data@,
                ).skip(c.processed().len() as int) && (final(self).decryptor() matches Some(c2)
                    && c2.key() == c.key() && c2.processed() == c.processed() + data@),
            }),
    {
        let mut data = data;
        match &mut self.decryptor {
            None => {},
            Some(c) => {
                c.decrypt(&mut data);
            },
        }
        push_bytes(&mut self.buffer, data.as_slice());
    }

    /// Try to take one whole packet body out of the buffer: the body if a
    /// whole frame was present, nothing if more bytes are needed, or a
    /// fatal framing error. Whatever was consumed leaves the buffer.
    pub fn try_next(&mut self) -> (r: Result<Option<Vec<u8>>, DecodeError>)
        ensures
            final(self).decryptor() == old(self).decryptor(),
            final(self).compress() == old(self).compress(),
            (match r {
                Ok(None) => split_frame(old(self).buffer()) == Ok::<
                    Option<(Seq<u8>, int)>,
                    DecodeError,
                >(None) && final(self).buffer() == old(self).buffer(),
                Ok(Some(body)) => split_frame(old(self).buffer()) matches Ok(Some((f, c)))
                    && final(self).buffer() == old(self).buffer().skip(c) && (match old(self).compress() {
                    None => body@ == f,
                    Some(t) => open_envelope(f, t as nat) == Ok::<Seq<u8>, DecodeError>(body@),
                }),
                Err(e) => (split_frame(old(self).buffer()) == Err::<
                    Option<(Seq<u8>, int)>,
                    DecodeError,
                >(e) && final(self).buffer() == old(self).buffer()) || (split_frame(
                    old(self).buffer(),
                ) matches Ok(Some((f, c))) && (final(self).buffer() == old(self).buffer().skip(c)
                    && (old(self).compress() matches Some(t) && open_envelope(f, t as nat)
                    == Err::<Seq<u8>, DecodeError>(e)))),
            }),
    {
        let ghost buf0 = self.buffer@;
        let blen = self.buffer.len();
        match varint_decode_raw(self.buffer.as_slice(), 0, 5) {
            Err(DecodeError::Eof) => {
                proof {
                    assert(self.buffer@.skip(0) =~= self.buffer@);
                }
                return Ok(None);
            },
            Err(e) => {
                proof {
                    assert(self.buffer@.skip(0) =~= self.buffer@);
                }
                return Err(e);
            },
            Ok((lraw, n)) => {
                proof {
                    assert(self.buffer@.skip(0) =~= self.buffer@);
                    lemma_varint_dec_bound(self.buffer@, 5);
                    lemma_pow128_values();
                }
                let l = (lraw as u32) as i32;
                if l < 0 {
                    return Err(DecodeError::BadLength);
                }
                let llen = l as usize;
                if blen - n < llen {
                    assert(buf0.len() < n + l);
                    return Ok(None);
                }
                let frame = copy_range(self.buffer.as_slice(), n, n + llen);
                let rest = copy_range(self.buffer.as_slice(), n + llen, blen);
                self.buffer = rest;
                proof {
                    assert(frame@ =~= buf0.subrange(n as int, n + l));
                    assert(self.buffer@ =~= buf0.skip(n + l));
                }
                let threshold = match &self.compress {
                    None => {
                        return Ok(Some(frame));
                    },
                    Some(t) => *t,
                };
                // the envelope: an inner uncompressed length, then the body
                let ghost f = frame@;
                match varint_decode_raw(frame.as_slice(), 0, 5) {
                    Err(e) => {
                        proof {
                            assert(frame@.skip(0) =~= frame@);
                        }
                        return Err(e);
                    },
                    Ok((dlraw, m)) => {
                        proof {
                            assert(frame@.skip(0) =~= frame@);
                            lemma_varint_dec_bound(frame@, 5);
                        }
                        let dl = (dlraw as u32) as i32;
                        if dl < 0 {
                            return Err(DecodeError::BadLength);
                        }
                        let body_raw = copy_range(frame.as_slice(), m, frame.len());
                        proof {
                            assert(body_raw@ =~= f.skip(m as int));
                        }
                        if dl as usize >= threshold {
                            match inflate(&body_raw) {
                                Err(_) => Err(DecodeError::BadCompression),
                                Ok(d) => {
                                    if d.len() == dl as usize {
                                        Ok(Some(d))
                                    } else {
                                        Err(DecodeError::BadLength)
                                    }
                                },
                            }
                        } else {
                            Ok(Some(body_raw))
                        }
                    },
                }
            },
        }
    }
}

/// The write half of the transport pipeline: a packet body is framed
/// (compressed when negotiated), and the framed bytes are enciphered
/// when a key is installed.
pub struct Writer {
    encryptor: Option<StreamCipher>,
    compress: Option<usize>,
}

impl Writer {
    /// The installed cipher state, if any.
    pub closed spec fn encryptor(&self) -> Option<StreamCipher> {
        self.encryptor
    }

    /// The compression threshold, if negotiated.
    pub closed spec fn compress(&self) -> Option<usize> {
        self.compress
    }

    /// Whatever cipher is installed runs the encrypting direction.
    pub open spec fn wf(&self) -> bool {
        match self.encryptor() {
            Some(c) => c.direction() == CipherDirection::Encrypting,
            None => true,
        }
    }

    /// What framing alone (before the cipher) makes of a body.
    pub open spec fn framed(&self, body: Seq<u8>) -> Seq<u8> {
        match self.compress() {
            None => frame_wire(body),
            Some(t) => compressed_frame_wire(body, t as nat),
        }
    }

    /// A fresh writer: no cipher, no compression.
    pub fn new() -> (r: Writer)
        ensures
            r.wf(),
            r.encryptor() is None,
            r.compress() is None,
    {
        Writer { encryptor: None, compress: None }
    }

    /// Install the symmetric cipher; from here on framed bytes are
    /// enciphered before they go out.
    pub fn set_encryptor(&mut self, encryptor: StreamCipher)
        requires
            encryptor.direction() == CipherDirection::Encrypting,
        ensures
            final(self).wf(),
            final(self).encryptor() == Some(encryptor),
            final(self).compress() == old(self).compress(),
    {
        self.encryptor = Some(encryptor);
    }

    /// Install the compression threshold.
    pub fn set_compress(&mut self, threshold: usize)
        ensures
            final(self).encryptor() == old(self).encryptor(),
            final(self).compress() == Some(threshold),
    {
        self.compress = Some(threshold);
    }

    /// Frame one packet body and encipher the result: the bytes to hand
    /// to the socket. Fails only when the framed form would not fit its
    /// own 31-bit length prefix.
    pub fn write_frame(&mut self, body: &Vec<u8>) -> (r: Result<Vec<u8>, DecodeError>)
        requires
            old(self).wf(),
        ensures
            final(self).wf(),
            final(self).compress() == old(self).compress(),
            (match r {
                Ok(_) => (match old(self).compress() {
                    Some(t) => body@.len() >= t ==> inflate_of(deflate_of(body@)) == Some(body@),
                    None => true,
                }),
                Err(_) => true,
            }),
            (match r {
                Ok(out) => {
                    let plain = old(self).framed(body@);
                    match old(self).encryptor() {
                        None => out@ == plain && final(self).encryptor() is None,
                        Some(c) => out@ == crate::cipher::cfb8_encrypt_stream(
                            c.key(),
                            c.processed() + plain,
                        ).skip(c.processed().len() as int) && (final(self).encryptor()
                            matches Some(c2) && c2.key() == c.key() && c2.processed()
                            == c.processed() + plain),
                    }
                },
                Err(_) => final(self).encryptor() == old(self).encryptor() && (body@.len()
                    > WIRE_MAX || (old(self).compress() matches Some(t) && inner_envelope(
                    body@,
                    t as nat,
                ).len() > WIRE_MAX)),
            }),
    {
        if body.len() > WIRE_MAX {
            return Err(DecodeError::BadLength);
        }
        let mut plain: Vec<u8> = Vec::new();
        match &self.compress {
            None => {
                proof {
                    lemma_pow128_values();
                    lemma_varint_wire_len(body@.len(), 5);
                }
                varint_encode_raw(body.len() as u64, &mut plain);
                push_bytes(&mut plain, body.as_slice());
                assert(plain@ =~= frame_wire(body@));
            },
            Some(t) => {
                let threshold = *t;
                let mut envelope: Vec<u8> = Vec::new();
                if body.len() >= threshold {
                    proof {
                        lemma_pow128_values();
                        lemma_varint_wire_len(body@.len(), 5);
                    }
                    varint_encode_raw(body.len() as u64, &mut envelope);
                    let compressed = deflate(body);
                    if compressed.len() > WIRE_MAX || envelope.len() + compressed.len()
                        > WIRE_MAX {
                        return Err(DecodeError::BadLength);
                    }
                    push_bytes(&mut envelope, compressed.as_slice());
                } else {
                    envelope.push(0u8);
                    push_bytes(&mut envelope, body.as_slice());
                    proof {
                        assert(varint_wire(0) =~= seq![0u8]);
                    }
                }
                assert(envelope@ =~= inner_envelope(body@, threshold as nat));
                if envelope.len() > WIRE_MAX {
                    return Err(DecodeError::BadLength);
                }
                proof {
                    lemma_pow128_values();
                    lemma_varint_wire_len(envelope@.len(), 5);
                }
                varint_encode_raw(envelope.len() as u64, &mut plain);
                push_bytes(&mut plain, envelope.as_slice());
                assert(plain@ =~= compressed_frame_wire(body@, threshold as nat));
            },
        }
        match &mut self.encryptor {
            None => Ok(plain),
            Some(c) => {
                c.encrypt(&mut plain);
                Ok(plain)
            },
        }
    }
}

} // verus!
