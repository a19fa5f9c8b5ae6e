// Protobuf messages of the QUIC frames (package `rustp2p.quic.v3`):
//
//   message StreamHeader  { string src = 1; string dest = 2; }
//   message StreamFrame   { oneof frame { StreamHeader user = 1; } }
//   message UserDatagram  { uint64 id = 1; string src = 2; string dest = 3; bytes payload = 4; }
//   message DatagramFrame { oneof frame { UserDatagram user = 1; } }

use vstd::prelude::*;
use vstd::slice::slice_to_vec;
use vstd::utf8::{decode_utf8, encode_utf8, valid_utf8};
use crate::quic::packet::str_from_utf8;
use crate::quic::wire::{
    FieldValue, WireField, WireValue, fold_fields, len_field, lemma_fold_first_field,
    lemma_fold_unfold, lemma_parse_field_len, lemma_parse_len_field, lemma_parse_varint_field, read_field,
    varint_field, write_len_field, write_varint_field,
};

verus! {

/// How deep groups in unknown fields of a top-level message may nest: protobuf's recursion
/// limit.
pub const MESSAGE_DEPTH: u32 = 100;

/// The same for a message inside a top-level message, one level down.
pub const NESTED_DEPTH: u32 = 99;

/// A protobuf payload that cannot be read as the expected message.
#[derive(Clone, Copy, Debug, PartialEq, Eq, Structural)]
pub struct DecodeError;

/// Protobuf message `StreamHeader`: field 1 `src` and field 2 `dest`, both strings.
#[derive(Clone, Debug)]
pub struct StreamHeader {
    pub src: String,
    pub dest: String,
}

/// Protobuf message `UserDatagram`: field 1 `id` (uint64), 2 `src` and 3 `dest` (strings),
/// 4 `payload` (bytes).
#[derive(Clone, Debug)]
pub struct UserDatagram {
    pub id: u64,
    pub src: String,
    pub dest: String,
    pub payload: Vec<u8>,
}

/// The `frame` oneof of `StreamFrame`.
#[derive(Clone, Debug)]
pub enum StreamFrameKind {
    /// Field 1.
    User(StreamHeader),
}

/// Protobuf message `StreamFrame`: a oneof with the user stream header as field 1.
#[derive(Clone, Debug)]
pub struct StreamFrame {
    pub frame: Option<StreamFrameKind>,
}

/// The `frame` oneof of `DatagramFrame`.
#[derive(Clone, Debug)]
pub enum DatagramFrameKind {
    /// Field 1.
    User(UserDatagram),
}

/// Protobuf message `DatagramFrame`: a oneof with the user datagram as field 1.
#[derive(Clone, Debug)]
pub struct DatagramFrame {
    pub frame: Option<DatagramFrameKind>,
}

/// A stream header as text: source and destination.
pub type HeaderView = (Seq<char>, Seq<char>);

/// A user datagram as values: id, source, destination and payload.
pub type UserView = (u64, Seq<char>, Seq<char>, Seq<u8>);

impl View for StreamHeader {
    type V = HeaderView;

    open spec fn view(&self) -> HeaderView {
        (self.src@, self.dest@)
    }
}

impl View for UserDatagram {
    type V = UserView;

    open spec fn view(&self) -> UserView {
        (self.id, self.src@, self.dest@, self.payload@)
    }
}

impl View for StreamFrame {
    type V = Option<HeaderView>;

    open spec fn view(&self) -> Option<HeaderView> {
        match self.frame {
            Some(StreamFrameKind::User(h)) => Some(h@),
            None => None,
        }
    }
}

impl View for DatagramFrame {
    type V = Option<UserView>;

    open spec fn view(&self) -> Option<UserView> {
        match self.frame {
            Some(DatagramFrameKind::User(u)) => Some(u@),
            None => None,
        }
    }
}

// Encoding. As protobuf does for proto3 fields, an empty string or byte field and a zero
// integer are left out; a oneof that is set is always written.

/// A string field numbered `tag`, left out when the text is empty.
pub open spec fn string_field(tag: nat, s: Seq<char>) -> Seq<u8> {
    if s.len() == 0 {
        Seq::empty()
    } else {
        len_field(tag, encode_utf8(s))
    }
}

/// A bytes field numbered `tag`, left out when empty.
pub open spec fn bytes_field(tag: nat, b: Seq<u8>) -> Seq<u8> {
    if b.len() == 0 {
        Seq::empty()
    } else {
        len_field(tag, b)
    }
}

/// The encoding of a `StreamHeader`.
pub open spec fn header_bytes(h: HeaderView) -> Seq<u8> {
    string_field(1, h.0) + string_field(2, h.1)
}

/// The encoding of a `UserDatagram`.
pub open spec fn user_datagram_bytes(u: UserView) -> Seq<u8> {
    (if u.0 == 0 {
        Seq::empty()
    } else {
        varint_field(1, u.0 as nat)
    }) + string_field(2, u.1) + string_field(3, u.2) + bytes_field(4, u.3)
}

/// The encoding of a `StreamFrame`.
pub open spec fn stream_frame_bytes(f: Option<HeaderView>) -> Seq<u8> {
    match f {
        Some(h) => len_field(1, header_bytes(h)),
        None => Seq::empty(),
    }
}

/// The encoding of a `DatagramFrame`.
pub open spec fn datagram_frame_bytes(f: Option<UserView>) -> Seq<u8> {
    match f {
        Some(u) => len_field(1, user_datagram_bytes(u)),
        None => Seq::empty(),
    }
}

// Decoding. Fields may come in any order and more than once: a later scalar replaces an
// earlier one, a later embedded message is merged into the earlier one, and unknown fields
// are skipped. A known field of the wrong wire type, or a string that is not UTF-8, is refused.

/// The text of a string field, if the field is length-delimited and holds UTF-8.
pub open spec fn string_value(v: WireValue) -> Option<Seq<char>> {
    match v {
        WireValue::Bytes(b) => if valid_utf8(b) {
            Some(decode_utf8(b))
        } else {
            None
        },
        _ => None,
    }
}

/// One field read into a `StreamHeader`.
pub open spec fn header_step(h: HeaderView, f: WireField) -> Option<HeaderView> {
    if f.tag == 1 {
        match string_value(f.value) {
            Some(s) => Some((s, h.1)),
            None => None,
        }
    } else if f.tag == 2 {
        match string_value(f.value) {
            Some(s) => Some((h.0, s)),
            None => None,
        }
    } else {
        Some(h)
    }
}

/// The `StreamHeader` that `s` merged into `h` gives, with groups in unknown fields nesting
/// while `depth` stays above one.
pub open spec fn merge_header(s: Seq<u8>, h: HeaderView, depth: nat) -> Option<HeaderView> {
    fold_fields(s, h, header_steps(), depth)
}

/// One field read into a `UserDatagram`.
pub open spec fn user_step(u: UserView, f: WireField) -> Option<UserView> {
    if f.tag == 1 {
        match f.value {
            WireValue::Varint(x) => Some((x, u.1, u.2, u.3)),
            _ => None,
        }
    } else if f.tag == 2 {
        match string_value(f.value) {
            Some(s) => Some((u.0, s, u.2, u.3)),
            None => None,
        }
    } else if f.tag == 3 {
        match string_value(f.value) {
            Some(s) => Some((u.0, u.1, s, u.3)),
            None => None,
        }
    } else if f.tag == 4 {
        match f.value {
            WireValue::Bytes(b) => Some((u.0, u.1, u.2, b)),
            _ => None,
        }
    } else {
        Some(u)
    }
}

/// The `UserDatagram` that `s` merged into `u` gives, with groups in unknown fields nesting
/// while `depth` stays above one.
pub open spec fn merge_user(s: Seq<u8>, u: UserView, depth: nat) -> Option<UserView> {
    fold_fields(s, u, user_steps(), depth)
}

/// The empty `StreamHeader`.
pub open spec fn empty_header() -> HeaderView {
    (Seq::empty(), Seq::empty())
}

/// The empty `UserDatagram`.
pub open spec fn empty_user() -> UserView {
    (0, Seq::empty(), Seq::empty(), Seq::empty())
}

/// One field read into a `StreamFrame`.
pub open spec fn stream_frame_step(fr: Option<HeaderView>, f: WireField) -> Option<
    Option<HeaderView>,
> {
    if f.tag == 1 {
        match f.value {
            WireValue::Bytes(b) => match merge_header(
                b,
                match fr {
                    Some(h) => h,
                    None => empty_header(),
                },
                NESTED_DEPTH as nat,
            ) {
                Some(h) => Some(Some(h)),
                None => None,
            },
            _ => None,
        }
    } else {
        Some(fr)
    }
}

/// One field read into a `DatagramFrame`.
pub open spec fn datagram_frame_step(fr: Option<UserView>, f: WireField) -> Option<
    Option<UserView>,
> {
    if f.tag == 1 {
        match f.value {
            WireValue::Bytes(b) => match merge_user(
                b,
                match fr {
                    Some(u) => u,
                    None => empty_user(),
                },
                NESTED_DEPTH as nat,
            ) {
                Some(u) => Some(Some(u)),
                None => None,
            },
            _ => None,
        }
    } else {
        Some(fr)
    }
}

/// [`header_step`] as a function value.
pub open spec fn header_steps() -> spec_fn(HeaderView, WireField) -> Option<HeaderView> {
    |h: HeaderView, f: WireField| header_step(h, f)
}

/// [`user_step`] as a function value.
pub open spec fn user_steps() -> spec_fn(UserView, WireField) -> Option<UserView> {
    |u: UserView, f: WireField| user_step(u, f)
}

/// [`stream_frame_step`] as a function value.
pub open spec fn stream_frame_steps() -> spec_fn(Option<HeaderView>, WireField) -> Option<
    Option<HeaderView>,
> {
    |fr: Option<HeaderView>, f: WireField| stream_frame_step(fr, f)
}

/// [`datagram_frame_step`] as a function value.
pub open spec fn datagram_frame_steps() -> spec_fn(Option<UserView>, WireField) -> Option<
    Option<UserView>,
> {
    |fr: Option<UserView>, f: WireField| datagram_frame_step(fr, f)
}

/// The `StreamFrame` that `s` decodes to.
pub open spec fn decode_stream_frame_bytes(s: Seq<u8>) -> Option<Option<HeaderView>> {
    fold_fields(s, None, stream_frame_steps(), MESSAGE_DEPTH as nat)
}

/// The `DatagramFrame` that `s` decodes to.
pub open spec fn decode_datagram_frame_bytes(s: Seq<u8>) -> Option<Option<UserView>> {
    fold_fields(s, None, datagram_frame_steps(), MESSAGE_DEPTH as nat)
}

/// Appends a string field numbered `tag`, unless the text is empty.
fn write_string_field(out: &mut Vec<u8>, tag: u64, s: &String)
    requires
        tag <= 0x1fff_ffff,
    ensures
        final(out)@ == old(out)@ + string_field(tag as nat, s@),
{
    if !s.as_str().is_empty() {
        write_len_field(out, tag, s.as_str().as_bytes());
    } else {
        assert(old(out)@ + Seq::<u8>::empty() =~= old(out)@);
    }
}

impl StreamHeader {
    /// Appends the fields of the header.
    pub fn encode_raw(&self, out: &mut Vec<u8>)
        ensures
            final(out)@ == old(out)@ + header_bytes(self@),
    {
        write_string_field(out, 1, &self.src);
        write_string_field(out, 2, &self.dest);
        assert(out@ =~= old(out)@ + header_bytes(self@));
    }

    /// Reads the fields of `bytes` into this header, at nesting `depth`.
    pub fn merge(self, bytes: &[u8], depth: u32) -> (r: Result<StreamHeader, DecodeError>)
        ensures
            match merge_header(bytes@, self@, depth as nat) {
                Some(h) => r matches Ok(x) && x@ == h,
                None => r == Err::<StreamHeader, DecodeError>(DecodeError),
            },
    {
        let ghost h0 = self@;
        let mut cur = self;
        let mut pos: usize = 0;
        proof {
            assert(bytes@.skip(0) =~= bytes@);
        }
        while pos < bytes.len()
            invariant
                pos <= bytes@.len(),
                h0 == self@,
                merge_header(bytes@, h0, depth as nat) == merge_header(
                    bytes@.skip(pos as int),
                    cur@,
                    depth as nat,
                ),
            decreases bytes@.len() - pos,
        {
            let ghost t = bytes@.skip(pos as int);
            proof {
                lemma_parse_field_len(t, depth as nat);
                lemma_fold_unfold(t, cur@, header_steps(), depth as nat);
            }
            let (tag, v, next) = match read_field(bytes, pos, depth) {
                Some(x) => x,
                None => return Err(DecodeError),
            };
            proof {
                assert(t.skip(next - pos) =~= bytes@.skip(next as int));
            }
            if tag == 1 || tag == 2 {
                let text = match v {
                    FieldValue::Bytes(a, c) => match str_from_utf8(&bytes[a..c]) {
                        Some(x) => x.to_owned(),
                        None => return Err(DecodeError),
                    },
                    _ => return Err(DecodeError),
                };
                if tag == 1 {
                    cur.src = text;
                } else {
                    cur.dest = text;
                }
            }
            pos = next;
        }
        proof {
            assert(bytes@.skip(pos as int).len() == 0);
        }
        Ok(cur)
    }
}

impl UserDatagram {
    /// Appends the fields of the datagram.
    pub fn encode_raw(&self, out: &mut Vec<u8>)
        ensures
            final(out)@ == old(out)@ + user_datagram_bytes(self@),
    {
        let ghost start = out@;
        if self.id != 0 {
            write_varint_field(out, 1, self.id);
        }
        let ghost a = out@;
        assert(a =~= start + (if self.id == 0 {
            Seq::empty()
        } else {
            varint_field(1, self.id as nat)
        }));
        write_string_field(out, 2, &self.src);
        write_string_field(out, 3, &self.dest);
        if self.payload.len() != 0 {
            write_len_field(out, 4, self.payload.as_slice());
        }
        assert(out@ =~= old(out)@ + user_datagram_bytes(self@));
    }

    /// Reads the fields of `bytes` into this datagram, at nesting `depth`.
    pub fn merge(self, bytes: &[u8], depth: u32) -> (r: Result<UserDatagram, DecodeError>)
        ensures
            match merge_user(bytes@, self@, depth as nat) {
                Some(u) => r matches Ok(x) && x@ == u,
                None => r == Err::<UserDatagram, DecodeError>(DecodeError),
            },
    {
        let ghost u0 = self@;
        let mut cur = self;
        let mut pos: usize = 0;
        proof {
            assert(bytes@.skip(0) =~= bytes@);
        }
        while pos < bytes.len()
            invariant
                pos <= bytes@.len(),
                u0 == self@,
                merge_user(bytes@, u0, depth as nat) == merge_user(
                    bytes@.skip(pos as int),
                    cur@,
                    depth as nat,
                ),
            decreases bytes@.len() - pos,
        {
            let ghost t = bytes@.skip(pos as int);
            proof {
                lemma_parse_field_len(t, depth as nat);
                lemma_fold_unfold(t, cur@, user_steps(), depth as nat);
            }
            let (tag, v, next) = match read_field(bytes, pos, depth) {
                Some(x) => x,
                None => return Err(DecodeError),
            };
            proof {
                assert(t.skip(next - pos) =~= bytes@.skip(next as int));
            }
            if tag == 1 {
                match v {
                    FieldValue::Varint(x) => {
                        cur.id = x;
                    },
                    _ => return Err(DecodeError),
                }
            } else if tag == 2 || tag == 3 {
                let text = match v {
                    FieldValue::Bytes(a, c) => match str_from_utf8(&bytes[a..c]) {
                        Some(x) => x.to_owned(),
                        None => return Err(DecodeError),
                    },
                    _ => return Err(DecodeError),
                };
                if tag == 2 {
                    cur.src = text;
                } else {
                    cur.dest = text;
                }
            } else if tag == 4 {
                match v {
                    FieldValue::Bytes(a, c) => {
                        cur.payload = slice_to_vec(&bytes[a..c]);
                    },
                    _ => return Err(DecodeError),
                }
            }
            pos = next;
        }
        proof {
            assert(bytes@.skip(pos as int).len() == 0);
        }
        Ok(cur)
    }
}

impl StreamFrame {
    /// The encoding of the message.
    pub fn encode_to_vec(&self) -> (r: Vec<u8>)
        ensures
            r@ == stream_frame_bytes(self@),
    {
        let mut out: Vec<u8> = Vec::new();
        match &self.frame {
            Some(StreamFrameKind::User(h)) => {
                let mut inner: Vec<u8> = Vec::new();
                h.encode_raw(&mut inner);
                assert(inner@ =~= header_bytes(h@));
                write_len_field(&mut out, 1, inner.as_slice());
                assert(out@ =~= stream_frame_bytes(self@));
            },
            None => {
                assert(out@ =~= stream_frame_bytes(self@));
            },
        }
        out
    }

    /// Decodes a message from `bytes`.
    pub fn decode(bytes: &[u8]) -> (r: Result<StreamFrame, DecodeError>)
        ensures
            match decode_stream_frame_bytes(bytes@) {
                Some(f) => r matches Ok(x) && x@ == f,
                None => r == Err::<StreamFrame, DecodeError>(DecodeError),
            },
    {
        let mut cur = StreamFrame { frame: None };
        let mut pos: usize = 0;
        proof {
            assert(bytes@.skip(0) =~= bytes@);
        }
        while pos < bytes.len()
            invariant
                pos <= bytes@.len(),
                decode_stream_frame_bytes(bytes@) == fold_fields(
                    bytes@.skip(pos as int),
                    cur@,
                    stream_frame_steps(),
                    MESSAGE_DEPTH as nat,
                ),
            decreases bytes@.len() - pos,
        {
            let ghost t = bytes@.skip(pos as int);
            proof {
                lemma_parse_field_len(t, MESSAGE_DEPTH as nat);
                lemma_fold_unfold(t, cur@, stream_frame_steps(), MESSAGE_DEPTH as nat);
            }
            let (tag, v, next) = match read_field(bytes, pos, MESSAGE_DEPTH) {
                Some(x) => x,
                None => return Err(DecodeError),
            };
            proof {
                assert(t.skip(next - pos) =~= bytes@.skip(next as int));
            }
            if tag == 1 {
                match v {
                    FieldValue::Bytes(a, c) => {
                        let base = match cur.frame {
                            Some(StreamFrameKind::User(h)) => h,
                            None => StreamHeader { src: String::new(), dest: String::new() },
                        };
                        let h = match base.merge(&bytes[a..c], NESTED_DEPTH) {
                            Ok(h) => h,
                            Err(e) => return Err(e),
                        };
                        cur = StreamFrame { frame: Some(StreamFrameKind::User(h)) };
                    },
                    _ => return Err(DecodeError),
                }
            }
            pos = next;
        }
        proof {
            assert(bytes@.skip(pos as int).len() == 0);
        }
        Ok(cur)
    }
}

impl DatagramFrame {
    /// The encoding of the message.
    pub fn encode_to_vec(&self) -> (r: Vec<u8>)
        ensures
            r@ == datagram_frame_bytes(self@),
    {
        let mut out: Vec<u8> = Vec::new();
        match &self.frame {
            Some(DatagramFrameKind::User(u)) => {
                let mut inner: Vec<u8> = Vec::new();
                u.encode_raw(&mut inner);
                assert(inner@ =~= user_datagram_bytes(u@));
                write_len_field(&mut out, 1, inner.as_slice());
                assert(out@ =~= datagram_frame_bytes(self@));
            },
            None => {
                assert(out@ =~= datagram_frame_bytes(self@));
            },
        }
        out
    }

    /// Decodes a message from `bytes`.
    pub fn decode(bytes: &[u8]) -> (r: Result<DatagramFrame, DecodeError>)
        ensures
            match decode_datagram_frame_bytes(bytes@) {
                Some(f) => r matches Ok(x) && x@ == f,
                None => r == Err::<DatagramFrame, DecodeError>(DecodeError),
            },
    {
        let mut cur = DatagramFrame { frame: None };
        let mut pos: usize = 0;
        proof {
            assert(bytes@.skip(0) =~= bytes@);
        }
        while pos < bytes.len()
            invariant
                pos <= bytes@.len(),
                decode_datagram_frame_bytes(bytes@) == fold_fields(
                    bytes@.skip(pos as int),
                    cur@,
                    datagram_frame_steps(),
                    MESSAGE_DEPTH as nat,
                ),
            decreases bytes@.len() - pos,
        {
            let ghost t = bytes@.skip(pos as int);
            proof {
                lemma_parse_field_len(t, MESSAGE_DEPTH as nat);
                lemma_fold_unfold(t, cur@, datagram_frame_steps(), MESSAGE_DEPTH as nat);
            }
            let (tag, v, next) = match read_field(bytes, pos, MESSAGE_DEPTH) {
                Some(x) => x,
                None => return Err(DecodeError),
            };
            proof {
                assert(t.skip(next - pos) =~= bytes@.skip(next as int));
            }
            if tag == 1 {
                match v {
                    FieldValue::Bytes(a, c) => {
                        let base = match cur.frame {
                            Some(DatagramFrameKind::User(u)) => u,
                            None => UserDatagram {
                                id: 0,
                                src: String::new(),
                                dest: String::new(),
                                payload: Vec::new(),
                            },
                        };
                        let u = match base.merge(&bytes[a..c], NESTED_DEPTH) {
                            Ok(u) => u,
                            Err(e) => return Err(e),
                        };
                        cur = DatagramFrame { frame: Some(DatagramFrameKind::User(u)) };
                    },
                    _ => return Err(DecodeError),
                }
            }
            pos = next;
        }
        proof {
            assert(bytes@.skip(pos as int).len() == 0);
        }
        Ok(cur)
    }
}

proof fn lemma_fold_string_field<S>(
    tag: u64,
    t: Seq<char>,
    rest: Seq<u8>,
    st: S,
    step: spec_fn(S, WireField) -> Option<S>,
    depth: nat,
)
    requires
        1 <= tag <= 0x1fff_ffff,
        encode_utf8(t).len() <= u64::MAX,
    ensures
        fold_fields(string_field(tag as nat, t) + rest, st, step, depth) == if t.len() == 0 {
            fold_fields(rest, st, step, depth)
        } else {
            match step(st, WireField { tag, value: WireValue::Bytes(encode_utf8(t)) }) {
                Some(st2) => fold_fields(rest, st2, step, depth),
                None => None,
            }
        },
{
    if t.len() == 0 {
        assert(string_field(tag as nat, t) + rest =~= rest);
    } else {
        let x = len_field(tag as nat, encode_utf8(t));
        lemma_parse_len_field(tag, encode_utf8(t), rest, depth);
        lemma_fold_first_field(
            x,
            rest,
            WireField { tag, value: WireValue::Bytes(encode_utf8(t)) },
            st,
            step,
            depth,
        );
    }
}

proof fn lemma_fold_bytes_field<S>(
    tag: u64,
    b: Seq<u8>,
    rest: Seq<u8>,
    st: S,
    step: spec_fn(S, WireField) -> Option<S>,
    depth: nat,
)
    requires
        1 <= tag <= 0x1fff_ffff,
        b.len() <= u64::MAX,
    ensures
        fold_fields(bytes_field(tag as nat, b) + rest, st, step, depth) == if b.len() == 0 {
            fold_fields(rest, st, step, depth)
        } else {
            match step(st, WireField { tag, value: WireValue::Bytes(b) }) {
                Some(st2) => fold_fields(rest, st2, step, depth),
                None => None,
            }
        },
{
    if b.len() == 0 {
        assert(bytes_field(tag as nat, b) + rest =~= rest);
    } else {
        lemma_parse_len_field(tag, b, rest, depth);
        lemma_fold_first_field(
            len_field(tag as nat, b),
            rest,
            WireField { tag, value: WireValue::Bytes(b) },
            st,
            step,
            depth,
        );
    }
}

/// The text of a string field written from `t` is `t`.
proof fn lemma_string_value_encoded(t: Seq<char>)
    ensures
        string_value(WireValue::Bytes(encode_utf8(t))) == Some(t),
{
    broadcast use vstd::utf8::encode_utf8_valid_utf8, vstd::utf8::encode_utf8_decode_utf8;
}

/// A `StreamHeader` merged from its encoding into the empty header is the header itself.
pub proof fn law_header_round_trip(h: HeaderView, depth: nat)
    requires
        encode_utf8(h.0).len() <= u64::MAX,
        encode_utf8(h.1).len() <= u64::MAX,
    ensures
        merge_header(header_bytes(h), empty_header(), depth) == Some(h),
{
    let step = header_steps();
    let b = string_field(2, h.1);
    lemma_string_value_encoded(h.0);
    lemma_string_value_encoded(h.1);
    lemma_fold_string_field(1, h.0, b, empty_header(), step, depth);
    let mid: HeaderView = (h.0, Seq::empty());
    if h.0.len() == 0 {
        assert(h.0 =~= Seq::<char>::empty());
    }
    assert(b + Seq::<u8>::empty() =~= b);
    lemma_fold_string_field(2, h.1, Seq::empty(), mid, step, depth);
    if h.1.len() == 0 {
        assert(h.1 =~= Seq::<char>::empty());
    }
}

/// A `UserDatagram` merged from its encoding into the empty datagram is the datagram itself.
pub proof fn law_user_datagram_round_trip(u: UserView, depth: nat)
    requires
        encode_utf8(u.1).len() <= u64::MAX,
        encode_utf8(u.2).len() <= u64::MAX,
        u.3.len() <= u64::MAX,
    ensures
        merge_user(user_datagram_bytes(u), empty_user(), depth) == Some(u),
{
    let step = user_steps();
    lemma_string_value_encoded(u.1);
    lemma_string_value_encoded(u.2);
    let r2 = string_field(2, u.1) + string_field(3, u.2) + bytes_field(4, u.3);
    let r3 = string_field(3, u.2) + bytes_field(4, u.3);
    let r4 = bytes_field(4, u.3);
    let s0: UserView = (u.0, Seq::empty(), Seq::empty(), Seq::empty());
    let s1: UserView = (u.0, u.1, Seq::empty(), Seq::empty());
    let s2: UserView = (u.0, u.1, u.2, Seq::empty());
    if u.0 == 0 {
        assert(user_datagram_bytes(u) =~= r2);
    } else {
        assert(user_datagram_bytes(u) =~= varint_field(1, u.0 as nat) + r2);
        lemma_parse_varint_field(1, u.0, r2, depth);
        lemma_fold_first_field(
            varint_field(1, u.0 as nat),
            r2,
            WireField { tag: 1, value: WireValue::Varint(u.0) },
            empty_user(),
            step,
            depth,
        );
    }
    assert(string_field(2, u.1) + r3 =~= r2);
    lemma_fold_string_field(2, u.1, r3, s0, step, depth);
    if u.1.len() == 0 {
        assert(u.1 =~= Seq::<char>::empty());
    }
    assert(string_field(3, u.2) + r4 =~= r3);
    lemma_fold_string_field(3, u.2, r4, s1, step, depth);
    if u.2.len() == 0 {
        assert(u.2 =~= Seq::<char>::empty());
    }
    assert(r4 + Seq::<u8>::empty() =~= r4);
    lemma_fold_bytes_field(4, u.3, Seq::empty(), s2, step, depth);
    if u.3.len() == 0 {
        assert(u.3 =~= Seq::<u8>::empty());
    }
}

/// A `StreamFrame` decodes from its encoding to itself.
pub proof fn law_stream_frame_round_trip(f: Option<HeaderView>)
    requires
        f matches Some(h) ==> header_bytes(h).len() <= u64::MAX,
    ensures
        decode_stream_frame_bytes(stream_frame_bytes(f)) == Some(f),
{
    if let Some(h) = f {
        let hb = header_bytes(h);
        assert(encode_utf8(h.0).len() <= hb.len() && encode_utf8(h.1).len() <= hb.len()) by {
            if h.0.len() > 0 {
                assert(string_field(1, h.0).len() >= encode_utf8(h.0).len());
            }
            if h.1.len() > 0 {
                assert(string_field(2, h.1).len() >= encode_utf8(h.1).len());
            } else {
                assert(encode_utf8(h.1).len() == 0);
            }
            if h.0.len() == 0 {
                assert(encode_utf8(h.0).len() == 0);
            }
        }
        law_header_round_trip(h, NESTED_DEPTH as nat);
        lemma_parse_len_field(1, hb, Seq::empty(), MESSAGE_DEPTH as nat);
        assert(len_field(1, hb) + Seq::<u8>::empty() =~= len_field(1, hb));
        lemma_fold_first_field(
            len_field(1, hb),
            Seq::empty(),
            WireField { tag: 1, value: WireValue::Bytes(hb) },
            None,
            stream_frame_steps(),
            MESSAGE_DEPTH as nat,
        );
    }
}

/// A `DatagramFrame` decodes from its encoding to itself.
pub proof fn law_datagram_frame_round_trip(f: Option<UserView>)
    requires
        f matches Some(u) ==> user_datagram_bytes(u).len() <= u64::MAX,
    ensures
        decode_datagram_frame_bytes(datagram_frame_bytes(f)) == Some(f),
{
    if let Some(u) = f {
        let ub = user_datagram_bytes(u);
        assert(encode_utf8(u.1).len() <= ub.len() && encode_utf8(u.2).len() <= ub.len()
            && u.3.len() <= ub.len()) by {
            if u.1.len() == 0 {
                assert(encode_utf8(u.1).len() == 0);
            }
            if u.2.len() == 0 {
                assert(encode_utf8(u.2).len() == 0);
            }
        }
        law_user_datagram_round_trip(u, NESTED_DEPTH as nat);
        lemma_parse_len_field(1, ub, Seq::empty(), MESSAGE_DEPTH as nat);
        assert(len_field(1, ub) + Seq::<u8>::empty() =~= len_field(1, ub));
        lemma_fold_first_field(
            len_field(1, ub),
            Seq::empty(),
            WireField { tag: 1, value: WireValue::Bytes(ub) },
            None,
            datagram_frame_steps(),
            MESSAGE_DEPTH as nat,
        );
    }
}

} // verus!
