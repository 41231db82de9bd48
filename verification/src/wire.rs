//! Wire-protocol codec: decoding of user-list and message-list response
//! buffers into typed records, and encoding of add-contact and send-message
//! request bodies.
//!
//! All integers on the wire are big-endian.  Responses are framed by
//! repetition until the exact end of the buffer: a buffer that ends inside a
//! record is a framing error, never a short success.  One protocol revision
//! inserts fixed reserved fields into message records and send-message
//! requests; the codec takes the revision as an explicit parameter.

use vstd::prelude::*;
use vstd::slice::{slice_subrange, slice_to_vec};
use vstd::utf8::{decode_utf8, encode_utf8, valid_utf8};

verus! {

broadcast use vstd::array::group_array_axioms;

/// Why a response buffer was rejected.  The whole response is discarded on
/// either error: no partial record list is ever returned.
#[derive(Clone, Copy, Debug, PartialEq, Eq, Structural)]
pub enum ProtocolError {
    /// The buffer ends inside a record.
    TruncatedRecord,
    /// A name or content field is not valid UTF-8.
    InvalidUtf8,
}

/// The wire-framing revision the server speaks.  The two revisions differ
/// only in fixed-width reserved fields: message records carry 24 reserved
/// bytes between the inbound flag and the timestamp, and send-message
/// requests carry 16 reserved bytes between the opcode and the recipient.
#[derive(Clone, Copy, Debug, PartialEq, Eq, Structural)]
pub enum ProtocolVersion {
    /// No reserved fields.
    Compact,
    /// Reserved fields present.
    Padded,
}

/// One entry of a user-list response.
#[derive(Clone, Debug)]
pub struct UserData {
    /// The peer's 32-byte public key.
    pub id: [u8; 32],
    /// The contact name, absent when the record carries none.
    pub name: Option<String>,
    /// How many messages from this peer are unread.
    pub unreads: u64,
}

/// The mathematical content of a [`UserData`] record.
pub struct UserDataView {
    /// The peer's key bytes.
    pub id: Seq<u8>,
    /// The contact name's characters, absent when the record carries none.
    pub name: Option<Seq<char>>,
    /// The unread count.
    pub unreads: u64,
}

impl View for UserData {
    type V = UserDataView;

    open spec fn view(&self) -> UserDataView {
        UserDataView {
            id: self.id@,
            name: match self.name {
                Option::Some(n) => Option::Some(n@),
                Option::None => Option::None,
            },
            unreads: self.unreads,
        }
    }
}

/// One entry of a message-list response for a single peer.
#[derive(Clone, Debug)]
pub struct Message {
    /// Whether the message was received (true) or sent (false).
    pub inbound: bool,
    /// Seconds since the epoch; negative values lie before it.
    pub time: i64,
    /// The message text.
    pub content: String,
}

/// The mathematical content of a [`Message`] record.
pub struct MessageView {
    /// Whether the message was received.
    pub inbound: bool,
    /// Seconds since the epoch.
    pub time: i64,
    /// The text's characters.
    pub content: Seq<char>,
}

impl View for Message {
    type V = MessageView;

    open spec fn view(&self) -> MessageView {
        MessageView { inbound: self.inbound, time: self.time, content: self.content@ }
    }
}

/// The unsigned value of a big-endian byte string (last byte least
/// significant).
pub open spec fn be_bytes_to_nat(s: Seq<u8>) -> nat
    decreases s.len(),
{
    if s.len() == 0 {
        0
    } else {
        (be_bytes_to_nat(s.drop_last()) * 256 + s.last()) as nat
    }
}

/// The signed value of an 8-byte big-endian byte string, read as two's
/// complement.
pub open spec fn be_bytes_to_i64(s: Seq<u8>) -> int {
    let u = be_bytes_to_nat(s);
    if u < 0x8000_0000_0000_0000 {
        u as int
    } else {
        u - 0x1_0000_0000_0000_0000
    }
}

/// 256 to the power `n`.
pub open spec fn pow256(n: nat) -> nat
    decreases n,
{
    if n == 0 {
        1
    } else {
        256 * pow256((n - 1) as nat)
    }
}

/// A big-endian byte string's value is below 256 to its length.
pub proof fn lemma_be_bytes_bound(s: Seq<u8>)
    ensures
        be_bytes_to_nat(s) < pow256(s.len()),
    decreases s.len(),
{
    if s.len() > 0 {
        lemma_be_bytes_bound(s.drop_last());
    }
}

/// An 8-byte big-endian value fits in a `u64`.
pub proof fn lemma_be_bytes_u64(s: Seq<u8>)
    requires
        s.len() <= 8,
    ensures
        be_bytes_to_nat(s) < 0x1_0000_0000_0000_0000,
{
    lemma_be_bytes_bound(s);
    assert(pow256(0) == 1);
    assert(pow256(1) == 256);
    assert(pow256(2) == 0x1_0000);
    assert(pow256(3) == 0x100_0000);
    assert(pow256(4) == 0x1_0000_0000);
    assert(pow256(5) == 0x100_0000_0000);
    assert(pow256(6) == 0x1_0000_0000_0000);
    assert(pow256(7) == 0x100_0000_0000_0000);
    assert(pow256(8) == 0x1_0000_0000_0000_0000);
    if s.len() < 8 {
        lemma_pow256_increases(s.len(), 8);
    }
}

/// `pow256` grows with its exponent.
proof fn lemma_pow256_increases(m: nat, n: nat)
    requires
        m <= n,
    ensures
        pow256(m) <= pow256(n),
    decreases n,
{
    if m < n {
        lemma_pow256_increases(m, (n - 1) as nat);
        assert(pow256(n) == 256 * pow256((n - 1) as nat));
    }
}

/// Reads the 8-byte big-endian unsigned integer at `off`.
fn read_be_u64(buf: &[u8], off: usize) -> (r: u64)
    requires
        off + 8 <= buf@.len(),
    ensures
        r == be_bytes_to_nat(buf@.subrange(off as int, off as int + 8)),
{
    proof {
        lemma_be_bytes_u64(buf@.subrange(off as int, off as int + 8));
    }
    let n = buf.len();
    let mut acc: u64 = 0;
    let mut k: usize = 0;
    while k < 8
        invariant
            0 <= k <= 8,
            n == buf@.len(),
            off + 8 <= n,
            acc == be_bytes_to_nat(buf@.subrange(off as int, off as int + k)),
        decreases 8 - k,
    {
        proof {
            let part = buf@.subrange(off as int, off as int + k + 1);
            assert(part.drop_last() =~= buf@.subrange(off as int, off as int + k));
            assert(part.last() == buf@[off as int + k]);
            lemma_be_bytes_u64(buf@.subrange(off as int, off as int + k));
            lemma_be_bytes_u64(part);
        }
        acc = acc * 256 + (buf[off + k] as u64);
        k = k + 1;
    }
    acc
}

/// Reads the 8-byte big-endian two's-complement integer at `off`.
fn read_be_i64(buf: &[u8], off: usize) -> (r: i64)
    requires
        off + 8 <= buf@.len(),
    ensures
        r == be_bytes_to_i64(buf@.subrange(off as int, off as int + 8)),
{
    let u = read_be_u64(buf, off);
    if u < 0x8000_0000_0000_0000 {
        u as i64
    } else {
        let magnitude = 0xffff_ffff_ffff_ffffu64 - u;
        -(magnitude as i64) - 1
    }
}

/// Copies the 32 bytes at `off` into a key array.
fn read_key(buf: &[u8], off: usize) -> (r: [u8; 32])
    requires
        off + 32 <= buf@.len(),
    ensures
        r@ == buf@.subrange(off as int, off as int + 32),
{
    let n = buf.len();
    let mut key: [u8; 32] = [0u8; 32];
    let mut k: usize = 0;
    while k < 32
        invariant
            0 <= k <= 32,
            n == buf@.len(),
            off + 32 <= n,
            forall|j: int| 0 <= j < k ==> key@[j] == buf@[off + j],
        decreases 32 - k,
    {
        key[k] = buf[off + k];
        k = k + 1;
    }
    proof {
        assert(key@ =~= buf@.subrange(off as int, off as int + 32));
    }
    key
}

/// Relies on `String::from_utf8`: it succeeds exactly on valid UTF-8, and the
/// resulting string's characters are the decoding of the input bytes.
#[verifier::external_body]
fn bytes_to_string(v: Vec<u8>) -> (r: Option<String>)
    ensures
        r is Some <==> valid_utf8(v@),
        r matches Some(s) ==> s@ == decode_utf8(v@),
{
    String::from_utf8(v).ok()
}

/// The views of a sequence of user records.
pub open spec fn user_views(v: Seq<UserData>) -> Seq<UserDataView> {
    v.map_values(|u: UserData| u@)
}

/// What decoding a user-list buffer yields.  The buffer is a repetition of
/// records `[32-byte id][8-byte unread count][1-byte name length][name]`,
/// ending exactly at the end of the buffer.  A record whose name length is 0
/// carries no name.  A buffer that ends inside a record is `TruncatedRecord`;
/// a name that is not UTF-8 is `InvalidUtf8`.
pub open spec fn spec_decode_users(b: Seq<u8>) -> Result<Seq<UserDataView>, ProtocolError>
    decreases b.len(),
{
    if b.len() == 0 {
        Result::Ok(Seq::empty())
    } else if b.len() < 41 {
        Result::Err(ProtocolError::TruncatedRecord)
    } else {
        let name_len = b[40] as int;
        if b.len() < 41 + name_len {
            Result::Err(ProtocolError::TruncatedRecord)
        } else {
            let name_bytes = b.subrange(41, 41 + name_len);
            if name_len != 0 && !valid_utf8(name_bytes) {
                Result::Err(ProtocolError::InvalidUtf8)
            } else {
                let rec = UserDataView {
                    id: b.subrange(0, 32),
                    name: if name_len == 0 {
                        Option::None
                    } else {
                        Option::Some(decode_utf8(name_bytes))
                    },
                    unreads: be_bytes_to_nat(b.subrange(32, 40)) as u64,
                };
                match spec_decode_users(b.skip(41 + name_len)) {
                    Result::Ok(rest) => Result::Ok(seq![rec] + rest),
                    Result::Err(e) => Result::Err(e),
                }
            }
        }
    }
}

/// Decodes a user-list response buffer into records.
///
/// Succeeds exactly when the buffer is a whole number of well-formed records;
/// the result then lists them in wire order.  On a buffer that ends inside a
/// record or a name that is not UTF-8, the matching error is returned and no
/// partial list escapes.
pub fn decode_users(buf: &[u8]) -> (r: Result<Vec<UserData>, ProtocolError>)
    ensures
        match r {
            Result::Ok(v) => spec_decode_users(buf@) == Result::Ok::<Seq<UserDataView>,
                ProtocolError,
            >(user_views(v@)),
            Result::Err(e) => spec_decode_users(buf@) == Result::Err::<Seq<UserDataView>,
                ProtocolError,
            >(e),
        },
{
    let n = buf.len();
    let mut users: Vec<UserData> = Vec::new();
    let mut off: usize = 0;
    proof {
        assert(buf@.skip(0) =~= buf@);
        match spec_decode_users(buf@) {
            Result::Ok(tail) => {
                assert(user_views(users@) + tail =~= tail);
            },
            Result::Err(_) => {},
        }
    }
    while off < n
        invariant
            0 <= off <= n,
            n == buf@.len(),
            ({
                let rest = spec_decode_users(buf@.skip(off as int));
                spec_decode_users(buf@) == (match rest {
                    Result::Ok(tail) => Result::Ok::<Seq<UserDataView>, ProtocolError>(
                        user_views(users@) + tail,
                    ),
                    Result::Err(e) => Result::Err::<Seq<UserDataView>, ProtocolError>(e),
                })
            }),
        decreases n - off,
    {
        let ghost tail0 = buf@.skip(off as int);
        if n - off < 41 {
            return Result::Err(ProtocolError::TruncatedRecord);
        }
        let name_len = buf[off + 40] as usize;
        if name_len > n - (off + 41) {
            return Result::Err(ProtocolError::TruncatedRecord);
        }
        proof {
            assert(tail0.subrange(0, 32) =~= buf@.subrange(off as int, off as int + 32));
            assert(tail0.subrange(32, 40) =~= buf@.subrange(off as int + 32, off as int + 40));
            assert(tail0[40] == buf@[off as int + 40]);
            assert(tail0.subrange(41, 41 + name_len) =~= buf@.subrange(
                off as int + 41,
                off as int + 41 + name_len,
            ));
        }
        let id = read_key(buf, off);
        let unreads = read_be_u64(buf, off + 32);
        proof {
            lemma_be_bytes_u64(buf@.subrange(off as int + 32, off as int + 40));
        }
        let name: Option<String> = if name_len == 0 {
            Option::None
        } else {
            let name_bytes = slice_to_vec(slice_subrange(buf, off + 41, off + 41 + name_len));
            match bytes_to_string(name_bytes) {
                Option::Some(s) => Option::Some(s),
                Option::None => {
                    return Result::Err(ProtocolError::InvalidUtf8);
                },
            }
        };
        let ghost prev = users@;
        users.push(UserData { id, name, unreads });
        off = off + 41 + name_len;
        proof {
            assert(buf@.skip(off as int) =~= tail0.skip(41 + name_len as int));
            assert(user_views(users@) =~= user_views(prev) + seq![users@.last()@]);
            let rec = users@.last()@;
            match spec_decode_users(buf@.skip(off as int)) {
                Result::Ok(tail) => {
                    assert(spec_decode_users(tail0) == Result::Ok::<Seq<UserDataView>,
                        ProtocolError,
                    >(seq![rec] + tail));
                    assert(user_views(prev) + (seq![rec] + tail) =~= user_views(users@) + tail);
                },
                Result::Err(_) => {},
            }
        }
    }
    proof {
        assert(buf@.skip(n as int) =~= Seq::<u8>::empty());
    }
    Result::Ok(users)
}

/// How many reserved bytes a message record carries between the inbound flag
/// and the timestamp.
pub open spec fn message_reserved_len(v: ProtocolVersion) -> int {
    match v {
        ProtocolVersion::Compact => 0,
        ProtocolVersion::Padded => 24,
    }
}

/// A message record's header length: flag, reserved bytes, timestamp and
/// content length.
pub open spec fn message_header_len(v: ProtocolVersion) -> int {
    1 + message_reserved_len(v) + 16
}

/// The views of a sequence of message records.
pub open spec fn message_views(v: Seq<Message>) -> Seq<MessageView> {
    v.map_values(|m: Message| m@)
}

/// What decoding a message-list buffer yields under a framing revision.  The
/// buffer is a repetition of records `[1-byte inbound flag][reserved bytes]
/// [8-byte signed timestamp][8-byte content length][content]`, ending exactly
/// at the end of the buffer.  The flag is inbound exactly when non-zero.  A
/// buffer that ends inside a record is `TruncatedRecord`; content that is not
/// UTF-8 is `InvalidUtf8`.
pub open spec fn spec_decode_messages(v: ProtocolVersion, b: Seq<u8>) -> Result<
    Seq<MessageView>,
    ProtocolError,
>
    decreases b.len(),
{
    let header = message_header_len(v);
    if b.len() == 0 {
        Result::Ok(Seq::empty())
    } else if b.len() < header {
        Result::Err(ProtocolError::TruncatedRecord)
    } else {
        let content_len = be_bytes_to_nat(b.subrange(header - 8, header)) as int;
        if b.len() < header + content_len {
            Result::Err(ProtocolError::TruncatedRecord)
        } else {
            let content_bytes = b.subrange(header, header + content_len);
            if !valid_utf8(content_bytes) {
                Result::Err(ProtocolError::InvalidUtf8)
            } else {
                let rec = MessageView {
                    inbound: b[0] != 0,
                    time: be_bytes_to_i64(
                        b.subrange(1 + message_reserved_len(v), 9 + message_reserved_len(v)),
                    ) as i64,
                    content: decode_utf8(content_bytes),
                };
                match spec_decode_messages(v, b.skip(header + content_len)) {
                    Result::Ok(rest) => Result::Ok(seq![rec] + rest),
                    Result::Err(e) => Result::Err(e),
                }
            }
        }
    }
}

/// Decodes a message-list response buffer under a framing revision.
///
/// Succeeds exactly when the buffer is a whole number of well-formed records;
/// the result then lists them in wire order, leaving any reversal to the
/// caller.  On a buffer that ends inside a record or content that is not
/// UTF-8, the matching error is returned and no partial list escapes.
pub fn decode_messages(version: ProtocolVersion, buf: &[u8]) -> (r: Result<
    Vec<Message>,
    ProtocolError,
>)
    ensures
        match r {
            Result::Ok(v) => spec_decode_messages(version, buf@) == Result::Ok::<Seq<MessageView>,
                ProtocolError,
            >(message_views(v@)),
            Result::Err(e) => spec_decode_messages(version, buf@) == Result::Err::<
                Seq<MessageView>,
                ProtocolError,
            >(e),
        },
{
    let reserved: usize = match version {
        ProtocolVersion::Compact => 0,
        ProtocolVersion::Padded => 24,
    };
    let header: usize = 1 + reserved + 16;
    let n = buf.len();
    let mut msgs: Vec<Message> = Vec::new();
    let mut off: usize = 0;
    proof {
        assert(buf@.skip(0) =~= buf@);
        match spec_decode_messages(version, buf@) {
            Result::Ok(tail) => {
                assert(message_views(msgs@) + tail =~= tail);
            },
            Result::Err(_) => {},
        }
    }
    while off < n
        invariant
            0 <= off <= n,
            n == buf@.len(),
            reserved == message_reserved_len(version),
            header == message_header_len(version),
            ({
                let rest = spec_decode_messages(version, buf@.skip(off as int));
                spec_decode_messages(version, buf@) == (match rest {
                    Result::Ok(tail) => Result::Ok::<Seq<MessageView>, ProtocolError>(
                        message_views(msgs@) + tail,
                    ),
                    Result::Err(e) => Result::Err::<Seq<MessageView>, ProtocolError>(e),
                })
            }),
        decreases n - off,
    {
        let ghost tail0 = buf@.skip(off as int);
        if n - off < header {
            return Result::Err(ProtocolError::TruncatedRecord);
        }
        proof {
            assert(tail0[0] == buf@[off as int]);
            assert(tail0.subrange(1 + reserved as int, 9 + reserved as int) =~= buf@.subrange(
                off as int + 1 + reserved,
                off as int + 9 + reserved,
            ));
            assert(tail0.subrange(header as int - 8, header as int) =~= buf@.subrange(
                off as int + header - 8,
                off as int + header,
            ));
            lemma_be_bytes_u64(tail0.subrange(header as int - 8, header as int));
        }
        let inbound = buf[off] != 0;
        let time = read_be_i64(buf, off + 1 + reserved);
        let content_len_64 = read_be_u64(buf, off + header - 8);
        if content_len_64 > (n - (off + header)) as u64 {
            return Result::Err(ProtocolError::TruncatedRecord);
        }
        let content_len = content_len_64 as usize;
        proof {
            assert(tail0.subrange(header as int, header as int + content_len) =~= buf@.subrange(
                off as int + header,
                off as int + header + content_len,
            ));
        }
        let content_bytes = slice_to_vec(
            slice_subrange(buf, off + header, off + header + content_len),
        );
        let content = match bytes_to_string(content_bytes) {
            Option::Some(s) => s,
            Option::None => {
                return Result::Err(ProtocolError::InvalidUtf8);
            },
        };
        let ghost prev = msgs@;
        msgs.push(Message { inbound, time, content });
        off = off + header + content_len;
        proof {
            assert(buf@.skip(off as int) =~= tail0.skip(header + content_len as int));
            assert(message_views(msgs@) =~= message_views(prev) + seq![msgs@.last()@]);
            let rec = msgs@.last()@;
            match spec_decode_messages(version, buf@.skip(off as int)) {
                Result::Ok(tail) => {
                    assert(spec_decode_messages(version, tail0) == Result::Ok::<Seq<MessageView>,
                        ProtocolError,
                    >(seq![rec] + tail));
                    assert(message_views(prev) + (seq![rec] + tail) =~= message_views(msgs@)
                        + tail);
                },
                Result::Err(_) => {},
            }
        }
    }
    proof {
        assert(buf@.skip(n as int) =~= Seq::<u8>::empty());
    }
    Result::Ok(msgs)
}

/// A non-empty message-list buffer that ends inside a record — inside the
/// header, or inside content whose declared length exceeds what is left —
/// decodes to `TruncatedRecord`, never to a partial record list.
pub proof fn lemma_truncated_message_buffer(v: ProtocolVersion, b: Seq<u8>)
    requires
        b.len() > 0,
        b.len() >= message_header_len(v) ==> b.len() < message_header_len(v) + be_bytes_to_nat(
            b.subrange(message_header_len(v) - 8, message_header_len(v)),
        ),
    ensures
        spec_decode_messages(v, b) == Result::Err::<Seq<MessageView>, ProtocolError>(
            ProtocolError::TruncatedRecord,
        ),
{
}

/// A non-empty user-list buffer that ends inside a record — inside the fixed
/// 41-byte head, or inside a name whose declared length exceeds what is left
/// — decodes to `TruncatedRecord`, never to a partial record list.
pub proof fn lemma_truncated_user_buffer(b: Seq<u8>)
    requires
        b.len() > 0,
        b.len() >= 41 ==> b.len() < 41 + b[40],
    ensures
        spec_decode_users(b) == Result::Err::<Seq<UserDataView>, ProtocolError>(
            ProtocolError::TruncatedRecord,
        ),
{
}

/// How many reserved bytes a send-message request carries between the opcode
/// and the recipient key.
pub open spec fn send_reserved_len(v: ProtocolVersion) -> int {
    match v {
        ProtocolVersion::Compact => 0,
        ProtocolVersion::Padded => 16,
    }
}

/// The body of an add-contact request: opcode 1, the peer's key, then the
/// contact name in UTF-8, unterminated.
pub open spec fn spec_add_user_request(pk: Seq<u8>, name: Seq<char>) -> Seq<u8> {
    seq![1u8] + pk + encode_utf8(name)
}

/// The body of a send-message request under a framing revision: opcode 0,
/// the reserved bytes the revision asks for (all zero), the recipient's key,
/// then the content in UTF-8, unterminated.
pub open spec fn spec_send_message_request(
    v: ProtocolVersion,
    id: Seq<u8>,
    content: Seq<char>,
) -> Seq<u8> {
    seq![0u8] + Seq::new(send_reserved_len(v) as nat, |i| 0u8) + id + encode_utf8(content)
}

/// Encodes an add-contact request body for a peer and a contact name.
pub fn encode_add_user(pubkey: &crate::Pubkey, name: &str) -> (r: Vec<u8>)
    ensures
        r@ == spec_add_user_request(pubkey@, name@),
{
    let mut req: Vec<u8> = Vec::new();
    req.push(1u8);
    crate::push_bytes(&mut req, pubkey.0.as_slice());
    crate::push_bytes(&mut req, name.as_bytes());
    proof {
        assert(req@ =~= spec_add_user_request(pubkey@, name@));
    }
    req
}

/// Encodes a send-message request body for a recipient and content, under a
/// framing revision.
pub fn encode_send_message(version: ProtocolVersion, id: &[u8; 32], content: &str) -> (r: Vec<
    u8,
>)
    ensures
        r@ == spec_send_message_request(version, id@, content@),
{
    let reserved: usize = match version {
        ProtocolVersion::Compact => 0,
        ProtocolVersion::Padded => 16,
    };
    let mut req: Vec<u8> = Vec::new();
    req.push(0u8);
    let mut k: usize = 0;
    while k < reserved
        invariant
            0 <= k <= reserved,
            req@ =~= seq![0u8] + Seq::new(k as nat, |i| 0u8),
        decreases reserved - k,
    {
        req.push(0u8);
        k = k + 1;
        proof {
            assert(req@ =~= seq![0u8] + Seq::new(k as nat, |i| 0u8));
        }
    }
    crate::push_bytes(&mut req, id.as_slice());
    crate::push_bytes(&mut req, content.as_bytes());
    proof {
        assert(req@ =~= spec_send_message_request(version, id@, content@));
    }
    req
}

} // verus!

