//! Framing of messages, and the command token of the protocol.
//!
//! A message carries no length. A peer's message is read once into a buffer
//! that was filled with the sentinel byte beforehand; the payload is what
//! stands before the first sentinel, and whatever follows it is ignored.
//!
//! What the server delivers in the inform phase is one payload for all
//! sessions: the encoded states of all sessions in session order, separated by
//! commas and enclosed in square brackets. With states encoded as JSON objects
//! this is a JSON array of them.

use vstd::prelude::*;

verus! {

/// The byte that ends a payload inside a receive buffer.
pub const SENTINEL: u8 = 0;

/// The size of the buffer that one message is read into.
pub const BUFFER_LEN: usize = 1024;

/// `n` is the length of the payload of `buffer`: no sentinel stands before
/// index `n`, and `n` is either the index of a sentinel or the buffer's length.
pub open spec fn is_payload_len(buffer: Seq<u8>, n: int) -> bool {
    &&& 0 <= n <= buffer.len()
    &&& forall|i: int| 0 <= i < n ==> buffer[i] != SENTINEL
    &&& n < buffer.len() ==> buffer[n] == SENTINEL
}

/// The payload of `buffer`: the bytes before the first sentinel, or all of
/// them where there is none.
pub open spec fn payload_of(buffer: Seq<u8>) -> Seq<u8>
    decreases buffer.len(),
{
    if buffer.len() == 0 || buffer[0] == SENTINEL {
        Seq::empty()
    } else {
        seq![buffer[0]] + payload_of(buffer.skip(1))
    }
}

/// The payload is the one prefix of the buffer whose length is the payload
/// length.
pub proof fn lemma_payload_of(buffer: Seq<u8>)
    ensures
        is_payload_len(buffer, payload_of(buffer).len() as int),
        payload_of(buffer) == buffer.take(payload_of(buffer).len() as int),
    decreases buffer.len(),
{
    if buffer.len() == 0 || buffer[0] == SENTINEL {
        assert(payload_of(buffer) =~= buffer.take(0));
    } else {
        let rest = buffer.skip(1);
        lemma_payload_of(rest);
        let n = payload_of(rest).len() as int;
        assert(payload_of(buffer).len() == n + 1);
        assert forall|i: int| 0 <= i < n + 1 implies buffer[i] != SENTINEL by {
            if i > 0 {
                assert(rest[i - 1] == buffer[i]);
            }
        }
        if n + 1 < buffer.len() {
            assert(rest[n] == buffer[n + 1]);
        }
        assert(payload_of(buffer) =~= buffer.take(n + 1)) by {
            assert(payload_of(rest) == rest.take(n));
            assert forall|i: int| 0 <= i < n + 1 implies payload_of(buffer)[i] == buffer[i] by {
                if i > 0 {
                    assert(payload_of(rest)[i - 1] == rest.take(n)[i - 1]);
                }
            }
        }
    }
}

/// A buffer has one payload length only.
pub proof fn lemma_payload_len_unique(buffer: Seq<u8>, a: int, b: int)
    requires
        is_payload_len(buffer, a),
        is_payload_len(buffer, b),
    ensures
        a == b,
{
    if a < b {
        assert(buffer[a] == SENTINEL);
    } else if b < a {
        assert(buffer[b] == SENTINEL);
    }
}

/// What follows the first sentinel is ignored: a message that holds no
/// sentinel is the payload of every buffer that consists of the message, a
/// sentinel and anything after it; and of the buffer that it fills alone.
pub proof fn lemma_padding_ignored(message: Seq<u8>, rest: Seq<u8>)
    requires
        forall|i: int| 0 <= i < message.len() ==> message[i] != SENTINEL,
    ensures
        payload_of(message) == message,
        payload_of(message + seq![SENTINEL] + rest) == message,
{
    let whole = message + seq![SENTINEL] + rest;
    let n = message.len() as int;
    lemma_payload_of(message);
    lemma_payload_of(whole);
    assert(is_payload_len(message, n));
    assert(is_payload_len(whole, n)) by {
        assert forall|i: int| 0 <= i < n implies whole[i] != SENTINEL by {
            assert(whole[i] == message[i]);
        }
        assert(whole[n] == SENTINEL);
    }
    lemma_payload_len_unique(message, n, payload_of(message).len() as int);
    lemma_payload_len_unique(whole, n, payload_of(whole).len() as int);
    assert(message.take(n) =~= message);
    assert(whole.take(n) =~= message);
}

/// Finds where the payload of `buffer` ends: the index of the first sentinel,
/// or the buffer's length where it holds none.
pub fn payload_end(buffer: &[u8]) -> (end: usize)
    ensures
        is_payload_len(buffer@, end as int),
        end == payload_of(buffer@).len(),
{
    let mut i: usize = 0;
    while i < buffer.len() && buffer[i] != SENTINEL
        invariant
            i <= buffer.len(),
            forall|j: int| 0 <= j < i ==> buffer@[j] != SENTINEL,
        decreases buffer.len() - i,
    {
        i += 1;
    }
    proof {
        lemma_payload_of(buffer@);
        lemma_payload_len_unique(buffer@, i as int, payload_of(buffer@).len() as int);
    }
    i
}

/// Cuts `buffer` down to its payload.
pub fn payload(buffer: &[u8]) -> (r: &[u8])
    ensures
        r@ == payload_of(buffer@),
{
    let end = payload_end(buffer);
    proof {
        lemma_payload_of(buffer@);
    }
    vstd::slice::slice_subrange(buffer, 0, end)
}

/// The byte that opens the payload of a snapshot: `[`.
pub const LIST_OPEN: u8 = 91;

/// The byte that closes the payload of a snapshot: `]`.
pub const LIST_CLOSE: u8 = 93;

/// The byte between two encoded states of a snapshot: `,`.
pub const LIST_SEPARATOR: u8 = 44;

/// `parts` one after the other, with a separator between each two.
pub open spec fn joined(parts: Seq<Seq<u8>>) -> Seq<u8>
    decreases parts.len(),
{
    if parts.len() == 0 {
        Seq::empty()
    } else if parts.len() == 1 {
        parts[0]
    } else {
        joined(parts.drop_last()) + seq![LIST_SEPARATOR] + parts.last()
    }
}

/// The payload of the snapshot whose encoded states are `parts`.
pub open spec fn snapshot_bytes(parts: Seq<Seq<u8>>) -> Seq<u8> {
    seq![LIST_OPEN] + joined(parts) + seq![LIST_CLOSE]
}

/// Puts the encoded states of a snapshot, given in session order, into the
/// one payload that is delivered to every session.
pub fn snapshot_payload(parts: &Vec<Vec<u8>>) -> (r: Vec<u8>)
    ensures
        r@ == snapshot_bytes(parts@.map_values(|p: Vec<u8>| p@)),
{
    let ghost views = parts@.map_values(|p: Vec<u8>| p@);
    let mut out: Vec<u8> = Vec::new();
    out.push(LIST_OPEN);
    assert(views.take(0) =~= Seq::<Seq<u8>>::empty());
    assert(out@ =~= seq![LIST_OPEN] + joined(views.take(0)));
    let mut i: usize = 0;
    while i < parts.len()
        invariant
            i <= parts@.len(),
            views == parts@.map_values(|p: Vec<u8>| p@),
            out@ == seq![LIST_OPEN] + joined(views.take(i as int)),
        decreases parts@.len() - i,
    {
        if i > 0 {
            out.push(LIST_SEPARATOR);
        }
        out.extend_from_slice(parts[i].as_slice());
        proof {
            let next = views.take(i + 1);
            assert(next.drop_last() =~= views.take(i as int));
            assert(next.last() == parts@[i as int]@);
            assert(out@ =~= seq![LIST_OPEN] + joined(next));
        }
        i += 1;
    }
    assert(views.take(i as int) =~= views);
    out.push(LIST_CLOSE);
    out
}

/// The command that asks a peer for its current state: the ASCII text
/// `GetState`.
pub open spec fn request_token_bytes() -> Seq<u8> {
    seq![71u8, 101u8, 116u8, 83u8, 116u8, 97u8, 116u8, 101u8]
}

/// The command that asks a peer for its current state.
pub fn request_token() -> (token: [u8; 8])
    ensures
        token@ == request_token_bytes(),
{
    let token: [u8; 8] = [71, 101, 116, 83, 116, 97, 116, 101];
    assert(token@ =~= request_token_bytes());
    token
}

/// Tells whether a received message is the request for state: it is, exactly
/// where it is the command token and nothing else.
pub fn is_request(message: &[u8]) -> (r: bool)
    ensures
        r == (message@ == request_token_bytes()),
{
    let token = request_token();
    if message.len() != 8 {
        return false;
    }
    let mut i: usize = 0;
    while i < 8
        invariant
            i <= 8,
            message@.len() == 8,
            token@ == request_token_bytes(),
            forall|j: int| 0 <= j < i ==> message@[j] == token@[j],
        decreases 8 - i,
    {
        if message[i] != token[i] {
            return false;
        }
        i += 1;
    }
    assert(message@ =~= request_token_bytes());
    true
}

} // verus!
