//! The wire-level model of the JSON-RPC channel: request identifiers, the
//! correlation key each identifier maps to, and the shape of a parsed inbound
//! message.
//!
//! A message on the wire is one JSON object per line.  The host only ever
//! inspects a fixed part of it — the `id`, and on replies the `error` or
//! `result` member — so the model holds exactly those parts as plain values;
//! the full line text is carried alongside for verbatim forwarding.

use vstd::prelude::*;
use vstd::string::StringSliceAdditionalSpecFns;

verus! {

/// A JSON-RPC request identifier.  JSON allows a string, a number, a boolean
/// or any other JSON value here; numbers are carried by their JSON rendering
/// so that every incoming number, signed or fractional, has a faithful image.
pub enum RpcId {
    /// A JSON string identifier.
    Str(String),
    /// A JSON number identifier, as the text it was written with.
    NumText(String),
    /// A JSON boolean identifier.
    Bool(bool),
    /// Any other JSON value, serialized.
    Json(String),
}

/// The mathematical value of an [`RpcId`].
pub enum RpcIdView {
    Str(Seq<char>),
    NumText(Seq<char>),
    Bool(bool),
    Json(Seq<char>),
}

impl View for RpcId {
    type V = RpcIdView;

    open spec fn view(&self) -> RpcIdView {
        match self {
            RpcId::Str(s) => RpcIdView::Str(s@),
            RpcId::NumText(s) => RpcIdView::NumText(s@),
            RpcId::Bool(b) => RpcIdView::Bool(*b),
            RpcId::Json(s) => RpcIdView::Json(s@),
        }
    }
}

impl Clone for RpcId {
    fn clone(&self) -> (r: Self)
        ensures
            r@ == self@,
    {
        match self {
            RpcId::Str(s) => RpcId::Str(s.clone()),
            RpcId::NumText(s) => RpcId::NumText(s.clone()),
            RpcId::Bool(b) => RpcId::Bool(*b),
            RpcId::Json(s) => RpcId::Json(s.clone()),
        }
    }
}

/// The correlation key of an identifier: a one-byte tag naming the JSON kind,
/// a colon, then the identifier's own text (UTF-8 for strings).  The tag keeps
/// identifiers of different kinds from ever sharing a key.
pub open spec fn id_key_spec(id: RpcIdView) -> Seq<u8> {
    match id {
        RpcIdView::Str(s) => seq![115u8, 58u8] + vstd::utf8::encode_utf8(s),
        RpcIdView::NumText(s) => seq![110u8, 58u8] + vstd::utf8::encode_utf8(s),
        RpcIdView::Bool(b) => seq![98u8, 58u8] + (if b {
            seq![116u8, 114u8, 117u8, 101u8]
        } else {
            seq![102u8, 97u8, 108u8, 115u8, 101u8]
        }),
        RpcIdView::Json(s) => seq![106u8, 58u8] + vstd::utf8::encode_utf8(s),
    }
}

/// The key under which a request with this identifier is held in the
/// correlation table.
pub fn jsonrpc_id_to_key(id: &RpcId) -> (k: Vec<u8>)
    ensures
        k@ == id_key_spec(id@),
{
    let mut k: Vec<u8> = Vec::new();
    match id {
        RpcId::Str(s) => {
            k.push(115);
            k.push(58);
            k.extend_from_slice(s.as_str().as_bytes());
        },
        RpcId::NumText(s) => {
            k.push(110);
            k.push(58);
            k.extend_from_slice(s.as_str().as_bytes());
        },
        RpcId::Bool(b) => {
            k.push(98);
            k.push(58);
            if *b {
                k.push(116);
                k.push(114);
                k.push(117);
                k.push(101);
            } else {
                k.push(102);
                k.push(97);
                k.push(108);
                k.push(115);
                k.push(101);
            }
        },
        RpcId::Json(s) => {
            k.push(106);
            k.push(58);
            k.extend_from_slice(s.as_str().as_bytes());
        },
    }
    proof {
        assert(k@ =~= id_key_spec(id@));
    }
    k
}

/// Distinct identifiers have distinct correlation keys, so a reply can only
/// ever complete the request that carries its own identifier.
pub proof fn lemma_id_key_injective(a: RpcIdView, b: RpcIdView)
    requires
        id_key_spec(a) == id_key_spec(b),
    ensures
        a == b,
{
    let ka = id_key_spec(a);
    let kb = id_key_spec(b);
    assert(ka[0] == kb[0]);
    match (a, b) {
        (RpcIdView::Str(x), RpcIdView::Str(y)) => {
            lemma_tail_eq(seq![115u8, 58u8], vstd::utf8::encode_utf8(x), vstd::utf8::encode_utf8(y));
            vstd::utf8::encode_utf8_decode_utf8(x);
            vstd::utf8::encode_utf8_decode_utf8(y);
        },
        (RpcIdView::NumText(x), RpcIdView::NumText(y)) => {
            lemma_tail_eq(seq![110u8, 58u8], vstd::utf8::encode_utf8(x), vstd::utf8::encode_utf8(y));
            vstd::utf8::encode_utf8_decode_utf8(x);
            vstd::utf8::encode_utf8_decode_utf8(y);
        },
        (RpcIdView::Bool(x), RpcIdView::Bool(y)) => {
            if x != y {
                assert(ka.len() != kb.len());
            }
        },
        (RpcIdView::Json(x), RpcIdView::Json(y)) => {
            lemma_tail_eq(seq![106u8, 58u8], vstd::utf8::encode_utf8(x), vstd::utf8::encode_utf8(y));
            vstd::utf8::encode_utf8_decode_utf8(x);
            vstd::utf8::encode_utf8_decode_utf8(y);
        },
        _ => {},
    }
}

/// Appending different tails to one prefix gives different sequences.
proof fn lemma_tail_eq(p: Seq<u8>, x: Seq<u8>, y: Seq<u8>)
    requires
        p + x == p + y,
    ensures
        x == y,
{
    assert(x =~= (p + x).subrange(p.len() as int, (p + x).len() as int));
    assert(y =~= (p + y).subrange(p.len() as int, (p + y).len() as int));
}

/// The error member of a reply, reduced to the parts the host reads: a
/// numeric or string `code`, the `message`, and the raw error object for
/// verbatim forwarding.  A numeric code takes precedence, as on the wire.
pub struct RpcErrorInfo {
    /// `code` when it is a JSON integer.
    pub code_num: Option<i64>,
    /// `code` when it is a JSON string.
    pub code_str: Option<String>,
    /// `message` when it is a JSON string.
    pub message: Option<String>,
    /// The whole error object, serialized.
    pub raw: String,
}

/// One parsed line from the worker process, reduced to the parts the host
/// reads.  `raw` is the full line for verbatim forwarding to subscribers.
pub struct WireMsg {
    /// The `id` member, when present.
    pub id: Option<RpcId>,
    /// The `error` member, when present.
    pub error: Option<RpcErrorInfo>,
    /// The `result` member, serialized, when present.
    pub result: Option<String>,
    /// The whole line.
    pub raw: String,
}

/// What the bridge's reader does with one line of worker output.
pub enum LineEvent {
    /// A line that is empty or all whitespace.
    Blank,
    /// A line that is not valid JSON.
    NotJson,
    /// A parsed JSON object.
    Msg(WireMsg),
}

} // verus!
