//! Framing of outgoing JSON-RPC lines.
//!
//! The host writes one JSON object per line to the worker's input stream.
//! This module builds those lines byte by byte with a verified JSON string
//! escaper, so the envelope shape — `{"jsonrpc":"2.0","id":…,"method":…,
//! "params":…}` — and the absence of embedded newlines are proved rather
//! than assumed.  Escaping operates on the UTF-8 bytes: the escaped bytes
//! (quote, backslash, controls) never occur inside a multi-byte sequence,
//! so byte-level escaping of well-formed UTF-8 yields well-formed JSON.

use crate::rpc::{RpcId, RpcIdView};
use vstd::prelude::*;
use vstd::string::StringSliceAdditionalSpecFns;

verus! {

/// The lower-case hexadecimal digit for `d`.
pub open spec fn hex_digit_spec(d: u8) -> u8 {
    if d < 10 {
        (48 + d) as u8
    } else {
        (87 + d) as u8
    }
}

fn hex_digit(d: u8) -> (r: u8)
    requires
        d < 16,
    ensures
        r == hex_digit_spec(d),
{
    if d < 10 {
        48 + d
    } else {
        87 + d
    }
}

/// How one byte of string content is written inside a JSON string literal:
/// quote and backslash get a backslash escape, control bytes a `\u00XX`
/// escape, everything else passes through.
pub open spec fn escape_byte_spec(x: u8) -> Seq<u8> {
    if x == 34 {
        seq![92u8, 34u8]
    } else if x == 92 {
        seq![92u8, 92u8]
    } else if x < 32 {
        seq![92u8, 117u8, 48u8, 48u8, hex_digit_spec(x / 16), hex_digit_spec(x % 16)]
    } else {
        seq![x]
    }
}

/// The escaped form of a whole byte string.
pub open spec fn escape_bytes_spec(b: Seq<u8>) -> Seq<u8>
    decreases b.len(),
{
    if b.len() == 0 {
        Seq::empty()
    } else {
        escape_byte_spec(b[0]) + escape_bytes_spec(b.drop_first())
    }
}

/// Escaping one more byte appends that byte's escape.
proof fn lemma_escape_step(t: Seq<u8>, x: u8)
    ensures
        escape_bytes_spec(t.push(x)) == escape_bytes_spec(t) + escape_byte_spec(x),
    decreases t.len(),
{
    if t.len() == 0 {
        assert(t.push(x)[0] == x);
        assert(t.push(x).drop_first() =~= Seq::<u8>::empty());
        assert(escape_bytes_spec(t.push(x).drop_first()) =~= Seq::<u8>::empty());
        assert(escape_bytes_spec(t.push(x)) == escape_byte_spec(x) + escape_bytes_spec(
            t.push(x).drop_first(),
        ));
        assert(escape_bytes_spec(t) =~= Seq::<u8>::empty());
        assert(escape_bytes_spec(t.push(x)) =~= escape_bytes_spec(t) + escape_byte_spec(x));
    } else {
        assert(t.push(x).drop_first() =~= t.drop_first().push(x));
        lemma_escape_step(t.drop_first(), x);
        assert(escape_bytes_spec(t.push(x)) =~= escape_bytes_spec(t) + escape_byte_spec(x));
    }
}

/// No byte sequence the escaper writes contains a raw newline: the newline
/// byte itself is a control byte and is always written as an escape.
pub proof fn lemma_escape_no_newline(b: Seq<u8>)
    ensures
        forall|i: int|
            0 <= i < escape_bytes_spec(b).len() ==> #[trigger] escape_bytes_spec(b)[i] != 10,
    decreases b.len(),
{
    if b.len() > 0 {
        lemma_escape_no_newline(b.drop_first());
        assert forall|i: int|
            0 <= i < escape_bytes_spec(b).len() implies #[trigger] escape_bytes_spec(b)[i]
            != 10 by {
            let h = escape_byte_spec(b[0]);
            if i >= h.len() {
                assert(escape_bytes_spec(b)[i] == escape_bytes_spec(b.drop_first())[i - h.len()]);
            }
        }
    }
}

/// Appends the escaped content of `s` to `out`.
fn append_escaped(out: &mut Vec<u8>, s: &str)
    ensures
        final(out)@ == old(out)@ + escape_bytes_spec(s.spec_bytes()),
{
    let b = s.as_bytes();
    let ghost base = out@;
    let mut i: usize = 0;
    while i < b.len()
        invariant
            0 <= i <= b@.len(),
            b@ == s.spec_bytes(),
            out@ == base + escape_bytes_spec(b@.subrange(0, i as int)),
        decreases b@.len() - i,
    {
        let ghost prev = out@;
        let x = b[i];
        if x == 34 {
            out.push(92);
            out.push(34);
        } else if x == 92 {
            out.push(92);
            out.push(92);
        } else if x < 32 {
            out.push(92);
            out.push(117);
            out.push(48);
            out.push(48);
            out.push(hex_digit(x / 16));
            out.push(hex_digit(x % 16));
        } else {
            out.push(x);
        }
        proof {
            assert(out@ =~= prev + escape_byte_spec(b@[i as int]));
            assert(b@.subrange(0, i + 1) =~= b@.subrange(0, i as int).push(b@[i as int]));
            lemma_escape_step(b@.subrange(0, i as int), b@[i as int]);
            assert(out@ =~= base + escape_bytes_spec(b@.subrange(0, i + 1)));
        }
        i += 1;
    }
    proof {
        assert(b@.subrange(0, b@.len() as int) =~= b@);
    }
}

/// How an identifier is written in the JSON envelope: a string identifier
/// quoted and escaped, a number or other JSON value verbatim, a boolean as
/// its keyword.
pub open spec fn id_json_spec(id: RpcIdView) -> Seq<u8> {
    match id {
        RpcIdView::Str(s) => seq![34u8] + escape_bytes_spec(vstd::utf8::encode_utf8(s))
            + seq![34u8],
        RpcIdView::NumText(s) => vstd::utf8::encode_utf8(s),
        RpcIdView::Bool(b) => if b {
            seq![116u8, 114u8, 117u8, 101u8]
        } else {
            seq![102u8, 97u8, 108u8, 115u8, 101u8]
        },
        RpcIdView::Json(s) => vstd::utf8::encode_utf8(s),
    }
}

/// Appends the JSON rendering of the identifier to `out`.
fn append_id_json(out: &mut Vec<u8>, id: &RpcId)
    ensures
        final(out)@ == old(out)@ + id_json_spec(id@),
{
    match id {
        RpcId::Str(s) => {
            let ghost base = out@;
            out.push(34);
            append_escaped(out, s.as_str());
            out.push(34);
            proof {
                assert(out@ =~= base + id_json_spec(id@));
            }
        },
        RpcId::NumText(s) => {
            out.extend_from_slice(s.as_str().as_bytes());
        },
        RpcId::Bool(b) => {
            let ghost base = out@;
            if *b {
                out.push(116);
                out.push(114);
                out.push(117);
                out.push(101);
            } else {
                out.push(102);
                out.push(97);
                out.push(108);
                out.push(115);
                out.push(101);
            }
            proof {
                assert(out@ =~= base + id_json_spec(id@));
            }
        },
        RpcId::Json(s) => {
            out.extend_from_slice(s.as_str().as_bytes());
        },
    }
}

/// `{"jsonrpc":"2.0","id":`
pub open spec fn frame_head_spec() -> Seq<u8> {
    seq![
        123u8, 34u8, 106u8, 115u8, 111u8, 110u8, 114u8, 112u8, 99u8, 34u8, 58u8, 34u8, 50u8,
        46u8, 48u8, 34u8, 44u8, 34u8, 105u8, 100u8, 34u8, 58u8,
    ]
}

/// `,"method":"`
pub open spec fn frame_method_key_spec() -> Seq<u8> {
    seq![44u8, 34u8, 109u8, 101u8, 116u8, 104u8, 111u8, 100u8, 34u8, 58u8, 34u8]
}

/// `","params":`
pub open spec fn frame_params_key_spec() -> Seq<u8> {
    seq![34u8, 44u8, 34u8, 112u8, 97u8, 114u8, 97u8, 109u8, 115u8, 34u8, 58u8]
}

/// `,"error":{"code":"`
pub open spec fn frame_error_key_spec() -> Seq<u8> {
    seq![
        44u8, 34u8, 101u8, 114u8, 114u8, 111u8, 114u8, 34u8, 58u8, 123u8, 34u8, 99u8, 111u8,
        100u8, 101u8, 34u8, 58u8, 34u8,
    ]
}

/// `","message":"`
pub open spec fn frame_message_key_spec() -> Seq<u8> {
    seq![34u8, 44u8, 34u8, 109u8, 101u8, 115u8, 115u8, 97u8, 103u8, 101u8, 34u8, 58u8, 34u8]
}

/// The complete request line (without the trailing newline): one JSON
/// object `{"jsonrpc":"2.0","id":<id>,"method":"<method>","params":<params>}`.
pub open spec fn frame_request_spec(id: RpcIdView, method: Seq<char>, params: Seq<char>) -> Seq<
    u8,
> {
    frame_head_spec() + id_json_spec(id) + frame_method_key_spec() + escape_bytes_spec(
        vstd::utf8::encode_utf8(method),
    ) + frame_params_key_spec() + vstd::utf8::encode_utf8(params) + seq![125u8]
}

/// Builds the request line for one outgoing request.  `params_json` is the
/// request's already-serialized parameter object and is embedded verbatim.
#[verifier::rlimit(50)]
pub fn frame_request(id: &RpcId, method: &str, params_json: &str) -> (r: Vec<u8>)
    ensures
        r@ == frame_request_spec(id@, method@, params_json@),
{
    let mut out: Vec<u8> = Vec::new();
    out.push(123);
    out.push(34);
    out.push(106);
    out.push(115);
    out.push(111);
    out.push(110);
    out.push(114);
    out.push(112);
    out.push(99);
    out.push(34);
    out.push(58);
    out.push(34);
    out.push(50);
    out.push(46);
    out.push(48);
    out.push(34);
    out.push(44);
    out.push(34);
    out.push(105);
    out.push(100);
    out.push(34);
    out.push(58);
    proof {
        assert(out@ =~= frame_head_spec());
    }
    append_id_json(&mut out, id);
    let ghost g1 = out@;
    out.push(44);
    out.push(34);
    out.push(109);
    out.push(101);
    out.push(116);
    out.push(104);
    out.push(111);
    out.push(100);
    out.push(34);
    out.push(58);
    out.push(34);
    proof {
        assert(out@ =~= g1 + frame_method_key_spec());
    }
    append_escaped(&mut out, method);
    let ghost g2 = out@;
    out.push(34);
    out.push(44);
    out.push(34);
    out.push(112);
    out.push(97);
    out.push(114);
    out.push(97);
    out.push(109);
    out.push(115);
    out.push(34);
    out.push(58);
    proof {
        assert(out@ =~= g2 + frame_params_key_spec());
    }
    out.extend_from_slice(params_json.as_bytes());
    out.push(125);
    proof {
        assert(out@ =~= frame_request_spec(id@, method@, params_json@));
    }
    out
}

/// The complete error-reply line: `{"jsonrpc":"2.0","id":<id>,"error":
/// {"code":"<code>","message":"<message>"}}`.
pub open spec fn frame_error_response_spec(
    id: RpcIdView,
    code: Seq<char>,
    message: Seq<char>,
) -> Seq<u8> {
    frame_head_spec() + id_json_spec(id) + frame_error_key_spec() + escape_bytes_spec(
        vstd::utf8::encode_utf8(code),
    ) + frame_message_key_spec() + escape_bytes_spec(vstd::utf8::encode_utf8(message)) + seq![
        34u8,
        125u8,
        125u8,
    ]
}

/// Builds the error envelope handed back to the view when a request cannot
/// be forwarded.
#[verifier::rlimit(50)]
pub fn jsonrpc_error_response(id: &RpcId, code: &str, message: &str) -> (r: Vec<u8>)
    ensures
        r@ == frame_error_response_spec(id@, code@, message@),
{
    let mut out: Vec<u8> = Vec::new();
    out.push(123);
    out.push(34);
    out.push(106);
    out.push(115);
    out.push(111);
    out.push(110);
    out.push(114);
    out.push(112);
    out.push(99);
    out.push(34);
    out.push(58);
    out.push(34);
    out.push(50);
    out.push(46);
    out.push(48);
    out.push(34);
    out.push(44);
    out.push(34);
    out.push(105);
    out.push(100);
    out.push(34);
    out.push(58);
    proof {
        assert(out@ =~= frame_head_spec());
    }
    append_id_json(&mut out, id);
    let ghost g1 = out@;
    out.push(44);
    out.push(34);
    out.push(101);
    out.push(114);
    out.push(114);
    out.push(111);
    out.push(114);
    out.push(34);
    out.push(58);
    out.push(123);
    out.push(34);
    out.push(99);
    out.push(111);
    out.push(100);
    out.push(101);
    out.push(34);
    out.push(58);
    out.push(34);
    proof {
        assert(out@ =~= g1 + frame_error_key_spec());
    }
    append_escaped(&mut out, code);
    let ghost g2 = out@;
    out.push(34);
    out.push(44);
    out.push(34);
    out.push(109);
    out.push(101);
    out.push(115);
    out.push(115);
    out.push(97);
    out.push(103);
    out.push(101);
    out.push(34);
    out.push(58);
    out.push(34);
    proof {
        assert(out@ =~= g2 + frame_message_key_spec());
    }
    append_escaped(&mut out, message);
    out.push(34);
    out.push(125);
    out.push(125);
    proof {
        assert(out@ =~= frame_error_response_spec(id@, code@, message@));
    }
    out
}

/// A byte string with no embedded newline, so it fits on one line of the
/// channel.
pub open spec fn single_line(b: Seq<u8>) -> bool {
    forall|i: int| 0 <= i < b.len() ==> b[i] != 10
}

/// The identifier's rendering stays on one line whenever its verbatim parts
/// do; escaped parts always do.
pub proof fn lemma_id_json_single_line(id: RpcIdView)
    requires
        id matches RpcIdView::NumText(s) ==> single_line(vstd::utf8::encode_utf8(s)),
        id matches RpcIdView::Json(s) ==> single_line(vstd::utf8::encode_utf8(s)),
    ensures
        single_line(id_json_spec(id)),
{
    match id {
        RpcIdView::Str(s) => {
            lemma_escape_no_newline(vstd::utf8::encode_utf8(s));
        },
        _ => {},
    }
}

/// The framed request occupies exactly one line of the channel: the head,
/// the escaped method, and the braces contain no newline, and the embedded
/// parameter text and identifier are newline-free by assumption — which the
/// caller owes, since a JSON serializer never emits raw control bytes
/// inside a compact document.
pub proof fn lemma_frame_request_single_line(id: RpcIdView, method: Seq<char>, params: Seq<char>)
    requires
        single_line(vstd::utf8::encode_utf8(params)),
        id matches RpcIdView::NumText(s) ==> single_line(vstd::utf8::encode_utf8(s)),
        id matches RpcIdView::Json(s) ==> single_line(vstd::utf8::encode_utf8(s)),
    ensures
        single_line(frame_request_spec(id, method, params)),
{
    lemma_id_json_single_line(id);
    lemma_escape_no_newline(vstd::utf8::encode_utf8(method));
    let whole = frame_request_spec(id, method, params);
    assert forall|i: int| 0 <= i < whole.len() implies whole[i] != 10 by {
        lemma_concat_index(frame_head_spec(), id_json_spec(id), frame_method_key_spec(),
            escape_bytes_spec(vstd::utf8::encode_utf8(method)), frame_params_key_spec(),
            vstd::utf8::encode_utf8(params), seq![125u8], i);
    }
}

/// Every position of a seven-part concatenation lies in one of the parts.
proof fn lemma_concat_index(
    a: Seq<u8>,
    b: Seq<u8>,
    c: Seq<u8>,
    d: Seq<u8>,
    e: Seq<u8>,
    f: Seq<u8>,
    g: Seq<u8>,
    i: int,
)
    requires
        0 <= i < (a + b + c + d + e + f + g).len(),
    ensures
        exists|j: int|
            {
                &&& 0 <= j
                &&& (a.len() > j && (a + b + c + d + e + f + g)[i] == a[j]) || (b.len() > j && (a
                    + b + c + d + e + f + g)[i] == b[j]) || (c.len() > j && (a + b + c + d + e + f
                    + g)[i] == c[j]) || (d.len() > j && (a + b + c + d + e + f + g)[i] == d[j]) || (
                e.len() > j && (a + b + c + d + e + f + g)[i] == e[j]) || (f.len() > j && (a + b + c
                    + d + e + f + g)[i] == f[j]) || (g.len() > j && (a + b + c + d + e + f + g)[i]
                    == g[j])
            },
{
    let w = a + b + c + d + e + f + g;
    let la = a.len() as int;
    let lb = la + b.len() as int;
    let lc = lb + c.len() as int;
    let ld = lc + d.len() as int;
    let le = ld + e.len() as int;
    let lf = le + f.len() as int;
    if i < la {
        assert(w[i] == a[i]);
    } else if i < lb {
        assert(w[i] == b[i - la]);
    } else if i < lc {
        assert(w[i] == c[i - lb]);
    } else if i < ld {
        assert(w[i] == d[i - lc]);
    } else if i < le {
        assert(w[i] == e[i - ld]);
    } else if i < lf {
        assert(w[i] == f[i - le]);
    } else {
        assert(w[i] == g[i - lf]);
    }
}

} // verus!
