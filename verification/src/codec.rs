//! The wire format. Every message travels as one frame: a 32-bit big-endian
//! byte count followed by exactly that many payload bytes. The payload is a
//! tag byte followed by the message's fields; byte strings inside a payload
//! carry their own 32-bit big-endian length prefix. The spec functions here
//! define the format; the executable encoder and decoder are proved to agree
//! with them, and decoding an encoded message gives the message back.

use vstd::prelude::*;

use crate::bytes::{
    read_u128_be, read_u32_be, read_u64_be, spec_u128_from_be_bytes, spec_u128_to_be_bytes,
    spec_u32_from_be_bytes, spec_u32_to_be_bytes, spec_u64_from_be_bytes, spec_u64_to_be_bytes,
    lemma_u128_be_canonical, lemma_u128_be_round_trip, lemma_u32_be_canonical,
    lemma_u32_be_round_trip, lemma_u64_be_canonical, lemma_u64_be_round_trip, take_bytes,
    u128_to_be_bytes, u32_to_be_bytes, u64_to_be_bytes,
};
use crate::protocol::{
    LabeledInvoke, LabeledInvokeView, Request, RequestView, ResourceInfo, Response, ResponseView,
    ReturnCode, TaskReturn, TaskReturnView,
};

verus! {

// ---------------------------------------------------------------------------
// Well-formedness: the lengths a 32-bit prefix can carry.
// ---------------------------------------------------------------------------
pub open spec fn wf_invoke(v: LabeledInvokeView) -> bool {
    v.function.len() <= u32::MAX && v.payload.len() <= u32::MAX
}

pub open spec fn wf_task_return(v: TaskReturnView) -> bool {
    match v.payload {
        Some(p) => p.len() <= u32::MAX,
        None => true,
    }
}

pub open spec fn wf_request(v: RequestView) -> bool {
    match v {
        RequestView::FinishTask { result, .. } => wf_task_return(result),
        RequestView::LabeledInvoke(inv) => wf_invoke(inv),
        RequestView::UpdateResource { info } => info.len() <= u32::MAX,
        _ => true,
    }
}

pub open spec fn wf_response(v: ResponseView) -> bool {
    match v {
        ResponseView::ProcessTask { invoke, .. } => wf_invoke(invoke),
        ResponseView::TaskReturn(ret) => wf_task_return(ret),
        _ => true,
    }
}

// ---------------------------------------------------------------------------
// Spec encoders.
// ---------------------------------------------------------------------------
/// A byte string with its 32-bit big-endian length prefix.
pub open spec fn enc_bytes(b: Seq<u8>) -> Seq<u8>
    recommends
        b.len() <= u32::MAX,
{
    spec_u32_to_be_bytes(b.len() as u32) + b
}

pub open spec fn bool_byte(b: bool) -> u8 {
    if b {
        1
    } else {
        0
    }
}

pub open spec fn code_byte(c: ReturnCode) -> u8 {
    match c {
        ReturnCode::Success => 0,
        ReturnCode::QueueFull => 1,
        ReturnCode::Failure => 2,
    }
}

pub open spec fn enc_invoke(v: LabeledInvokeView) -> Seq<u8> {
    enc_bytes(v.function) + enc_bytes(v.payload) + seq![bool_byte(v.sync)]
}

pub open spec fn enc_task_return(v: TaskReturnView) -> Seq<u8> {
    match v.payload {
        None => seq![code_byte(v.code), 0u8],
        Some(p) => seq![code_byte(v.code), 1u8] + enc_bytes(p),
    }
}

pub open spec fn enc_request(v: RequestView) -> Seq<u8> {
    match v {
        RequestView::Ping => seq![0u8],
        RequestView::GetTask { thread_id } => seq![1u8] + spec_u64_to_be_bytes(thread_id),
        RequestView::FinishTask { task_id, result } => seq![2u8] + spec_u128_to_be_bytes(task_id)
            + enc_task_return(result),
        RequestView::LabeledInvoke(inv) => seq![3u8] + enc_invoke(inv),
        RequestView::UpdateResource { info } => seq![4u8] + enc_bytes(info),
        RequestView::DropResource => seq![5u8],
    }
}

pub open spec fn enc_response(v: ResponseView) -> Seq<u8> {
    match v {
        ResponseView::Pong => seq![0u8],
        ResponseView::ProcessTask { task_id, invoke } => seq![1u8] + spec_u128_to_be_bytes(task_id)
            + enc_invoke(invoke),
        ResponseView::Terminate => seq![2u8],
        ResponseView::TaskReturn(ret) => seq![3u8] + enc_task_return(ret),
        ResponseView::Ack => seq![4u8],
    }
}

/// The serialized form of a resource snapshot: capacity then usage, eight
/// big-endian bytes each.
pub open spec fn enc_resource_info(r: ResourceInfo) -> Seq<u8> {
    spec_u64_to_be_bytes(r.capacity) + spec_u64_to_be_bytes(r.usage)
}

/// A whole frame: the 32-bit big-endian payload length, then the payload.
pub open spec fn enc_frame(payload: Seq<u8>) -> Seq<u8>
    recommends
        payload.len() <= u32::MAX,
{
    spec_u32_to_be_bytes(payload.len() as u32) + payload
}

// ---------------------------------------------------------------------------
// Spec decoders. Each consumes from a position and yields the parsed value
// with the position that follows it; the top-level decoders accept a byte
// string only when it is consumed exactly.
// ---------------------------------------------------------------------------
pub open spec fn dec_bytes_at(s: Seq<u8>, i: int) -> Option<(Seq<u8>, int)> {
    if 0 <= i && i + 4 <= s.len() {
        let n = spec_u32_from_be_bytes(s.subrange(i, i + 4)) as int;
        if i + 4 + n <= s.len() {
            Some((s.subrange(i + 4, i + 4 + n), i + 4 + n))
        } else {
            None
        }
    } else {
        None
    }
}

pub open spec fn dec_invoke_at(s: Seq<u8>, i: int) -> Option<(LabeledInvokeView, int)> {
    match dec_bytes_at(s, i) {
        Some((function, j)) => match dec_bytes_at(s, j) {
            Some((payload, k)) => if k < s.len() && (s[k] == 0 || s[k] == 1) {
                Some((LabeledInvokeView { function, payload, sync: s[k] == 1 }, k + 1))
            } else {
                None
            },
            None => None,
        },
        None => None,
    }
}

pub open spec fn byte_code(b: u8) -> Option<ReturnCode> {
    if b == 0 {
        Some(ReturnCode::Success)
    } else if b == 1 {
        Some(ReturnCode::QueueFull)
    } else if b == 2 {
        Some(ReturnCode::Failure)
    } else {
        None
    }
}

pub open spec fn dec_task_return_at(s: Seq<u8>, i: int) -> Option<(TaskReturnView, int)> {
    if 0 <= i && i + 2 <= s.len() {
        match byte_code(s[i]) {
            Some(code) => if s[i + 1] == 0 {
                Some((TaskReturnView { code, payload: None }, i + 2))
            } else if s[i + 1] == 1 {
                match dec_bytes_at(s, i + 2) {
                    Some((p, j)) => Some((TaskReturnView { code, payload: Some(p) }, j)),
                    None => None,
                }
            } else {
                None
            },
            None => None,
        }
    } else {
        None
    }
}

pub open spec fn dec_request(s: Seq<u8>) -> Option<RequestView> {
    if s.len() < 1 {
        None
    } else if s[0] == 0 {
        if s.len() == 1 {
            Some(RequestView::Ping)
        } else {
            None
        }
    } else if s[0] == 1 {
        if s.len() == 9 {
            Some(RequestView::GetTask { thread_id: spec_u64_from_be_bytes(s.subrange(1, 9)) })
        } else {
            None
        }
    } else if s[0] == 2 {
        if s.len() >= 17 {
            let task_id = spec_u128_from_be_bytes(s.subrange(1, 17));
            match dec_task_return_at(s, 17) {
                Some((result, j)) => if j == s.len() {
                    Some(RequestView::FinishTask { task_id, result })
                } else {
                    None
                },
                None => None,
            }
        } else {
            None
        }
    } else if s[0] == 3 {
        match dec_invoke_at(s, 1) {
            Some((inv, j)) => if j == s.len() {
                Some(RequestView::LabeledInvoke(inv))
            } else {
                None
            },
            None => None,
        }
    } else if s[0] == 4 {
        match dec_bytes_at(s, 1) {
            Some((info, j)) => if j == s.len() {
                Some(RequestView::UpdateResource { info })
            } else {
                None
            },
            None => None,
        }
    } else if s[0] == 5 {
        if s.len() == 1 {
            Some(RequestView::DropResource)
        } else {
            None
        }
    } else {
        None
    }
}

pub open spec fn dec_response(s: Seq<u8>) -> Option<ResponseView> {
    if s.len() < 1 {
        None
    } else if s[0] == 0 {
        if s.len() == 1 {
            Some(ResponseView::Pong)
        } else {
            None
        }
    } else if s[0] == 1 {
        if s.len() >= 17 {
            let task_id = spec_u128_from_be_bytes(s.subrange(1, 17));
            match dec_invoke_at(s, 17) {
                Some((invoke, j)) => if j == s.len() {
                    Some(ResponseView::ProcessTask { task_id, invoke })
                } else {
                    None
                },
                None => None,
            }
        } else {
            None
        }
    } else if s[0] == 2 {
        if s.len() == 1 {
            Some(ResponseView::Terminate)
        } else {
            None
        }
    } else if s[0] == 3 {
        match dec_task_return_at(s, 1) {
            Some((ret, j)) => if j == s.len() {
                Some(ResponseView::TaskReturn(ret))
            } else {
                None
            },
            None => None,
        }
    } else if s[0] == 4 {
        if s.len() == 1 {
            Some(ResponseView::Ack)
        } else {
            None
        }
    } else {
        None
    }
}

/// A resource snapshot is exactly sixteen bytes; anything else is malformed.
pub open spec fn dec_resource_info(s: Seq<u8>) -> Option<ResourceInfo> {
    if s.len() == 16 {
        Some(
            ResourceInfo {
                capacity: spec_u64_from_be_bytes(s.subrange(0, 8)),
                usage: spec_u64_from_be_bytes(s.subrange(8, 16)),
            },
        )
    } else {
        None
    }
}

// ---------------------------------------------------------------------------
// Round trips: decoding an encoding yields the encoded value.
// ---------------------------------------------------------------------------
/// When the bytes of `s` starting at `i` spell out `e`, any slice of that
/// stretch equals the matching slice of `e`.
proof fn lemma_subrange_of_matching(s: Seq<u8>, i: int, e: Seq<u8>, a: int, b: int)
    requires
        0 <= i,
        i + e.len() <= s.len(),
        s.subrange(i, i + e.len() as int) == e,
        0 <= a <= b <= e.len(),
    ensures
        s.subrange(i + a, i + b) == e.subrange(a, b),
{
    assert forall|m: int| 0 <= m < b - a implies s.subrange(i + a, i + b)[m] == e.subrange(a, b)[m] by {
        assert(e[a + m] == s.subrange(i, i + e.len() as int)[a + m]);
    }
    assert(s.subrange(i + a, i + b) =~= e.subrange(a, b));
}

/// When the bytes of `s` starting at `i` spell out `e`, the byte at offset `a`
/// of that stretch is `e[a]`.
proof fn lemma_index_of_matching(s: Seq<u8>, i: int, e: Seq<u8>, a: int)
    requires
        0 <= i,
        i + e.len() <= s.len(),
        s.subrange(i, i + e.len() as int) == e,
        0 <= a < e.len(),
    ensures
        s[i + a] == e[a],
{
    assert(e[a] == s.subrange(i, i + e.len() as int)[a]);
}

proof fn lemma_dec_bytes_at(s: Seq<u8>, i: int, b: Seq<u8>)
    requires
        0 <= i,
        b.len() <= u32::MAX,
        i + 4 + b.len() <= s.len(),
        s.subrange(i, i + 4 + b.len() as int) == enc_bytes(b),
    ensures
        dec_bytes_at(s, i) == Some((b, i + 4 + b.len() as int)),
{
    let n = b.len() as int;
    let e = enc_bytes(b);
    lemma_u32_be_round_trip(b.len() as u32);
    assert(e.subrange(0, 4) =~= spec_u32_to_be_bytes(b.len() as u32));
    assert(s.subrange(i, i + 4) =~= e.subrange(0, 4));
    assert(spec_u32_from_be_bytes(s.subrange(i, i + 4)) == b.len());
    assert(e.subrange(4, 4 + n) =~= b);
    assert(s.subrange(i + 4, i + 4 + n) =~= e.subrange(4, 4 + n));
}

proof fn lemma_dec_invoke_at(s: Seq<u8>, i: int, v: LabeledInvokeView)
    requires
        0 <= i,
        wf_invoke(v),
        i + enc_invoke(v).len() <= s.len(),
        s.subrange(i, i + enc_invoke(v).len() as int) == enc_invoke(v),
    ensures
        dec_invoke_at(s, i) == Some((v, i + enc_invoke(v).len() as int)),
{
    let fl = v.function.len() as int;
    let pl = v.payload.len() as int;
    let e = enc_invoke(v);
    assert(e.len() == 9 + fl + pl);
    lemma_subrange_of_matching(s, i, e, 0, 4 + fl);
    assert(e.subrange(0, 4 + fl) =~= enc_bytes(v.function));
    assert(s.subrange(i, i + 4 + fl) == enc_bytes(v.function));
    lemma_dec_bytes_at(s, i, v.function);
    let j = i + 4 + fl;
    lemma_subrange_of_matching(s, i, e, 4 + fl, 8 + fl + pl);
    assert(e.subrange(4 + fl, 8 + fl + pl) =~= enc_bytes(v.payload));
    assert(s.subrange(j, j + 4 + pl) == enc_bytes(v.payload));
    lemma_dec_bytes_at(s, j, v.payload);
    let k = j + 4 + pl;
    lemma_index_of_matching(s, i, e, 8 + fl + pl);
    assert(e[8 + fl + pl] == bool_byte(v.sync));
    if v.sync {
        assert(s[k] == 1);
    } else {
        assert(s[k] == 0);
    }
}

proof fn lemma_dec_task_return_at(s: Seq<u8>, i: int, v: TaskReturnView)
    requires
        0 <= i,
        wf_task_return(v),
        i + enc_task_return(v).len() <= s.len(),
        s.subrange(i, i + enc_task_return(v).len() as int) == enc_task_return(v),
    ensures
        dec_task_return_at(s, i) == Some((v, i + enc_task_return(v).len() as int)),
{
    let e = enc_task_return(v);
    lemma_index_of_matching(s, i, e, 0);
    lemma_index_of_matching(s, i, e, 1);
    match v.payload {
        None => {
            assert(e.len() == 2);
            assert(s[i] == code_byte(v.code) && s[i + 1] == 0);
        },
        Some(p) => {
            let pl = p.len() as int;
            assert(e.len() == 6 + pl);
            assert(s[i] == code_byte(v.code) && s[i + 1] == 1);
            lemma_subrange_of_matching(s, i, e, 2, 6 + pl);
            assert(e.subrange(2, 6 + pl) =~= enc_bytes(p));
            assert(s.subrange(i + 2, i + 6 + pl) == enc_bytes(p));
            lemma_dec_bytes_at(s, i + 2, p);
        },
    }
}

/// Law: a well-formed request survives the trip through the wire format.
pub proof fn lemma_request_round_trip(v: RequestView)
    requires
        wf_request(v),
    ensures
        dec_request(enc_request(v)) == Some(v),
{
    let s = enc_request(v);
    match v {
        RequestView::Ping => {},
        RequestView::GetTask { thread_id } => {
            assert(s.len() == 9);
            assert(s.subrange(1, 9) =~= spec_u64_to_be_bytes(thread_id));
            lemma_u64_be_round_trip(thread_id);
        },
        RequestView::FinishTask { task_id, result } => {
            let tl = enc_task_return(result).len() as int;
            assert(s.len() == 17 + tl);
            assert(s.subrange(1, 17) =~= spec_u128_to_be_bytes(task_id));
            lemma_u128_be_round_trip(task_id);
            assert(s.subrange(17, 17 + tl) =~= enc_task_return(result));
            lemma_dec_task_return_at(s, 17, result);
        },
        RequestView::LabeledInvoke(inv) => {
            let il = enc_invoke(inv).len() as int;
            assert(s.subrange(1, 1 + il) =~= enc_invoke(inv));
            lemma_dec_invoke_at(s, 1, inv);
        },
        RequestView::UpdateResource { info } => {
            let nl = info.len() as int;
            assert(s.subrange(1, 5 + nl) =~= enc_bytes(info));
            lemma_dec_bytes_at(s, 1, info);
        },
        RequestView::DropResource => {},
    }
}

/// Law: a well-formed response survives the trip through the wire format.
pub proof fn lemma_response_round_trip(v: ResponseView)
    requires
        wf_response(v),
    ensures
        dec_response(enc_response(v)) == Some(v),
{
    let s = enc_response(v);
    match v {
        ResponseView::Pong => {},
        ResponseView::ProcessTask { task_id, invoke } => {
            let il = enc_invoke(invoke).len() as int;
            assert(s.len() == 17 + il);
            assert(s.subrange(1, 17) =~= spec_u128_to_be_bytes(task_id));
            lemma_u128_be_round_trip(task_id);
            assert(s.subrange(17, 17 + il) =~= enc_invoke(invoke));
            lemma_dec_invoke_at(s, 17, invoke);
        },
        ResponseView::Terminate => {},
        ResponseView::TaskReturn(ret) => {
            let tl = enc_task_return(ret).len() as int;
            assert(s.subrange(1, 1 + tl) =~= enc_task_return(ret));
            lemma_dec_task_return_at(s, 1, ret);
        },
        ResponseView::Ack => {},
    }
}

/// Law: a resource snapshot survives the trip through its serialized form.
pub proof fn lemma_resource_info_round_trip(r: ResourceInfo)
    ensures
        dec_resource_info(enc_resource_info(r)) == Some(r),
{
    let s = enc_resource_info(r);
    assert(s.subrange(0, 8) =~= spec_u64_to_be_bytes(r.capacity));
    assert(s.subrange(8, 16) =~= spec_u64_to_be_bytes(r.usage));
    lemma_u64_be_round_trip(r.capacity);
    lemma_u64_be_round_trip(r.usage);
}

/// Law: a frame carries its payload back unchanged; the prefix states the
/// payload's length.
pub proof fn lemma_frame_round_trip(payload: Seq<u8>)
    requires
        payload.len() <= u32::MAX,
    ensures
        enc_frame(payload).len() == 4 + payload.len(),
        spec_u32_from_be_bytes(enc_frame(payload).subrange(0, 4)) == payload.len(),
        enc_frame(payload).subrange(4, enc_frame(payload).len() as int) == payload,
{
    let s = enc_frame(payload);
    lemma_u32_be_round_trip(payload.len() as u32);
    assert(s.subrange(0, 4) =~= spec_u32_to_be_bytes(payload.len() as u32));
    assert(s.subrange(4, s.len() as int) =~= payload);
}

// ---------------------------------------------------------------------------
// Canonicity: what a decoder accepts is exactly the encoding of its value, so
// every message has one wire form and the decoders accept no other.
// ---------------------------------------------------------------------------
proof fn lemma_enc_bytes_of_dec(s: Seq<u8>, i: int)
    requires
        dec_bytes_at(s, i) is Some,
    ensures
        ({
            let (b, j) = dec_bytes_at(s, i)->Some_0;
            &&& 0 <= i
            &&& i + 4 <= j <= s.len()
            &&& j == i + 4 + b.len()
            &&& b.len() <= u32::MAX
            &&& s.subrange(i, j) == enc_bytes(b)
        }),
{
    let (b, j) = dec_bytes_at(s, i)->Some_0;
    let s4 = s.subrange(i, i + 4);
    lemma_u32_be_canonical(s4);
    assert(b.len() == spec_u32_from_be_bytes(s4));
    assert(spec_u32_to_be_bytes(b.len() as u32) == s4);
    assert(s.subrange(i, j) =~= s4 + s.subrange(i + 4, j));
}

proof fn lemma_enc_invoke_of_dec(s: Seq<u8>, i: int)
    requires
        dec_invoke_at(s, i) is Some,
    ensures
        ({
            let (v, j) = dec_invoke_at(s, i)->Some_0;
            &&& 0 <= i
            &&& i <= j <= s.len()
            &&& j == i + enc_invoke(v).len()
            &&& wf_invoke(v)
            &&& s.subrange(i, j) == enc_invoke(v)
        }),
{
    let (v, j) = dec_invoke_at(s, i)->Some_0;
    let (function, j1) = dec_bytes_at(s, i)->Some_0;
    let (payload, j2) = dec_bytes_at(s, j1)->Some_0;
    lemma_enc_bytes_of_dec(s, i);
    lemma_enc_bytes_of_dec(s, j1);
    assert(s[j2] == bool_byte(v.sync));
    assert(s.subrange(i, j) =~= s.subrange(i, j1) + s.subrange(j1, j2) + seq![s[j2]]);
}

proof fn lemma_enc_task_return_of_dec(s: Seq<u8>, i: int)
    requires
        dec_task_return_at(s, i) is Some,
    ensures
        ({
            let (v, j) = dec_task_return_at(s, i)->Some_0;
            &&& 0 <= i
            &&& i + 2 <= j <= s.len()
            &&& j == i + enc_task_return(v).len()
            &&& wf_task_return(v)
            &&& s.subrange(i, j) == enc_task_return(v)
        }),
{
    let (v, j) = dec_task_return_at(s, i)->Some_0;
    assert(s[i] == code_byte(v.code));
    match v.payload {
        None => {
            assert(s.subrange(i, j) =~= seq![s[i], s[i + 1]]);
        },
        Some(p) => {
            lemma_enc_bytes_of_dec(s, i + 2);
            assert(s.subrange(i, j) =~= seq![s[i], s[i + 1]] + s.subrange(i + 2, j));
        },
    }
}

/// Law (one wire form): a payload the request decoder accepts is exactly the
/// encoding of the request it yields — each request has a single wire form,
/// and nothing else is accepted as one.
pub proof fn lemma_request_canonical(s: Seq<u8>, v: RequestView)
    requires
        dec_request(s) == Some(v),
    ensures
        wf_request(v),
        enc_request(v) == s,
{
    match v {
        RequestView::Ping => {
            assert(enc_request(v) =~= s);
        },
        RequestView::GetTask { .. } => {
            lemma_u64_be_canonical(s.subrange(1, 9));
            assert(enc_request(v) =~= s);
        },
        RequestView::FinishTask { .. } => {
            lemma_u128_be_canonical(s.subrange(1, 17));
            lemma_enc_task_return_of_dec(s, 17);
            assert(enc_request(v) =~= seq![s[0]] + s.subrange(1, 17) + s.subrange(
                17,
                s.len() as int,
            ));
            assert(seq![s[0]] + s.subrange(1, 17) + s.subrange(17, s.len() as int) =~= s);
        },
        RequestView::LabeledInvoke(..) => {
            lemma_enc_invoke_of_dec(s, 1);
            assert(enc_request(v) =~= seq![s[0]] + s.subrange(1, s.len() as int));
            assert(seq![s[0]] + s.subrange(1, s.len() as int) =~= s);
        },
        RequestView::UpdateResource { .. } => {
            lemma_enc_bytes_of_dec(s, 1);
            assert(enc_request(v) =~= seq![s[0]] + s.subrange(1, s.len() as int));
            assert(seq![s[0]] + s.subrange(1, s.len() as int) =~= s);
        },
        RequestView::DropResource => {
            assert(enc_request(v) =~= s);
        },
    }
}

/// Law (one wire form): a payload the response decoder accepts is exactly the
/// encoding of the response it yields.
pub proof fn lemma_response_canonical(s: Seq<u8>, v: ResponseView)
    requires
        dec_response(s) == Some(v),
    ensures
        wf_response(v),
        enc_response(v) == s,
{
    match v {
        ResponseView::Pong => {
            assert(enc_response(v) =~= s);
        },
        ResponseView::ProcessTask { .. } => {
            lemma_u128_be_canonical(s.subrange(1, 17));
            lemma_enc_invoke_of_dec(s, 17);
            assert(enc_response(v) =~= seq![s[0]] + s.subrange(1, 17) + s.subrange(
                17,
                s.len() as int,
            ));
            assert(seq![s[0]] + s.subrange(1, 17) + s.subrange(17, s.len() as int) =~= s);
        },
        ResponseView::Terminate => {
            assert(enc_response(v) =~= s);
        },
        ResponseView::TaskReturn(..) => {
            lemma_enc_task_return_of_dec(s, 1);
            assert(enc_response(v) =~= seq![s[0]] + s.subrange(1, s.len() as int));
            assert(seq![s[0]] + s.subrange(1, s.len() as int) =~= s);
        },
        ResponseView::Ack => {
            assert(enc_response(v) =~= s);
        },
    }
}

/// Law (one wire form): sixteen bytes the snapshot decoder accepts are
/// exactly the encoding of the snapshot it yields.
pub proof fn lemma_resource_info_canonical(s: Seq<u8>, r: ResourceInfo)
    requires
        dec_resource_info(s) == Some(r),
    ensures
        enc_resource_info(r) == s,
{
    lemma_u64_be_canonical(s.subrange(0, 8));
    lemma_u64_be_canonical(s.subrange(8, 16));
    assert(enc_resource_info(r) =~= s.subrange(0, 8) + s.subrange(8, 16));
    assert(s.subrange(0, 8) + s.subrange(8, 16) =~= s);
}

// ---------------------------------------------------------------------------
// Executable encoders.
// ---------------------------------------------------------------------------
fn push_prefixed(out: &mut Vec<u8>, b: &Vec<u8>)
    requires
        b@.len() <= u32::MAX,
    ensures
        final(out)@ == old(out)@ + enc_bytes(b@),
{
    let mut l = u32_to_be_bytes(b.len() as u32);
    out.append(&mut l);
    let mut c = take_bytes(b, 0, b.len());
    assert(c@ =~= b@);
    out.append(&mut c);
    assert(out@ =~= old(out)@ + enc_bytes(b@));
}

fn push_invoke(out: &mut Vec<u8>, inv: &LabeledInvoke)
    requires
        wf_invoke(inv@),
    ensures
        final(out)@ == old(out)@ + enc_invoke(inv@),
{
    push_prefixed(out, &inv.function);
    push_prefixed(out, &inv.payload);
    out.push(if inv.sync { 1 } else { 0 });
    assert(out@ =~= old(out)@ + enc_invoke(inv@));
}

fn code_to_byte(c: ReturnCode) -> (b: u8)
    ensures
        b == code_byte(c),
{
    match c {
        ReturnCode::Success => 0,
        ReturnCode::QueueFull => 1,
        ReturnCode::Failure => 2,
    }
}

fn push_task_return(out: &mut Vec<u8>, ret: &TaskReturn)
    requires
        wf_task_return(ret@),
    ensures
        final(out)@ == old(out)@ + enc_task_return(ret@),
{
    out.push(code_to_byte(ret.code));
    match &ret.payload {
        None => {
            out.push(0);
        },
        Some(p) => {
            out.push(1);
            push_prefixed(out, p);
        },
    }
    assert(out@ =~= old(out)@ + enc_task_return(ret@));
}

/// Serializes a request into the payload bytes of one frame.
pub fn encode_request(req: &Request) -> (r: Vec<u8>)
    requires
        wf_request(req@),
    ensures
        r@ == enc_request(req@),
{
    let mut out: Vec<u8> = Vec::new();
    match req {
        Request::Ping => {
            out.push(0);
        },
        Request::GetTask { thread_id } => {
            out.push(1);
            let mut b = u64_to_be_bytes(*thread_id);
            out.append(&mut b);
        },
        Request::FinishTask { task_id, result } => {
            out.push(2);
            let mut b = u128_to_be_bytes(*task_id);
            out.append(&mut b);
            push_task_return(&mut out, result);
        },
        Request::LabeledInvoke(inv) => {
            out.push(3);
            push_invoke(&mut out, inv);
        },
        Request::UpdateResource { info } => {
            out.push(4);
            push_prefixed(&mut out, info);
        },
        Request::DropResource => {
            out.push(5);
        },
    }
    assert(out@ =~= enc_request(req@));
    out
}

/// Serializes a response into the payload bytes of one frame.
pub fn encode_response(resp: &Response) -> (r: Vec<u8>)
    requires
        wf_response(resp@),
    ensures
        r@ == enc_response(resp@),
{
    let mut out: Vec<u8> = Vec::new();
    match resp {
        Response::Pong => {
            out.push(0);
        },
        Response::ProcessTask { task_id, invoke } => {
            out.push(1);
            let mut b = u128_to_be_bytes(*task_id);
            out.append(&mut b);
            push_invoke(&mut out, invoke);
        },
        Response::Terminate => {
            out.push(2);
        },
        Response::TaskReturn(ret) => {
            out.push(3);
            push_task_return(&mut out, ret);
        },
        Response::Ack => {
            out.push(4);
        },
    }
    assert(out@ =~= enc_response(resp@));
    out
}

/// Serializes a resource snapshot as it travels inside `UpdateResource`.
pub fn encode_resource_info(info: &ResourceInfo) -> (r: Vec<u8>)
    ensures
        r@ == enc_resource_info(*info),
{
    let mut out = u64_to_be_bytes(info.capacity);
    let mut b = u64_to_be_bytes(info.usage);
    out.append(&mut b);
    assert(out@ =~= enc_resource_info(*info));
    out
}

/// Wraps payload bytes into one frame: length prefix, then the payload.
pub fn frame_payload(payload: &Vec<u8>) -> (r: Vec<u8>)
    requires
        payload@.len() <= u32::MAX,
    ensures
        r@ == enc_frame(payload@),
{
    let mut out = u32_to_be_bytes(payload.len() as u32);
    let mut b = take_bytes(payload, 0, payload.len());
    assert(b@ =~= payload@);
    out.append(&mut b);
    assert(out@ =~= enc_frame(payload@));
    out
}

/// Reads the payload length out of a frame's four header bytes.
pub fn frame_size(header: &Vec<u8>) -> (n: u32)
    requires
        header@.len() == 4,
    ensures
        n == spec_u32_from_be_bytes(header@),
{
    let n = read_u32_be(header, 0);
    assert(header@.subrange(0, 4) =~= header@);
    n
}

// ---------------------------------------------------------------------------
// Executable decoders, each proved to agree with its spec decoder.
// ---------------------------------------------------------------------------
fn read_prefixed(buf: &Vec<u8>, i: usize) -> (r: Option<(Vec<u8>, usize)>)
    requires
        i <= buf@.len(),
    ensures
        match r {
            Some(bj) => {
                &&& dec_bytes_at(buf@, i as int) == Some((bj.0@, bj.1 as int))
                &&& i <= bj.1 <= buf@.len()
            },
            None => dec_bytes_at(buf@, i as int) is None,
        },
{
    let n = buf.len();
    if n - i < 4 {
        return None;
    }
    let l32 = read_u32_be(buf, i);
    let l = l32 as usize;
    if l <= n - (i + 4) {
        let b = take_bytes(buf, i + 4, l);
        Some((b, i + 4 + l))
    } else {
        None
    }
}

fn read_invoke(buf: &Vec<u8>, i: usize) -> (r: Option<(LabeledInvoke, usize)>)
    requires
        i <= buf@.len(),
    ensures
        match r {
            Some(vj) => {
                &&& dec_invoke_at(buf@, i as int) == Some((vj.0@, vj.1 as int))
                &&& i <= vj.1 <= buf@.len()
            },
            None => dec_invoke_at(buf@, i as int) is None,
        },
{
    let n = buf.len();
    match read_prefixed(buf, i) {
        Some((function, j)) => match read_prefixed(buf, j) {
            Some((payload, k)) => {
                if k < n && (buf[k] == 0 || buf[k] == 1) {
                    let inv = LabeledInvoke { function, payload, sync: buf[k] == 1 };
                    Some((inv, k + 1))
                } else {
                    None
                }
            },
            None => None,
        },
        None => None,
    }
}

fn byte_to_code(b: u8) -> (r: Option<ReturnCode>)
    ensures
        r == byte_code(b),
{
    if b == 0 {
        Some(ReturnCode::Success)
    } else if b == 1 {
        Some(ReturnCode::QueueFull)
    } else if b == 2 {
        Some(ReturnCode::Failure)
    } else {
        None
    }
}

fn read_task_return(buf: &Vec<u8>, i: usize) -> (r: Option<(TaskReturn, usize)>)
    requires
        i <= buf@.len(),
    ensures
        match r {
            Some(vj) => {
                &&& dec_task_return_at(buf@, i as int) == Some((vj.0@, vj.1 as int))
                &&& i <= vj.1 <= buf@.len()
            },
            None => dec_task_return_at(buf@, i as int) is None,
        },
{
    let n = buf.len();
    if n - i < 2 {
        return None;
    }
    match byte_to_code(buf[i]) {
        Some(code) => {
            if buf[i + 1] == 0 {
                Some((TaskReturn { code, payload: None }, i + 2))
            } else if buf[i + 1] == 1 {
                match read_prefixed(buf, i + 2) {
                    Some((p, j)) => Some((TaskReturn { code, payload: Some(p) }, j)),
                    None => None,
                }
            } else {
                None
            }
        },
        None => None,
    }
}

/// Parses one frame's payload bytes as a request. Yields the request exactly
/// when the bytes are a well-formed encoding, and nothing otherwise.
pub fn decode_request(buf: &Vec<u8>) -> (r: Option<Request>)
    ensures
        match r {
            Some(m) => dec_request(buf@) == Some(m@),
            None => dec_request(buf@) is None,
        },
{
    let n = buf.len();
    if n < 1 {
        return None;
    }
    let tag = buf[0];
    if tag == 0 {
        if n == 1 {
            Some(Request::Ping)
        } else {
            None
        }
    } else if tag == 1 {
        if n == 9 {
            let thread_id = read_u64_be(buf, 1);
            Some(Request::GetTask { thread_id })
        } else {
            None
        }
    } else if tag == 2 {
        if n >= 17 {
            let task_id = read_u128_be(buf, 1);
            match read_task_return(buf, 17) {
                Some((result, j)) => {
                    if j == n {
                        Some(Request::FinishTask { task_id, result })
                    } else {
                        None
                    }
                },
                None => None,
            }
        } else {
            None
        }
    } else if tag == 3 {
        match read_invoke(buf, 1) {
            Some((inv, j)) => {
                if j == n {
                    Some(Request::LabeledInvoke(inv))
                } else {
                    None
                }
            },
            None => None,
        }
    } else if tag == 4 {
        match read_prefixed(buf, 1) {
            Some((info, j)) => {
                if j == n {
                    Some(Request::UpdateResource { info })
                } else {
                    None
                }
            },
            None => None,
        }
    } else if tag == 5 {
        if n == 1 {
            Some(Request::DropResource)
        } else {
            None
        }
    } else {
        None
    }
}

/// Parses one frame's payload bytes as a response. Yields the response exactly
/// when the bytes are a well-formed encoding, and nothing otherwise.
pub fn decode_response(buf: &Vec<u8>) -> (r: Option<Response>)
    ensures
        match r {
            Some(m) => dec_response(buf@) == Some(m@),
            None => dec_response(buf@) is None,
        },
{
    let n = buf.len();
    if n < 1 {
        return None;
    }
    let tag = buf[0];
    if tag == 0 {
        if n == 1 {
            Some(Response::Pong)
        } else {
            None
        }
    } else if tag == 1 {
        if n >= 17 {
            let task_id = read_u128_be(buf, 1);
            match read_invoke(buf, 17) {
                Some((invoke, j)) => {
                    if j == n {
                        Some(Response::ProcessTask { task_id, invoke })
                    } else {
                        None
                    }
                },
                None => None,
            }
        } else {
            None
        }
    } else if tag == 2 {
        if n == 1 {
            Some(Response::Terminate)
        } else {
            None
        }
    } else if tag == 3 {
        match read_task_return(buf, 1) {
            Some((ret, j)) => {
                if j == n {
                    Some(Response::TaskReturn(ret))
                } else {
                    None
                }
            },
            None => None,
        }
    } else if tag == 4 {
        if n == 1 {
            Some(Response::Ack)
        } else {
            None
        }
    } else {
        None
    }
}

/// Parses the serialized resource snapshot carried by `UpdateResource`.
pub fn decode_resource_info(buf: &Vec<u8>) -> (r: Option<ResourceInfo>)
    ensures
        r == dec_resource_info(buf@),
{
    if buf.len() == 16 {
        let capacity = read_u64_be(buf, 0);
        let usage = read_u64_be(buf, 8);
        Some(ResourceInfo { capacity, usage })
    } else {
        None
    }
}

} // verus!
