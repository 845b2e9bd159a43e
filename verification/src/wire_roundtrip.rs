//! Round trips of the wire protocol: what the encoder writes, the decoder
//! reads back.

use vstd::prelude::*;
use vstd::bytes::*;
use vstd::utf8::*;

use crate::error::ProtocolFault;
use crate::wire::{
    conditions_bytes, conditions_fault, create_tail_bytes, decode_conditions_result,
    decode_request_result, decode_response_result, decode_string_result, encode_request_result,
    encode_response_result, frame, lemma_first_long_condition_exists, request_payload,
    response_payload, string_bytes, string_fits, string_len_field, utf8_len, ConditionModel,
    RequestModel, ResponseModel, condition_bytes, MAX_MESSAGE_SIZE,
};

verus! {

/// A create request carries exactly the fields its tier defines; an attach
/// request always does. These are the requests the wire can carry unchanged.
pub open spec fn fields_match_tier(r: RequestModel) -> bool {
    match r {
        RequestModel::Create { tier, watched_name, watched_word, interval_ns, conditions, .. } => {
            if tier == 1 {
                watched_name is Some && watched_word is Some && interval_ns is None
                    && conditions is None
            } else if tier == 3 {
                watched_name is None && watched_word is None && interval_ns is Some
                    && conditions is None
            } else if tier == 4 {
                watched_name is None && watched_word is None && interval_ns is None
                    && conditions is Some
            } else {
                watched_name is None && watched_word is None && interval_ns is None
                    && conditions is None
            }
        },
        RequestModel::Attach { .. } => true,
    }
}

/// A wire string followed by anything decodes to the string, and announces
/// its UTF-8 length.
pub proof fn lemma_decode_string_bytes(s: Seq<char>, tail: Seq<u8>)
    requires
        string_fits(s),
    ensures
        string_len_field(string_bytes(s) + tail) == utf8_len(s),
        decode_string_result(string_bytes(s) + tail) == Ok::<Seq<char>, ProtocolFault>(s),
{
    lemma_auto_spec_u16_to_from_le_bytes();
    encode_utf8_valid_utf8(s);
    encode_utf8_decode_utf8(s);
    let d = string_bytes(s) + tail;
    let n = utf8_len(s) as int;
    assert(d.subrange(0, 2) =~= spec_u16_to_le_bytes(n as u16));
    assert(d.subrange(2, 2 + n) =~= encode_utf8(s));
}

/// Every condition takes at least eleven bytes on the wire.
pub proof fn lemma_conditions_bytes_len(cs: Seq<ConditionModel>)
    ensures
        conditions_bytes(cs).len() >= 11 * cs.len(),
    decreases cs.len(),
{
    lemma_auto_spec_u16_to_from_le_bytes();
    lemma_auto_spec_u64_to_from_le_bytes();
    if cs.len() > 0 {
        lemma_conditions_bytes_len(cs.drop_first());
        assert(spec_u16_to_le_bytes(utf8_len(cs[0].0) as u16).len() == 2);
        assert(spec_u64_to_le_bytes(cs[0].2).len() == 8);
    }
}

/// Conditions written after any prefix decode back, whatever follows them.
pub proof fn lemma_decode_conditions_bytes(pre: Seq<u8>, cs: Seq<ConditionModel>, tail: Seq<u8>)
    requires
        forall|i: int| 0 <= i < cs.len() ==> string_fits(#[trigger] cs[i].0),
    ensures
        decode_conditions_result(pre + conditions_bytes(cs) + tail, pre.len() as int, cs.len())
            == Ok::<Seq<ConditionModel>, ProtocolFault>(cs),
    decreases cs.len(),
{
    lemma_auto_spec_u16_to_from_le_bytes();
    lemma_auto_spec_u64_to_from_le_bytes();
    let rest = pre + conditions_bytes(cs) + tail;
    if cs.len() == 0 {
        assert(cs =~= Seq::<ConditionModel>::empty());
    } else {
        let c = cs[0];
        let more = cs.drop_first();
        assert forall|i: int| 0 <= i < more.len() implies string_fits(#[trigger] more[i].0) by {
            assert(more[i] == cs[i + 1]);
        }
        let after_name = seq![c.1] + spec_u64_to_le_bytes(c.2) + conditions_bytes(more) + tail;
        assert(rest.subrange(pre.len() as int, rest.len() as int) =~= string_bytes(c.0)
            + after_name);
        lemma_decode_string_bytes(c.0, after_name);
        let p = pre.len() + 2 + utf8_len(c.0) as int;
        assert(string_bytes(c.0).len() == 2 + utf8_len(c.0));
        assert(rest[p] == c.1);
        let q = p + 1;
        assert(rest.subrange(q, q + 8) =~= spec_u64_to_le_bytes(c.2));
        let pre2 = pre + condition_bytes(c);
        assert(rest =~= pre2 + conditions_bytes(more) + tail);
        assert(pre2.len() == q + 8);
        lemma_decode_conditions_bytes(pre2, more, tail);
        assert(seq![(c.0, c.1, c.2)] + more =~= cs);
    }
}

/// Every condition name of a list that encodes fits on the wire.
pub proof fn lemma_conditions_fit(cs: Seq<ConditionModel>)
    requires
        conditions_fault(cs) is None,
    ensures
        forall|i: int| 0 <= i < cs.len() ==> string_fits(#[trigger] cs[i].0),
{
    assert forall|i: int| 0 <= i < cs.len() implies string_fits(#[trigger] cs[i].0) by {
        if !string_fits(cs[i].0) {
            lemma_first_long_condition_exists(cs, i);
        }
    }
}

/// A frame's first four bytes announce the payload length, and the payload
/// follows them.
pub proof fn lemma_frame_layout(payload: Seq<u8>)
    requires
        frame(payload) is Ok,
    ensures
        frame(payload)->Ok_0.subrange(0, 4) == spec_u32_to_le_bytes(payload.len() as u32),
        spec_u32_from_le_bytes(frame(payload)->Ok_0.subrange(0, 4)) == payload.len(),
        frame(payload)->Ok_0.subrange(4, frame(payload)->Ok_0.len() as int) == payload,
{
    lemma_auto_spec_u32_to_from_le_bytes();
    let f = frame(payload)->Ok_0;
    assert(f.subrange(0, 4) =~= spec_u32_to_le_bytes(payload.len() as u32));
    assert(f.subrange(4, f.len() as int) =~= payload);
}

/// Response round trip: every response the encoder accepts is framed with a
/// length prefix that announces its payload within the size limit, and the
/// payload decodes to the same response.
pub proof fn response_round_trip(r: ResponseModel)
    requires
        encode_response_result(r) is Ok,
    ensures
        ({
            let f = encode_response_result(r)->Ok_0;
            &&& f.len() >= 4
            &&& spec_u32_from_le_bytes(f.subrange(0, 4)) == f.len() - 4
            &&& f.len() - 4 <= MAX_MESSAGE_SIZE
            &&& decode_response_result(f.subrange(4, f.len() as int)) == Ok::<
                ResponseModel,
                ProtocolFault,
            >(r)
        }),
{
    lemma_auto_spec_u64_to_from_le_bytes();
    let payload = response_payload(r);
    lemma_frame_layout(payload);
    let f = encode_response_result(r)->Ok_0;
    assert(f.subrange(4, f.len() as int) == payload);
    let rest = payload.subrange(2, payload.len() as int);
    match r {
        ResponseModel::Created { id } => {
            assert(rest.subrange(0, 8) =~= spec_u64_to_le_bytes(id));
        },
        ResponseModel::Attached { id } => {
            assert(rest.subrange(0, 8) =~= spec_u64_to_le_bytes(id));
        },
        ResponseModel::Error { code, message } => {
            lemma_decode_string_bytes(message, Seq::empty());
            assert(rest.subrange(1, rest.len() as int) =~= string_bytes(message) + Seq::<
                u8,
            >::empty());
            lemma_auto_spec_u16_to_from_le_bytes();
            assert(rest.len() == 1 + string_bytes(message).len());
        },
    }
}

/// Request round trip: every request whose fields match its tier and that the
/// encoder accepts is framed with a length prefix that announces its payload
/// within the size limit, and the payload decodes to the same request.
#[verifier::spinoff_prover]
#[verifier::rlimit(40)]
pub proof fn request_round_trip(r: RequestModel)
    requires
        fields_match_tier(r),
        encode_request_result(r) is Ok,
    ensures
        ({
            let f = encode_request_result(r)->Ok_0;
            &&& f.len() >= 4
            &&& spec_u32_from_le_bytes(f.subrange(0, 4)) == f.len() - 4
            &&& f.len() - 4 <= MAX_MESSAGE_SIZE
            &&& decode_request_result(f.subrange(4, f.len() as int)) == Ok::<
                RequestModel,
                ProtocolFault,
            >(r)
        }),
{
    lemma_auto_spec_u16_to_from_le_bytes();
    lemma_auto_spec_u64_to_from_le_bytes();
    let payload = request_payload(r);
    lemma_frame_layout(payload);
    let f = encode_request_result(r)->Ok_0;
    assert(f.subrange(4, f.len() as int) == payload);
    let rest = payload.subrange(2, payload.len() as int);
    match r {
        RequestModel::Attach { name } => {
            assert(rest =~= string_bytes(name) + Seq::<u8>::empty());
            lemma_decode_string_bytes(name, Seq::empty());
        },
        RequestModel::Create { name, tier, watched_name, watched_word, interval_ns, conditions } => {
            let tail = create_tail_bytes(
                tier,
                watched_name,
                watched_word,
                interval_ns,
                conditions,
            );
            let after_name = seq![tier] + tail;
            assert(rest =~= string_bytes(name) + after_name);
            lemma_decode_string_bytes(name, after_name);
            let pos = 2 + utf8_len(name) as int;
            assert(string_bytes(name).len() == 2 + utf8_len(name));
            assert(rest[pos] == tier);
            let p = pos + 1;
            assert(rest.subrange(p, rest.len() as int) =~= tail);
            if tier == 1 {
                let wn = watched_name->0;
                let ww = watched_word->0;
                assert(tail =~= string_bytes(wn) + seq![ww]);
                lemma_decode_string_bytes(wn, seq![ww]);
                assert(string_bytes(wn).len() == 2 + utf8_len(wn));
                assert(rest[p + 2 + utf8_len(wn) as int] == ww);
            } else if tier == 3 {
                assert(rest.subrange(p, p + 8) =~= spec_u64_to_le_bytes(interval_ns->0));
            } else if tier == 4 {
                let cs = conditions->0;
                lemma_conditions_fit(cs);
                lemma_conditions_bytes_len(cs);
                assert(cs.len() < 65536);
                assert(rest.subrange(p, p + 2) =~= spec_u16_to_le_bytes(cs.len() as u16));
                let pre = rest.subrange(0, p + 2);
                assert(rest =~= pre + conditions_bytes(cs) + Seq::<u8>::empty());
                lemma_decode_conditions_bytes(pre, cs, Seq::empty());
            }
        },
    }
}

} // verus!
