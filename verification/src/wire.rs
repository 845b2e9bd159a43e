//! The UDS wire protocol, version 1.
//!
//! A frame is a little-endian `u32` payload length followed by the payload.
//! The payload starts with the protocol version byte, then a tag byte, then
//! the tag's fields. Strings are a little-endian `u16` byte length followed by
//! UTF-8 bytes; integers are little-endian `u64`.

use vstd::prelude::*;
use vstd::bytes::*;
use vstd::slice::*;
use vstd::utf8::*;
use vstd::string::StringExecFns;

use crate::error::ProtocolFault;

verus! {

pub const LENGTH_PREFIX_BYTES: usize = 4;

pub const MAX_MESSAGE_SIZE: usize = 4096;

pub const PROTOCOL_VERSION: u8 = 1;

/// Largest byte length a wire string can carry (its prefix is a `u16`).
pub const MAX_STRING_BYTES: usize = 65535;

pub const TAG_CREATE_INTERLOCK: u8 = 0x01;

pub const TAG_ATTACH_INTERLOCK: u8 = 0x02;

pub const TAG_CREATED: u8 = 0x81;

pub const TAG_ATTACHED: u8 = 0x82;

pub const TAG_ERROR: u8 = 0x88;

pub const ERR_INTERLOCK_REAPED: u8 = 0x01;

pub const ERR_INTERLOCK_NOT_FOUND: u8 = 0x02;

pub const ERR_ALLOCATION_FAILED: u8 = 0x03;

pub const ERR_INVALID_REQUEST: u8 = 0x04;

// -- Request / Response --

/// Wire-level request.
///
/// CreateInterlock carries a tier (0=Interlock, 1=WaitCounter, 2=WaitTimer,
/// 3=WaitCron, 4=WaitBarrier). WaitCounter carries watched_name and
/// watched_word (0=open_count, 1=closed_count); WaitCron carries interval_ns;
/// WaitBarrier carries (watched_name, watched_word, threshold) conditions.
#[derive(Debug, Clone, PartialEq, Eq)]
pub enum Request {
    CreateInterlock {
        name: String,
        tier: u8,
        watched_name: Option<String>,
        watched_word: Option<u8>,
        interval_ns: Option<u64>,
        conditions: Option<Vec<(String, u8, u64)>>,
    },
    AttachInterlock { name: String },
}

/// Wire-level response.
#[derive(Debug, Clone, PartialEq, Eq)]
pub enum Response {
    Created { id: u64 },
    Attached { id: u64 },
    Error { code: u8, message: String },
}

/// A barrier condition as plain values: (watched_name, watched_word, threshold).
pub type ConditionModel = (Seq<char>, u8, u64);

/// The mathematical value of a [`Request`]: strings as their characters.
pub enum RequestModel {
    Create {
        name: Seq<char>,
        tier: u8,
        watched_name: Option<Seq<char>>,
        watched_word: Option<u8>,
        interval_ns: Option<u64>,
        conditions: Option<Seq<ConditionModel>>,
    },
    Attach { name: Seq<char> },
}

/// The mathematical value of a [`Response`].
pub enum ResponseModel {
    Created { id: u64 },
    Attached { id: u64 },
    Error { code: u8, message: Seq<char> },
}

pub open spec fn conditions_view(cs: Seq<(String, u8, u64)>) -> Seq<ConditionModel> {
    cs.map_values(|c: (String, u8, u64)| (c.0@, c.1, c.2))
}

pub open spec fn option_string_view(s: Option<String>) -> Option<Seq<char>> {
    match s {
        Some(s) => Some(s@),
        None => None,
    }
}

impl View for Request {
    type V = RequestModel;

    open spec fn view(&self) -> RequestModel {
        match self {
            Request::CreateInterlock {
                name,
                tier,
                watched_name,
                watched_word,
                interval_ns,
                conditions,
            } => RequestModel::Create {
                name: name@,
                tier: *tier,
                watched_name: option_string_view(*watched_name),
                watched_word: *watched_word,
                interval_ns: *interval_ns,
                conditions: match conditions {
                    Some(cs) => Some(conditions_view(cs@)),
                    None => None,
                },
            },
            Request::AttachInterlock { name } => RequestModel::Attach { name: name@ },
        }
    }
}

impl View for Response {
    type V = ResponseModel;

    open spec fn view(&self) -> ResponseModel {
        match self {
            Response::Created { id } => ResponseModel::Created { id: *id },
            Response::Attached { id } => ResponseModel::Attached { id: *id },
            Response::Error { code, message } => ResponseModel::Error {
                code: *code,
                message: message@,
            },
        }
    }
}

impl Response {
    pub fn interlock_reaped() -> (r: Self)
        ensures
            r@ == (ResponseModel::Error { code: ERR_INTERLOCK_REAPED, message: "InterlockReaped"@ }),
    {
        Response::Error { code: ERR_INTERLOCK_REAPED, message: String::from_str("InterlockReaped") }
    }

    pub fn interlock_not_found(name: &str) -> (r: Self)
        ensures
            r@ == (ResponseModel::Error {
                code: ERR_INTERLOCK_NOT_FOUND,
                message: "InterlockNotFound: "@ + name@,
            }),
    {
        let message = String::from_str("InterlockNotFound: ").concat(name);
        Response::Error { code: ERR_INTERLOCK_NOT_FOUND, message }
    }

    pub fn allocation_failed(msg: &str) -> (r: Self)
        ensures
            r@ == (ResponseModel::Error { code: ERR_ALLOCATION_FAILED, message: msg@ }),
    {
        Response::Error { code: ERR_ALLOCATION_FAILED, message: String::from_str(msg) }
    }

    pub fn invalid_request(msg: &str) -> (r: Self)
        ensures
            r@ == (ResponseModel::Error { code: ERR_INVALID_REQUEST, message: msg@ }),
    {
        Response::Error { code: ERR_INVALID_REQUEST, message: String::from_str(msg) }
    }
}

/// Created and Attached carry one fd (the interlock); Error carries none.
pub fn expected_fd_count(response: &Response) -> (n: usize)
    ensures
        n == spec_expected_fd_count(response@),
{
    match response {
        Response::Created { .. } | Response::Attached { .. } => 1,
        Response::Error { .. } => 0,
    }
}

/// The payload length a frame's four-byte prefix announces; a length above
/// the size limit is refused.
pub fn frame_payload_len(prefix: &[u8]) -> (r: Result<usize, ProtocolFault>)
    requires
        prefix@.len() == LENGTH_PREFIX_BYTES,
    ensures
        ({
            let len = spec_u32_from_le_bytes(prefix@);
            &&& len <= MAX_MESSAGE_SIZE ==> r == Ok::<usize, ProtocolFault>(len as usize)
            &&& len > MAX_MESSAGE_SIZE ==> r == Err::<usize, ProtocolFault>(
                ProtocolFault::FrameTooLarge { len: len as usize, max: MAX_MESSAGE_SIZE },
            )
        }),
{
    let len = u32_from_le_bytes(prefix) as usize;
    if len > MAX_MESSAGE_SIZE {
        return Err(ProtocolFault::FrameTooLarge { len, max: MAX_MESSAGE_SIZE });
    }
    Ok(len)
}

/// A response must arrive with exactly the fds it carries.
pub fn check_fd_count(response: &Response, have: usize) -> (r: Result<(), ProtocolFault>)
    ensures
        have == spec_expected_fd_count(response@) ==> r is Ok,
        have != spec_expected_fd_count(response@) ==> r == Err::<(), ProtocolFault>(
            ProtocolFault::Truncated { needed: spec_expected_fd_count(response@), have },
        ),
{
    let needed = expected_fd_count(response);
    if have != needed {
        return Err(ProtocolFault::Truncated { needed, have });
    }
    Ok(())
}

// -- Encoding, as mathematics --

/// The UTF-8 byte length of a string.
pub open spec fn utf8_len(s: Seq<char>) -> nat {
    encode_utf8(s).len()
}

/// A string fits on the wire when its UTF-8 bytes fit the `u16` prefix.
pub open spec fn string_fits(s: Seq<char>) -> bool {
    utf8_len(s) <= MAX_STRING_BYTES
}

/// The fault reported for a string too long for the wire.
pub open spec fn string_too_long(s: Seq<char>) -> ProtocolFault {
    ProtocolFault::FrameTooLarge { len: utf8_len(s) as usize, max: MAX_STRING_BYTES }
}

/// A wire string: `u16` LE byte length, then the UTF-8 bytes.
pub open spec fn string_bytes(s: Seq<char>) -> Seq<u8> {
    spec_u16_to_le_bytes(utf8_len(s) as u16) + encode_utf8(s)
}

/// One barrier condition on the wire.
pub open spec fn condition_bytes(c: ConditionModel) -> Seq<u8> {
    string_bytes(c.0) + seq![c.1] + spec_u64_to_le_bytes(c.2)
}

/// A sequence of barrier conditions on the wire, one after the other.
pub open spec fn conditions_bytes(cs: Seq<ConditionModel>) -> Seq<u8>
    decreases cs.len(),
{
    if cs.len() == 0 {
        Seq::empty()
    } else {
        condition_bytes(cs[0]) + conditions_bytes(cs.drop_first())
    }
}

/// `i` is the first condition whose name does not fit on the wire.
pub open spec fn is_first_long_condition(cs: Seq<ConditionModel>, i: int) -> bool {
    &&& 0 <= i < cs.len()
    &&& !string_fits(cs[i].0)
    &&& forall|j: int| 0 <= j < i ==> string_fits(#[trigger] cs[j].0)
}

/// The fault encoding reports for a condition list: the first name too long.
pub open spec fn conditions_fault(cs: Seq<ConditionModel>) -> Option<ProtocolFault> {
    if exists|i: int| is_first_long_condition(cs, i) {
        let i = choose|i: int| is_first_long_condition(cs, i);
        Some(string_too_long(cs[i].0))
    } else {
        None
    }
}

/// The fault `encode_request` reports for a request, in the order it checks.
pub open spec fn request_fault(r: RequestModel) -> Option<ProtocolFault> {
    match r {
        RequestModel::Create { name, tier, watched_name, watched_word, conditions, .. } => {
            if !string_fits(name) {
                Some(string_too_long(name))
            } else if tier == 1 {
                if watched_word is None {
                    Some(ProtocolFault::Truncated { needed: 1, have: 0 })
                } else if watched_name is Some && !string_fits(watched_name->0) {
                    Some(string_too_long(watched_name->0))
                } else {
                    None
                }
            } else if tier == 4 && conditions is Some {
                conditions_fault(conditions->0)
            } else {
                None
            }
        },
        RequestModel::Attach { name } => {
            if !string_fits(name) {
                Some(string_too_long(name))
            } else {
                None
            }
        },
    }
}

/// The tier-specific fields of a create request as written on the wire.
pub open spec fn create_tail_bytes(
    tier: u8,
    watched_name: Option<Seq<char>>,
    watched_word: Option<u8>,
    interval_ns: Option<u64>,
    conditions: Option<Seq<ConditionModel>>,
) -> Seq<u8> {
    if tier == 1 {
        let name_part = match watched_name {
            Some(w) => string_bytes(w),
            None => Seq::empty(),
        };
        match watched_word {
            Some(ww) => name_part + seq![ww],
            None => name_part,
        }
    } else if tier == 3 {
        match interval_ns {
            Some(v) => spec_u64_to_le_bytes(v),
            None => Seq::empty(),
        }
    } else if tier == 4 {
        match conditions {
            Some(cs) => spec_u16_to_le_bytes(cs.len() as u16) + conditions_bytes(cs),
            None => Seq::empty(),
        }
    } else {
        Seq::empty()
    }
}

/// The payload of a request: version, tag, fields.
pub open spec fn request_payload(r: RequestModel) -> Seq<u8> {
    match r {
        RequestModel::Create { name, tier, watched_name, watched_word, interval_ns, conditions } =>
            seq![PROTOCOL_VERSION, TAG_CREATE_INTERLOCK] + string_bytes(name) + seq![tier]
                + create_tail_bytes(tier, watched_name, watched_word, interval_ns, conditions),
        RequestModel::Attach { name } => seq![PROTOCOL_VERSION, TAG_ATTACH_INTERLOCK]
            + string_bytes(name),
    }
}

/// The payload of a response: version, tag, fields.
pub open spec fn response_payload(r: ResponseModel) -> Seq<u8> {
    match r {
        ResponseModel::Created { id } => seq![PROTOCOL_VERSION, TAG_CREATED]
            + spec_u64_to_le_bytes(id),
        ResponseModel::Attached { id } => seq![PROTOCOL_VERSION, TAG_ATTACHED]
            + spec_u64_to_le_bytes(id),
        ResponseModel::Error { code, message } => seq![PROTOCOL_VERSION, TAG_ERROR, code]
            + string_bytes(message),
    }
}

/// A payload framed: refused above the size limit, else `u32` LE length first.
pub open spec fn frame(payload: Seq<u8>) -> Result<Seq<u8>, ProtocolFault> {
    if payload.len() > MAX_MESSAGE_SIZE {
        Err(ProtocolFault::FrameTooLarge { len: payload.len() as usize, max: MAX_MESSAGE_SIZE })
    } else {
        Ok(spec_u32_to_le_bytes(payload.len() as u32) + payload)
    }
}

/// What `encode_request` produces for a request.
pub open spec fn encode_request_result(r: RequestModel) -> Result<Seq<u8>, ProtocolFault> {
    match request_fault(r) {
        Some(f) => Err(f),
        None => frame(request_payload(r)),
    }
}

/// What `encode_response` produces for a response.
pub open spec fn encode_response_result(r: ResponseModel) -> Result<Seq<u8>, ProtocolFault> {
    match r {
        ResponseModel::Error { message, .. } if !string_fits(message) => Err(
            string_too_long(message),
        ),
        _ => frame(response_payload(r)),
    }
}

pub open spec fn bytes_result_view(r: Result<Vec<u8>, ProtocolFault>) -> Result<Seq<u8>, ProtocolFault> {
    match r {
        Ok(v) => Ok(v@),
        Err(f) => Err(f),
    }
}

// -- Decoding, as mathematics --

/// The byte length a wire string announces in its `u16` prefix.
pub open spec fn string_len_field(data: Seq<u8>) -> int {
    spec_u16_from_le_bytes(data.subrange(0, 2)) as int
}

/// A length a truncation fault reports: the offset the decoder needed, held
/// at `usize::MAX` should it pass that.
pub open spec fn fault_len(x: int) -> usize {
    if x > usize::MAX {
        usize::MAX
    } else {
        x as usize
    }
}

/// Decoding a wire string at the start of `data`.
pub open spec fn decode_string_result(data: Seq<u8>) -> Result<Seq<char>, ProtocolFault> {
    if data.len() < 2 {
        Err(ProtocolFault::Truncated { needed: 2, have: data.len() as usize })
    } else if data.len() < 2 + string_len_field(data) {
        Err(
            ProtocolFault::Truncated {
                needed: (2 + string_len_field(data)) as usize,
                have: data.len() as usize,
            },
        )
    } else if !valid_utf8(data.subrange(2, 2 + string_len_field(data))) {
        Err(ProtocolFault::InvalidUtf8)
    } else {
        Ok(decode_utf8(data.subrange(2, 2 + string_len_field(data))))
    }
}

/// Decoding `count` barrier conditions from `rest`, the first at offset `pos`.
pub open spec fn decode_conditions_result(rest: Seq<u8>, pos: int, count: nat) -> Result<
    Seq<ConditionModel>,
    ProtocolFault,
>
    decreases count,
{
    if count == 0 {
        Ok(Seq::empty())
    } else {
        match decode_string_result(rest.subrange(pos, rest.len() as int)) {
            Err(f) => Err(f),
            Ok(wn) => {
                let p = pos + 2 + utf8_len(wn);
                if p >= rest.len() {
                    Err(ProtocolFault::Truncated { needed: fault_len(p + 1), have: rest.len() as usize })
                } else {
                    let ww = rest[p];
                    let q = p + 1;
                    if rest.len() < q + 8 {
                        Err(ProtocolFault::Truncated { needed: fault_len(q + 8), have: rest.len() as usize })
                    } else {
                        let threshold = spec_u64_from_le_bytes(rest.subrange(q, q + 8));
                        match decode_conditions_result(rest, q + 8, (count - 1) as nat) {
                            Err(f) => Err(f),
                            Ok(tail) => Ok(seq![(wn, ww, threshold)] + tail),
                        }
                    }
                }
            },
        }
    }
}

/// Decoding the tier-specific fields of a create request. `total` is the
/// payload length, `rest` the payload after version and tag, `pos` the offset
/// of the tier byte in `rest`.
pub open spec fn decode_create_result(total: nat, rest: Seq<u8>, name: Seq<char>, pos: int) -> Result<
    RequestModel,
    ProtocolFault,
> {
    if pos >= rest.len() {
        Err(ProtocolFault::Truncated { needed: fault_len(total as int + 1), have: total as usize })
    } else {
        let tier = rest[pos];
        let p = pos + 1;
        if tier == 1 {
            match decode_string_result(rest.subrange(p, rest.len() as int)) {
                Err(f) => Err(f),
                Ok(wn) => {
                    let q = p + 2 + utf8_len(wn);
                    if q >= rest.len() {
                        Err(ProtocolFault::Truncated { needed: fault_len(total as int + 1), have: total as usize })
                    } else {
                        Ok(
                            RequestModel::Create {
                                name,
                                tier,
                                watched_name: Some(wn),
                                watched_word: Some(rest[q]),
                                interval_ns: None,
                                conditions: None,
                            },
                        )
                    }
                },
            }
        } else if tier == 3 {
            if rest.len() < p + 8 {
                Err(ProtocolFault::Truncated { needed: fault_len(p + 8 + 2), have: rest.len() as usize })
            } else {
                Ok(
                    RequestModel::Create {
                        name,
                        tier,
                        watched_name: None,
                        watched_word: None,
                        interval_ns: Some(spec_u64_from_le_bytes(rest.subrange(p, p + 8))),
                        conditions: None,
                    },
                )
            }
        } else if tier == 4 {
            if rest.len() < p + 2 {
                Err(ProtocolFault::Truncated { needed: fault_len(p + 2), have: rest.len() as usize })
            } else {
                let count = spec_u16_from_le_bytes(rest.subrange(p, p + 2)) as nat;
                match decode_conditions_result(rest, p + 2, count) {
                    Err(f) => Err(f),
                    Ok(cs) => Ok(
                        RequestModel::Create {
                            name,
                            tier,
                            watched_name: None,
                            watched_word: None,
                            interval_ns: None,
                            conditions: Some(cs),
                        },
                    ),
                }
            }
        } else {
            Ok(
                RequestModel::Create {
                    name,
                    tier,
                    watched_name: None,
                    watched_word: None,
                    interval_ns: None,
                    conditions: None,
                },
            )
        }
    }
}

/// What `decode_request` produces for a payload.
pub open spec fn decode_request_result(data: Seq<u8>) -> Result<RequestModel, ProtocolFault> {
    if data.len() < 2 {
        Err(ProtocolFault::Truncated { needed: 2, have: data.len() as usize })
    } else if data[0] != PROTOCOL_VERSION {
        Err(ProtocolFault::UnsupportedVersion { version: data[0] })
    } else {
        let rest = data.subrange(2, data.len() as int);
        if data[1] == TAG_CREATE_INTERLOCK {
            match decode_string_result(rest) {
                Err(f) => Err(f),
                Ok(name) => decode_create_result(data.len(), rest, name, 2 + utf8_len(name) as int),
            }
        } else if data[1] == TAG_ATTACH_INTERLOCK {
            match decode_string_result(rest) {
                Err(f) => Err(f),
                Ok(name) => Ok(RequestModel::Attach { name }),
            }
        } else {
            Err(ProtocolFault::UnknownTag { tag: data[1] })
        }
    }
}

/// What `decode_response` produces for a payload.
pub open spec fn decode_response_result(data: Seq<u8>) -> Result<ResponseModel, ProtocolFault> {
    if data.len() < 2 {
        Err(ProtocolFault::Truncated { needed: 2, have: data.len() as usize })
    } else if data[0] != PROTOCOL_VERSION {
        Err(ProtocolFault::UnsupportedVersion { version: data[0] })
    } else {
        let rest = data.subrange(2, data.len() as int);
        if data[1] == TAG_CREATED || data[1] == TAG_ATTACHED {
            if rest.len() < 8 {
                Err(ProtocolFault::Truncated { needed: 10, have: data.len() as usize })
            } else {
                let id = spec_u64_from_le_bytes(rest.subrange(0, 8));
                if data[1] == TAG_CREATED {
                    Ok(ResponseModel::Created { id })
                } else {
                    Ok(ResponseModel::Attached { id })
                }
            }
        } else if data[1] == TAG_ERROR {
            if rest.len() == 0 {
                Err(ProtocolFault::Truncated { needed: 3, have: data.len() as usize })
            } else if rest.len() > 1 {
                match decode_string_result(rest.subrange(1, rest.len() as int)) {
                    Err(f) => Err(f),
                    Ok(message) => Ok(ResponseModel::Error { code: rest[0], message }),
                }
            } else {
                Ok(ResponseModel::Error { code: rest[0], message: Seq::empty() })
            }
        } else {
            Err(ProtocolFault::UnknownTag { tag: data[1] })
        }
    }
}

pub open spec fn request_result_view(r: Result<Request, ProtocolFault>) -> Result<RequestModel, ProtocolFault> {
    match r {
        Ok(req) => Ok(req@),
        Err(f) => Err(f),
    }
}

pub open spec fn response_result_view(r: Result<Response, ProtocolFault>) -> Result<ResponseModel, ProtocolFault> {
    match r {
        Ok(resp) => Ok(resp@),
        Err(f) => Err(f),
    }
}

/// The number of file descriptors that travel with a response.
pub open spec fn spec_expected_fd_count(r: ResponseModel) -> usize {
    match r {
        ResponseModel::Error { .. } => 0,
        _ => 1,
    }
}


// -- Lemmas about the encoding --

/// Appending one condition appends its bytes.
pub proof fn lemma_conditions_bytes_push(cs: Seq<ConditionModel>, c: ConditionModel)
    ensures
        conditions_bytes(cs.push(c)) == conditions_bytes(cs) + condition_bytes(c),
    decreases cs.len(),
{
    if cs.len() == 0 {
        assert(cs.push(c).drop_first() =~= Seq::<ConditionModel>::empty());
        assert(conditions_bytes(cs.push(c).drop_first()) == Seq::<u8>::empty());
        assert(conditions_bytes(cs.push(c)) =~= condition_bytes(c));
    } else {
        lemma_conditions_bytes_push(cs.drop_first(), c);
        assert(cs.push(c).drop_first() =~= cs.drop_first().push(c));
        assert(conditions_bytes(cs.push(c)) =~= condition_bytes(cs[0]) + (conditions_bytes(
            cs.drop_first(),
        ) + condition_bytes(c)));
    }
}

/// The first long condition is unique.
pub proof fn lemma_first_long_condition_unique(cs: Seq<ConditionModel>, i: int, k: int)
    requires
        is_first_long_condition(cs, i),
        is_first_long_condition(cs, k),
    ensures
        i == k,
{
    if k < i {
        assert(string_fits(cs[k].0));
    } else if i < k {
        assert(string_fits(cs[i].0));
    }
}

/// When some condition name is too long, a first such condition exists.
pub proof fn lemma_first_long_condition_exists(cs: Seq<ConditionModel>, i: int)
    requires
        0 <= i < cs.len(),
        !string_fits(cs[i].0),
    ensures
        exists|k: int| is_first_long_condition(cs, k),
    decreases i,
{
    if forall|j: int| 0 <= j < i ==> string_fits(#[trigger] cs[j].0) {
        assert(is_first_long_condition(cs, i));
    } else {
        let j = choose|j: int| 0 <= j < i && !string_fits(#[trigger] cs[j].0);
        lemma_first_long_condition_exists(cs, j);
    }
}

// -- Encoding --

/// `String::from_utf8`: the string the bytes encode when they are valid
/// UTF-8, and nothing (here `None`) when they are not.
#[verifier::external_body]
fn string_from_utf8(bytes: Vec<u8>) -> (r: Option<String>)
    ensures
        r is Some <==> valid_utf8(bytes@),
        r matches Some(s) ==> s@ == decode_utf8(bytes@),
{
    match String::from_utf8(bytes) {
        Ok(s) => Some(s),
        Err(_) => None,
    }
}

/// Append a wire string: `u16` LE byte length, then the UTF-8 bytes.
fn encode_string_into(buf: &mut Vec<u8>, s: &str) -> (r: Result<(), ProtocolFault>)
    ensures
        r is Ok ==> string_fits(s@) && final(buf)@ == old(buf)@ + string_bytes(s@),
        r matches Err(f) ==> !string_fits(s@) && f == string_too_long(s@),
{
    let bytes = s.as_bytes();
    let n = bytes.len();
    if n > MAX_STRING_BYTES {
        return Err(ProtocolFault::FrameTooLarge { len: n, max: MAX_STRING_BYTES });
    }
    let mut prefix = u16_to_le_bytes(n as u16);
    buf.append(&mut prefix);
    let mut body = slice_to_vec(bytes);
    buf.append(&mut body);
    Ok(())
}

/// Append the barrier conditions: `u16` LE count, then each condition.
fn encode_conditions_into(buf: &mut Vec<u8>, conds: &Vec<(String, u8, u64)>) -> (r: Result<
    (),
    ProtocolFault,
>)
    ensures
        r is Ok ==> conditions_fault(conditions_view(conds@)) is None && final(buf)@ == old(buf)@
            + spec_u16_to_le_bytes(conds@.len() as u16) + conditions_bytes(
            conditions_view(conds@),
        ),
        r matches Err(f) ==> conditions_fault(conditions_view(conds@)) == Some(f),
{
    let ghost cv = conditions_view(conds@);
    let ghost start = buf@;
    let count = conds.len() as u16;
    let mut prefix = u16_to_le_bytes(count);
    buf.append(&mut prefix);
    let mut i: usize = 0;
    while i < conds.len()
        invariant
            i <= conds@.len(),
            cv == conditions_view(conds@),
            buf@ == start + spec_u16_to_le_bytes(conds@.len() as u16) + conditions_bytes(
                cv.take(i as int),
            ),
            forall|j: int| 0 <= j < i ==> string_fits(#[trigger] cv[j].0),
        decreases conds@.len() - i,
    {
        let c = &conds[i];
        let ghost before = buf@;
        match encode_string_into(buf, c.0.as_str()) {
            Ok(()) => {},
            Err(f) => {
                proof {
                    assert(is_first_long_condition(cv, i as int));
                    let k = choose|k: int| is_first_long_condition(cv, k);
                    lemma_first_long_condition_unique(cv, i as int, k);
                }
                return Err(f);
            },
        }
        buf.push(c.1);
        let mut th = u64_to_le_bytes(c.2);
        buf.append(&mut th);
        proof {
            assert(cv.take(i + 1) =~= cv.take(i as int).push(cv[i as int]));
            lemma_conditions_bytes_push(cv.take(i as int), cv[i as int]);
            assert(buf@ =~= start + spec_u16_to_le_bytes(conds@.len() as u16) + conditions_bytes(
                cv.take(i + 1),
            ));
        }
        i = i + 1;
    }
    proof {
        assert(cv.take(conds@.len() as int) =~= cv);
        if exists|k: int| is_first_long_condition(cv, k) {
            let k = choose|k: int| is_first_long_condition(cv, k);
            assert(string_fits(cv[k].0));
        }
    }
    Ok(())
}

/// Frame a payload: refuse it above the size limit, else prefix its length.
fn frame_payload(payload: Vec<u8>) -> (r: Result<Vec<u8>, ProtocolFault>)
    ensures
        bytes_result_view(r) == frame(payload@),
{
    if payload.len() > MAX_MESSAGE_SIZE {
        return Err(ProtocolFault::FrameTooLarge { len: payload.len(), max: MAX_MESSAGE_SIZE });
    }
    let len = payload.len() as u32;
    let mut framed = u32_to_le_bytes(len);
    let mut body = payload;
    framed.append(&mut body);
    Ok(framed)
}

/// Encode a request as a frame.
pub fn encode_request(req: &Request) -> (r: Result<Vec<u8>, ProtocolFault>)
    ensures
        bytes_result_view(r) == encode_request_result(req@),
{
    let mut payload: Vec<u8> = Vec::new();
    payload.push(PROTOCOL_VERSION);
    match req {
        Request::CreateInterlock {
            name,
            tier,
            watched_name,
            watched_word,
            interval_ns,
            conditions,
        } => {
            payload.push(TAG_CREATE_INTERLOCK);
            encode_string_into(&mut payload, name.as_str())?;
            payload.push(*tier);
            let ghost head = payload@;
            if *tier == 1 {
                // WaitCounter: watched_word is required; the name goes first.
                let ww = match watched_word {
                    Some(w) => *w,
                    None => {
                        return Err(ProtocolFault::Truncated { needed: 1, have: 0 });
                    },
                };
                match watched_name {
                    Some(wn) => {
                        encode_string_into(&mut payload, wn.as_str())?;
                    },
                    None => {},
                }
                payload.push(ww);
            } else if *tier == 3 {
                // WaitCron: interval_ns as u64 LE.
                match interval_ns {
                    Some(v) => {
                        let mut b = u64_to_le_bytes(*v);
                        payload.append(&mut b);
                    },
                    None => {},
                }
            } else if *tier == 4 {
                // WaitBarrier: u16 count, then each condition.
                match conditions {
                    Some(conds) => {
                        encode_conditions_into(&mut payload, conds)?;
                    },
                    None => {},
                }
            }
            proof {
                let m = req@;
                assert(payload@ =~= request_payload(m));
            }
        },
        Request::AttachInterlock { name } => {
            payload.push(TAG_ATTACH_INTERLOCK);
            encode_string_into(&mut payload, name.as_str())?;
            assert(payload@ =~= request_payload(req@));
        },
    }
    frame_payload(payload)
}

/// Encode a response as a frame.
pub fn encode_response(resp: &Response) -> (r: Result<Vec<u8>, ProtocolFault>)
    ensures
        bytes_result_view(r) == encode_response_result(resp@),
{
    let mut payload: Vec<u8> = Vec::new();
    payload.push(PROTOCOL_VERSION);
    match resp {
        Response::Created { id } => {
            payload.push(TAG_CREATED);
            let mut b = u64_to_le_bytes(*id);
            payload.append(&mut b);
        },
        Response::Attached { id } => {
            payload.push(TAG_ATTACHED);
            let mut b = u64_to_le_bytes(*id);
            payload.append(&mut b);
        },
        Response::Error { code, message } => {
            payload.push(TAG_ERROR);
            payload.push(*code);
            encode_string_into(&mut payload, message.as_str())?;
        },
    }
    assert(payload@ =~= response_payload(resp@));
    frame_payload(payload)
}


// -- Decoding --

/// Decode a wire string at the start of `data`.
pub fn decode_string(data: &[u8]) -> (r: Result<String, ProtocolFault>)
    ensures
        r matches Ok(s) ==> decode_string_result(data@) == Ok::<Seq<char>, ProtocolFault>(s@)
            && utf8_len(s@) == string_len_field(data@),
        r matches Err(f) ==> decode_string_result(data@) == Err::<Seq<char>, ProtocolFault>(f),
{
    if data.len() < 2 {
        return Err(ProtocolFault::Truncated { needed: 2, have: data.len() });
    }
    let len = u16_from_le_bytes(slice_subrange(data, 0, 2)) as usize;
    if data.len() < 2 + len {
        return Err(ProtocolFault::Truncated { needed: 2 + len, have: data.len() });
    }
    let bytes = slice_to_vec(slice_subrange(data, 2, 2 + len));
    match string_from_utf8(bytes) {
        Some(s) => {
            proof {
                decode_utf8_encode_utf8(data@.subrange(2, 2 + len as int));
            }
            Ok(s)
        },
        None => Err(ProtocolFault::InvalidUtf8),
    }
}

pub open spec fn conditions_result_prepend(
    acc: Seq<ConditionModel>,
    r: Result<Seq<ConditionModel>, ProtocolFault>,
) -> Result<Seq<ConditionModel>, ProtocolFault> {
    match r {
        Ok(tail) => Ok(acc + tail),
        Err(f) => Err(f),
    }
}

/// `a + b` as a truncation fault reports it.
fn fault_offset(a: usize, b: usize) -> (r: usize)
    ensures
        r == fault_len(a + b),
{
    a.saturating_add(b)
}

/// Decode `count` barrier conditions from `rest`, the first at offset `start`.
fn decode_conditions(rest: &[u8], start: usize, count: usize) -> (r: Result<
    Vec<(String, u8, u64)>,
    ProtocolFault,
>)
    requires
        start <= rest@.len(),
    ensures
        r matches Ok(cs) ==> decode_conditions_result(rest@, start as int, count as nat) == Ok::<
            Seq<ConditionModel>,
            ProtocolFault,
        >(conditions_view(cs@)),
        r matches Err(f) ==> decode_conditions_result(rest@, start as int, count as nat) == Err::<
            Seq<ConditionModel>,
            ProtocolFault,
        >(f),
{
    let mut conds: Vec<(String, u8, u64)> = Vec::with_capacity(count);
    let mut pos = start;
    let mut i: usize = 0;
    while i < count
        invariant
            i <= count,
            pos <= rest@.len(),
            decode_conditions_result(rest@, start as int, count as nat)
                == conditions_result_prepend(
                conditions_view(conds@),
                decode_conditions_result(rest@, pos as int, (count - i) as nat),
            ),
        decreases count - i,
    {
        let ghost acc = conditions_view(conds@);
        let ghost here = decode_conditions_result(rest@, pos as int, (count - i) as nat);
        let wn = match decode_string(slice_subrange(rest, pos, rest.len())) {
            Ok(s) => s,
            Err(f) => {
                return Err(f);
            },
        };
        let wlen = wn.as_str().len();
        pos = pos + 2 + wlen;
        if pos >= rest.len() {
            return Err(ProtocolFault::Truncated { needed: fault_offset(pos, 1), have: rest.len() });
        }
        let ww = rest[pos];
        pos = pos + 1;
        if rest.len() - pos < 8 {
            return Err(ProtocolFault::Truncated { needed: fault_offset(pos, 8), have: rest.len() });
        }
        let threshold = u64_from_le_bytes(slice_subrange(rest, pos, pos + 8));
        pos = pos + 8;
        let ghost item = (wn@, ww, threshold);
        conds.push((wn, ww, threshold));
        proof {
            assert(conditions_view(conds@) =~= acc.push(item));
            assert(acc.push(item) + Seq::empty() =~= acc.push(item));
            match decode_conditions_result(rest@, pos as int, (count - i - 1) as nat) {
                Ok(tail) => {
                    assert(acc + (seq![item] + tail) =~= acc.push(item) + tail);
                },
                Err(f) => {},
            }
        }
        i = i + 1;
    }
    proof {
        assert(conditions_view(conds@) + Seq::<ConditionModel>::empty() =~= conditions_view(
            conds@,
        ));
    }
    Ok(conds)
}

/// Decode a request payload (the frame without its length prefix). Every
/// byte slice is decoded or refused with a fault; none makes it panic.
pub fn decode_request(data: &[u8]) -> (r: Result<Request, ProtocolFault>)
    ensures
        request_result_view(r) == decode_request_result(data@),
{
    if data.len() < 2 {
        return Err(ProtocolFault::Truncated { needed: 2, have: data.len() });
    }
    let version = data[0];
    if version != PROTOCOL_VERSION {
        return Err(ProtocolFault::UnsupportedVersion { version });
    }
    let tag = data[1];
    let rest = slice_subrange(data, 2, data.len());
    if tag == TAG_CREATE_INTERLOCK {
        let name = decode_string(rest)?;
        let mut pos = 2 + name.as_str().len();
        if pos >= rest.len() {
            return Err(ProtocolFault::Truncated { needed: fault_offset(data.len(), 1), have: data.len() });
        }
        let tier = rest[pos];
        pos = pos + 1;
        let mut watched_name: Option<String> = None;
        let mut watched_word: Option<u8> = None;
        let mut interval_ns: Option<u64> = None;
        let mut conditions: Option<Vec<(String, u8, u64)>> = None;
        if tier == 1 {
            // WaitCounter: watched_name and watched_word.
            let wn = decode_string(slice_subrange(rest, pos, rest.len()))?;
            pos = pos + 2 + wn.as_str().len();
            if pos >= rest.len() {
                return Err(ProtocolFault::Truncated { needed: fault_offset(data.len(), 1), have: data.len() });
            }
            let ww = rest[pos];
            watched_name = Some(wn);
            watched_word = Some(ww);
        } else if tier == 3 {
            // WaitCron: interval_ns (u64 LE).
            if rest.len() - pos < 8 {
                return Err(ProtocolFault::Truncated { needed: fault_offset(pos, 10), have: rest.len() });
            }
            interval_ns = Some(u64_from_le_bytes(slice_subrange(rest, pos, pos + 8)));
        } else if tier == 4 {
            // WaitBarrier: condition_count (u16), then each condition.
            if rest.len() - pos < 2 {
                return Err(ProtocolFault::Truncated { needed: fault_offset(pos, 2), have: rest.len() });
            }
            let count = u16_from_le_bytes(slice_subrange(rest, pos, pos + 2)) as usize;
            pos = pos + 2;
            let conds = decode_conditions(rest, pos, count)?;
            conditions = Some(conds);
        }
        let req = Request::CreateInterlock {
            name,
            tier,
            watched_name,
            watched_word,
            interval_ns,
            conditions,
        };
        Ok(req)
    } else if tag == TAG_ATTACH_INTERLOCK {
        let name = decode_string(rest)?;
        Ok(Request::AttachInterlock { name })
    } else {
        Err(ProtocolFault::UnknownTag { tag })
    }
}

/// Decode a response payload (the frame without its length prefix). Every
/// byte slice is decoded or refused with a fault; none makes it panic.
pub fn decode_response(data: &[u8]) -> (r: Result<Response, ProtocolFault>)
    ensures
        response_result_view(r) == decode_response_result(data@),
{
    if data.len() < 2 {
        return Err(ProtocolFault::Truncated { needed: 2, have: data.len() });
    }
    let version = data[0];
    if version != PROTOCOL_VERSION {
        return Err(ProtocolFault::UnsupportedVersion { version });
    }
    let tag = data[1];
    let rest = slice_subrange(data, 2, data.len());
    if tag == TAG_CREATED {
        if rest.len() < 8 {
            return Err(ProtocolFault::Truncated { needed: 10, have: data.len() });
        }
        let id = u64_from_le_bytes(slice_subrange(rest, 0, 8));
        Ok(Response::Created { id })
    } else if tag == TAG_ATTACHED {
        if rest.len() < 8 {
            return Err(ProtocolFault::Truncated { needed: 10, have: data.len() });
        }
        let id = u64_from_le_bytes(slice_subrange(rest, 0, 8));
        Ok(Response::Attached { id })
    } else if tag == TAG_ERROR {
        if rest.is_empty() {
            return Err(ProtocolFault::Truncated { needed: 3, have: data.len() });
        }
        let code = rest[0];
        let message = if rest.len() > 1 {
            decode_string(slice_subrange(rest, 1, rest.len()))?
        } else {
            String::new()
        };
        Ok(Response::Error { code, message })
    } else {
        Err(ProtocolFault::UnknownTag { tag })
    }
}

} // verus!
