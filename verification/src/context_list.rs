//! The list of negotiate contexts: records laid out one after another, each
//! but the last followed by the zero bytes that bring the next record to a
//! multiple of eight.
//!
//! The padding is between none and seven bytes: a record that ends on a
//! multiple of eight is followed by none. The last record is followed by
//! nothing in any case.
//!
//! The encoder counts the bytes from the start of the list, the decoder from
//! the start of the buffer. The two agree where the list starts at a
//! multiple of eight, as it does in a response.

use crate::byte_helper::{lemma_u16_round_trip, push_zeros, read_u16, u16_at, u16_le, zeros};
use crate::context::{
    lemma_context_round_trip, lemma_encoded_len, parse_context, parse_payload, ContextModel,
    NegotiateContext, CONTEXT_COMPRESSION, CONTEXT_ENCRYPTION, CONTEXT_NETNAME,
    CONTEXT_PREAUTH_INTEGRITY, CONTEXT_RDMA_TRANSFORM, CONTEXT_SIGNING, CONTEXT_TRANSPORT,
};
use crate::error::NegotiateError;
use vstd::prelude::*;
use vstd::slice::slice_subrange;

verus! {

/// The number of zero bytes behind a record that ends at `end` and is not the
/// last of its list: as many as bring the next record to a multiple of eight,
/// so none where `end` is one.
pub open spec fn padding_after(end: int) -> int {
    (8 - end % 8) % 8
}

/// The values of a list of contexts.
pub open spec fn views(contexts: Seq<NegotiateContext>) -> Seq<ContextModel> {
    Seq::new(contexts.len(), |i: int| contexts[i]@)
}

/// Whether every context of a list can be encoded.
pub open spec fn all_wf(contexts: Seq<ContextModel>) -> bool {
    forall|i: int| 0 <= i < contexts.len() ==> (#[trigger] contexts[i]).wf()
}

/// A record as it may stand on the wire: one that this library knows, or one
/// of a type that it does not know, of which it keeps nothing.
pub ghost enum RecordModel {
    Known(ContextModel),
    Unknown { code: u16, payload: Seq<u8> },
}

/// Whether a type code names a context that this library knows.
pub open spec fn is_known_type(code: u16) -> bool {
    ||| code == CONTEXT_PREAUTH_INTEGRITY
    ||| code == CONTEXT_ENCRYPTION
    ||| code == CONTEXT_COMPRESSION
    ||| code == CONTEXT_NETNAME
    ||| code == CONTEXT_TRANSPORT
    ||| code == CONTEXT_RDMA_TRANSFORM
    ||| code == CONTEXT_SIGNING
}

impl RecordModel {
    /// A record can be encoded when its payload length fits the length
    /// field; an unknown record has a type code that names no known context.
    pub open spec fn wf(self) -> bool {
        match self {
            RecordModel::Known(c) => c.wf(),
            RecordModel::Unknown { code, payload } => !is_known_type(code) && payload.len()
                <= 0xffff,
        }
    }

    /// The bytes of the record.
    pub open spec fn encode(self) -> Seq<u8> {
        match self {
            RecordModel::Known(c) => c.encode(),
            RecordModel::Unknown { code, payload } => u16_le(code as int) + u16_le(
                payload.len() as int,
            ) + zeros(4) + payload,
        }
    }
}

/// The records that stand for a list of known contexts.
pub open spec fn known_records(contexts: Seq<ContextModel>) -> Seq<RecordModel> {
    Seq::new(contexts.len(), |i: int| RecordModel::Known(contexts[i]))
}

/// The known contexts among the records from index `from` on, in order.
pub open spec fn known_contexts_from(records: Seq<RecordModel>, from: int) -> Seq<ContextModel>
    decreases records.len() - from,
{
    if from < 0 || from >= records.len() {
        Seq::empty()
    } else {
        match records[from] {
            RecordModel::Known(c) => seq![c] + known_contexts_from(records, from + 1),
            RecordModel::Unknown { .. } => known_contexts_from(records, from + 1),
        }
    }
}

/// The bytes of the records from index `from` on: each record but the last
/// is followed by its padding.
pub open spec fn encode_records_from(records: Seq<RecordModel>, from: int) -> Seq<u8>
    decreases records.len() - from,
{
    if from < 0 || from >= records.len() {
        Seq::empty()
    } else if from == records.len() - 1 {
        records[from].encode()
    } else {
        records[from].encode() + zeros(padding_after(records[from].encode().len() as int))
            + encode_records_from(records, from + 1)
    }
}

/// The bytes of a list of contexts.
pub open spec fn encode_list(contexts: Seq<ContextModel>) -> Seq<u8> {
    encode_records_from(known_records(contexts), 0)
}

/// Decodes `count` records that start at position `pos` of `bytes`, and says
/// where the last one ends. A record of an unknown type is passed over: its
/// length field still says where the next record starts. A record that does
/// not lie within `bytes`, or a payload that ends before one of its fields,
/// fails the whole list.
pub open spec fn parse_list(bytes: Seq<u8>, pos: int, count: nat) -> Result<
    (Seq<ContextModel>, int),
    NegotiateError,
>
    decreases count,
{
    if count == 0 {
        Ok((Seq::empty(), pos))
    } else if pos < 0 || pos + 8 > bytes.len() {
        Err(NegotiateError::TruncatedBuffer)
    } else if pos + 8 + u16_at(bytes, pos + 2) > bytes.len() {
        Err(NegotiateError::TruncatedBuffer)
    } else {
        let end = pos + 8 + u16_at(bytes, pos + 2);
        let next = if count == 1 {
            end
        } else {
            end + padding_after(end)
        };
        match parse_context(bytes.skip(pos)) {
            Err(NegotiateError::TruncatedBuffer) => Err(NegotiateError::TruncatedBuffer),
            Err(_) => parse_list(bytes, next, (count - 1) as nat),
            Ok(c) => match parse_list(bytes, next, (count - 1) as nat) {
                Ok((rest, end_of_list)) => Ok((seq![c] + rest, end_of_list)),
                Err(e) => Err(e),
            },
        }
    }
}

/// The result of a list parse with the contexts `done` put in front.
pub open spec fn prepend(
    done: Seq<ContextModel>,
    rest: Result<(Seq<ContextModel>, int), NegotiateError>,
) -> Result<(Seq<ContextModel>, int), NegotiateError> {
    match rest {
        Ok((contexts, end)) => Ok((done + contexts, end)),
        Err(e) => Err(e),
    }
}

/// Appends the encoding of a list of contexts to `out`. The padding behind a
/// record is computed from the length of the record.
pub fn write_list(contexts: &Vec<NegotiateContext>, out: &mut Vec<u8>)
    requires
        all_wf(views(contexts@)),
    ensures
        final(out)@ == old(out)@ + encode_list(views(contexts@)),
{
    let ghost records = known_records(views(contexts@));
    let n = contexts.len();
    let mut i: usize = 0;
    while i < n
        invariant
            i <= n,
            n == contexts@.len(),
            records == known_records(views(contexts@)),
            all_wf(views(contexts@)),
            old(out)@ + encode_records_from(records, 0) == out@ + encode_records_from(
                records,
                i as int,
            ),
        decreases n - i,
    {
        let ghost before = out@;
        let c = &contexts[i];
        assert(views(contexts@)[i as int].wf());
        assert(records[i as int] == RecordModel::Known(c@));
        let len = c.payload_len();
        c.write_to(out);
        if i != n - 1 {
            let total = 8 + len as usize;
            push_zeros(out, (8 - total % 8) % 8);
        }
        assert(before + encode_records_from(records, i as int) =~= out@ + encode_records_from(
            records,
            i + 1,
        ));
        i += 1;
    }
    assert(out@ =~= old(out)@ + encode_list(views(contexts@)));
}

/// Decodes `count` records that start at `start`, and says where the last one
/// ends. The list ends with the record that completes the count, wherever
/// the buffer ends.
pub fn read_list(bytes: &[u8], start: usize, count: u16) -> (r: Result<
    (Vec<NegotiateContext>, usize),
    NegotiateError,
>)
    ensures
        match r {
            Ok((contexts, end)) => parse_list(bytes@, start as int, count as nat) == Ok::<
                (Seq<ContextModel>, int),
                NegotiateError,
            >((views(contexts@), end as int)),
            Err(e) => parse_list(bytes@, start as int, count as nat) == Err::<
                (Seq<ContextModel>, int),
                NegotiateError,
            >(e),
        },
        r matches Ok((contexts, end)) ==> contexts@.len() <= count && (count > 0 ==> end
            <= bytes@.len()),
{
    let total = bytes.len();
    let mut contexts: Vec<NegotiateContext> = Vec::new();
    let mut pos: usize = start;
    let mut remaining: u16 = count;
    assert(views(contexts@) =~= Seq::<ContextModel>::empty());
    assert(parse_list(bytes@, start as int, count as nat) == prepend(
        views(contexts@),
        parse_list(bytes@, pos as int, remaining as nat),
    )) by {
        let r = parse_list(bytes@, pos as int, remaining as nat);
        if r is Ok {
            assert(views(contexts@) + r->Ok_0.0 =~= r->Ok_0.0);
        }
    }
    while remaining > 0
        invariant
            total == bytes@.len(),
            remaining <= count,
            contexts@.len() <= count - remaining,
            parse_list(bytes@, start as int, count as nat) == prepend(
                views(contexts@),
                parse_list(bytes@, pos as int, remaining as nat),
            ),
            remaining == 0 && count > 0 ==> pos <= total,
        decreases remaining,
    {
        if pos > total || total - pos < 8 {
            return Err(NegotiateError::TruncatedBuffer);
        }
        let len = read_u16(bytes, pos + 2) as usize;
        if total - pos - 8 < len {
            return Err(NegotiateError::TruncatedBuffer);
        }
        let end = pos + 8 + len;
        let ghost done = views(contexts@);
        let ghost tail = parse_list(
            bytes@,
            if remaining == 1 {
                end as int
            } else {
                end + padding_after(end as int)
            },
            (remaining - 1) as nat,
        );
        let record = slice_subrange(bytes, pos, total);
        assert(record@ == bytes@.skip(pos as int));
        match NegotiateContext::from_bytes(record) {
            Ok(c) => {
                contexts.push(c);
                assert(views(contexts@) =~= done + seq![c@]);
                assert(prepend(done, parse_list(bytes@, pos as int, remaining as nat)) == prepend(
                    views(contexts@),
                    tail,
                )) by {
                    if tail is Ok {
                        assert(done + (seq![c@] + tail->Ok_0.0) =~= (done + seq![c@])
                            + tail->Ok_0.0);
                    }
                }
            },
            Err(NegotiateError::TruncatedBuffer) => {
                return Err(NegotiateError::TruncatedBuffer);
            },
            Err(_) => {},
        }
        if remaining == 1 {
            pos = end;
        } else {
            let pad = (8 - end % 8) % 8;
            if total - end < pad {
                assert(tail is Err && tail->Err_0 == NegotiateError::TruncatedBuffer);
                return Err(NegotiateError::TruncatedBuffer);
            }
            pos = end + pad;
        }
        remaining -= 1;
    }
    assert(views(contexts@) + Seq::<ContextModel>::empty() =~= views(contexts@));
    Ok((contexts, pos))
}

/// A single record, known or not, reads back as what it is: a known one as
/// its context, an unknown one as an unrecognized type.
pub proof fn lemma_record_round_trip(record: RecordModel, rest: Seq<u8>)
    requires
        record.wf(),
    ensures
        record.encode().len() >= 8,
        u16_at(record.encode() + rest, 2) == record.encode().len() - 8,
        match record {
            RecordModel::Known(c) => parse_context(record.encode() + rest) == Ok::<
                ContextModel,
                NegotiateError,
            >(c),
            RecordModel::Unknown { .. } => parse_context(record.encode() + rest) == Err::<
                ContextModel,
                NegotiateError,
            >(NegotiateError::UnrecognizedContextType),
        },
{
    match record {
        RecordModel::Known(c) => {
            lemma_encoded_len(c);
            lemma_context_round_trip(c, rest);
        },
        RecordModel::Unknown { code, payload } => {
            reveal(parse_payload);
            let bytes = record.encode() + rest;
            lemma_u16_round_trip(code as int);
            lemma_u16_round_trip(payload.len() as int);
            assert(bytes[0] == u16_le(code as int)[0]);
            assert(bytes[1] == u16_le(code as int)[1]);
            assert(bytes[2] == u16_le(payload.len() as int)[0]);
            assert(bytes[3] == u16_le(payload.len() as int)[1]);
            assert(u16_at(bytes, 0) == code);
            assert(u16_at(bytes, 2) == payload.len());
        },
    }
}

/// Reading behind a skipped prefix is reading at the sum of the positions.
proof fn lemma_u16_at_skip(bytes: Seq<u8>, pos: int, at: int)
    requires
        0 <= pos,
        0 <= at,
        pos + at + 2 <= bytes.len(),
    ensures
        u16_at(bytes.skip(pos), at) == u16_at(bytes, pos + at),
{
}

/// The padding behind a section is less than eight bytes and brings what
/// follows to a multiple of eight.
pub proof fn lemma_padding_aligns(end: int)
    requires
        0 <= end,
    ensures
        0 <= padding_after(end) < 8,
        (end + padding_after(end)) % 8 == 0,
        end % 8 == 0 ==> padding_after(end) == 0,
{
}

/// A record with its padding, behind a multiple of eight bytes, ends on a
/// multiple of eight.
proof fn lemma_padded_is_aligned(before: int, len: int)
    requires
        0 <= before,
        0 <= len,
        before % 8 == 0,
    ensures
        (before + len + padding_after(len)) % 8 == 0,
        0 <= padding_after(len) < 8,
        padding_after(before + len) == padding_after(len),
{
}

/// The step of the round trip: a record that reads back as `parsed`, then
/// its padding, then a tail that reads back as `tail_contexts`.
proof fn lemma_round_trip_step(
    before: Seq<u8>,
    e: Seq<u8>,
    pad: Seq<u8>,
    tail: Seq<u8>,
    after: Seq<u8>,
    count: nat,
    parsed: Result<ContextModel, NegotiateError>,
    tail_contexts: Seq<ContextModel>,
)
    requires
        before.len() % 8 == 0,
        e.len() >= 8,
        count >= 1,
        count == 1 ==> pad.len() == 0,
        count > 1 ==> pad.len() == padding_after(e.len() as int),
        u16_at(e + (pad + tail + after), 2) == e.len() - 8,
        parse_context(e + (pad + tail + after)) == parsed,
        parsed is Ok || parsed == Err::<ContextModel, NegotiateError>(
            NegotiateError::UnrecognizedContextType,
        ),
        parse_list(
            (before + e + pad) + tail + after,
            (before + e + pad).len() as int,
            (count - 1) as nat,
        ) == Ok::<(Seq<ContextModel>, int), NegotiateError>(
            (tail_contexts, ((before + e + pad).len() + tail.len()) as int),
        ),
    ensures
        parse_list(before + (e + pad + tail) + after, before.len() as int, count) == Ok::<
            (Seq<ContextModel>, int),
            NegotiateError,
        >(
            (
                match parsed {
                    Ok(c) => seq![c] + tail_contexts,
                    Err(_) => tail_contexts,
                },
                (before.len() + (e + pad + tail).len()) as int,
            ),
        ),
{
    let bytes = before + (e + pad + tail) + after;
    let pos = before.len() as int;
    lemma_cut(before, e, pad, tail, after);
    lemma_u16_at_skip(bytes, pos, 2);
    lemma_padded_is_aligned(pos, e.len() as int);
    let end = pos + e.len();
    let next = if count == 1 {
        end
    } else {
        end + padding_after(end)
    };
    assert(next == (before + e + pad).len());
    assert(u16_at(bytes, pos + 2) == e.len() - 8);
}

/// How a buffer that holds a record, its padding and more behind some bytes
/// can be cut: behind those bytes, and behind the padding.
proof fn lemma_cut(before: Seq<u8>, e: Seq<u8>, pad: Seq<u8>, tail: Seq<u8>, after: Seq<u8>)
    ensures
        (before + (e + pad + tail) + after).skip(before.len() as int) == e + (pad + tail + after),
        before + (e + pad + tail) + after == (before + e + pad) + tail + after,
{
    let bytes = before + (e + pad + tail) + after;
    assert(bytes.skip(before.len() as int) =~= e + (pad + tail + after));
    assert(bytes =~= (before + e + pad) + tail + after);
}

/// Decoding what was encoded gives the known contexts back, in order, and
/// ends where the encoding ends. This holds for the records from any index
/// on, placed behind any bytes whose number is a multiple of eight and
/// before any other bytes; unknown records among them are passed over.
pub proof fn lemma_records_round_trip(
    before: Seq<u8>,
    records: Seq<RecordModel>,
    from: int,
    after: Seq<u8>,
)
    requires
        before.len() % 8 == 0,
        0 <= from <= records.len(),
        forall|i: int| 0 <= i < records.len() ==> (#[trigger] records[i]).wf(),
    ensures
        parse_list(
            before + encode_records_from(records, from) + after,
            before.len() as int,
            (records.len() - from) as nat,
        ) == Ok::<(Seq<ContextModel>, int), NegotiateError>(
            (
                known_contexts_from(records, from),
                (before.len() + encode_records_from(records, from).len()) as int,
            ),
        ),
    decreases records.len() - from,
{
    let body = encode_records_from(records, from);
    let count = (records.len() - from) as nat;
    if from < records.len() {
        let record = records[from];
        let e = record.encode();
        assert(record.wf());
        let last = from == records.len() - 1;
        let pad = if last {
            Seq::<u8>::empty()
        } else {
            zeros(padding_after(e.len() as int))
        };
        let tail = encode_records_from(records, from + 1);
        let tail_contexts = known_contexts_from(records, from + 1);
        assert(body == e + pad + tail) by {
            if last {
                assert(tail =~= Seq::<u8>::empty());
                assert(e =~= e + pad + tail);
            }
        }
        lemma_record_round_trip(record, pad + tail + after);
        let before2 = before + e + pad;
        if last {
            assert(tail_contexts =~= Seq::<ContextModel>::empty());
        } else {
            lemma_padded_is_aligned(before.len() as int, e.len() as int);
            assert(before2.len() == before.len() + e.len() + padding_after(e.len() as int));
            lemma_records_round_trip(before2, records, from + 1, after);
        }
        lemma_round_trip_step(
            before,
            e,
            pad,
            tail,
            after,
            count,
            parse_context(e + (pad + tail + after)),
            tail_contexts,
        );
    } else {
        assert(body =~= Seq::<u8>::empty());
        assert(before + body + after =~= before + after);
    }
}

/// Encoding a list of contexts and decoding it gives the list back: as many
/// contexts, of the same types and with the same payloads. The list may
/// start at any multiple of eight and may be followed by anything.
pub proof fn lemma_list_round_trip(before: Seq<u8>, contexts: Seq<ContextModel>, after: Seq<u8>)
    requires
        before.len() % 8 == 0,
        all_wf(contexts),
    ensures
        parse_list(
            before + encode_list(contexts) + after,
            before.len() as int,
            contexts.len(),
        ) == Ok::<(Seq<ContextModel>, int), NegotiateError>(
            (contexts, (before.len() + encode_list(contexts).len()) as int),
        ),
{
    let records = known_records(contexts);
    assert forall|i: int| 0 <= i < records.len() implies (#[trigger] records[i]).wf() by {
        assert(contexts[i].wf());
    }
    lemma_records_round_trip(before, records, 0, after);
    lemma_known_contexts_of_known_records(contexts, 0);
    assert(contexts.skip(0) =~= contexts);
}

/// The known contexts of records that are all known are the contexts.
proof fn lemma_known_contexts_of_known_records(contexts: Seq<ContextModel>, from: int)
    requires
        0 <= from <= contexts.len(),
    ensures
        known_contexts_from(known_records(contexts), from) == contexts.skip(from),
    decreases contexts.len() - from,
{
    if from < contexts.len() {
        lemma_known_contexts_of_known_records(contexts, from + 1);
        assert(contexts.skip(from) =~= seq![contexts[from]] + contexts.skip(from + 1));
    } else {
        assert(contexts.skip(from) =~= Seq::<ContextModel>::empty());
    }
}

/// Lists without padding: no context gives no byte, and a single context
/// gives its record alone.
pub proof fn lemma_short_lists_have_no_padding(contexts: Seq<ContextModel>)
    ensures
        contexts.len() == 0 ==> encode_list(contexts).len() == 0,
        contexts.len() == 1 ==> encode_list(contexts) == contexts[0].encode(),
{
    if contexts.len() == 1 {
        assert(known_records(contexts)[0] == RecordModel::Known(contexts[0]));
    }
}

} // verus!
