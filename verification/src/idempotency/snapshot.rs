//! The storable form of a response and the codec between the two.
//!
//! A snapshot holds the status as a small signed integer, the headers as one
//! blob and the body as another. In the header blob every header is written
//! as its name and then its value, each preceded by its length as four bytes,
//! most significant first.

use crate::http::copy_bytes;
use crate::http::header_views;
use crate::http::is_status_code;
use crate::http::HeaderPair;
use crate::http::HeaderView;
use crate::http::HttpResponse;
use crate::http::HttpResponseView;
use vstd::prelude::*;

verus! {

/// Why a response cannot be stored, or a stored record not be read back.
#[derive(Clone, Copy, Debug, PartialEq, Eq, Structural)]
pub enum CodecError {
    /// The status is not a three-digit HTTP status code.
    InvalidStatus,
    /// A header name or value is longer than four length bytes can say.
    OversizedHeader,
    /// The header blob is not a sequence of length-prefixed names and values.
    MalformedHeaders,
}

/// A response as the ledger stores it.
#[derive(Clone, Debug, PartialEq, Eq)]
pub struct ResponseSnapshot {
    pub status_code: i16,
    pub headers: Vec<u8>,
    pub body: Vec<u8>,
}

/// The mathematical content of a `ResponseSnapshot`.
pub struct SnapshotView {
    pub status_code: i16,
    pub headers: Seq<u8>,
    pub body: Seq<u8>,
}

impl View for ResponseSnapshot {
    type V = SnapshotView;

    open spec fn view(&self) -> SnapshotView {
        SnapshotView { status_code: self.status_code, headers: self.headers@, body: self.body@ }
    }
}

/// The largest length that a length prefix can express.
pub const MAX_FIELD_BYTES: usize = 4294967295;

/// The four bytes that stand for `n`, most significant first.
pub open spec fn be32(n: nat) -> Seq<u8> {
    seq![
        ((n / 16777216) % 256) as u8,
        ((n / 65536) % 256) as u8,
        ((n / 256) % 256) as u8,
        (n % 256) as u8,
    ]
}

/// The number that four bytes stand for, most significant first.
pub open spec fn from_be32(b0: u8, b1: u8, b2: u8, b3: u8) -> nat {
    (b0 as nat) * 16777216 + (b1 as nat) * 65536 + (b2 as nat) * 256 + (b3 as nat)
}

/// A byte string preceded by its length.
pub open spec fn field(bytes: Seq<u8>) -> Seq<u8> {
    be32(bytes.len()) + bytes
}

/// One header in the blob: the name, then the value.
pub open spec fn entry(header: HeaderView) -> Seq<u8> {
    field(header.name) + field(header.value)
}

/// The header blob of a list of headers: their entries in order.
pub open spec fn serialize_headers(headers: Seq<HeaderView>) -> Seq<u8>
    decreases headers.len(),
{
    if headers.len() == 0 {
        Seq::<u8>::empty()
    } else {
        entry(headers[0]) + serialize_headers(headers.drop_first())
    }
}

/// Whether every name and value is short enough for its length prefix.
pub open spec fn headers_fit(headers: Seq<HeaderView>) -> bool {
    forall|i: int|
        0 <= i < headers.len() ==> (#[trigger] headers[i]).name.len() <= MAX_FIELD_BYTES
            && headers[i].value.len() <= MAX_FIELD_BYTES
}

/// Splits a length-prefixed byte string off the front of `bytes`, if there is one.
pub open spec fn parse_field(bytes: Seq<u8>) -> Option<(Seq<u8>, Seq<u8>)> {
    if bytes.len() < 4 {
        None
    } else {
        let n = from_be32(bytes[0], bytes[1], bytes[2], bytes[3]);
        if bytes.len() - 4 < n {
            None
        } else {
            Some(
                (bytes.subrange(4, 4 + n as int), bytes.subrange(4 + n as int, bytes.len() as int)),
            )
        }
    }
}

/// The list of headers that a blob holds, if it is well formed.
pub open spec fn parse_headers(bytes: Seq<u8>) -> Option<Seq<HeaderView>>
    decreases bytes.len(),
{
    if bytes.len() == 0 {
        Some(Seq::<HeaderView>::empty())
    } else {
        match parse_field(bytes) {
            None => None,
            Some((name, after_name)) => match parse_field(after_name) {
                None => None,
                Some((value, rest)) => match parse_headers(rest) {
                    None => None,
                    Some(tail) => Some(seq![HeaderView { name, value }] + tail),
                },
            },
        }
    }
}

/// A response can be stored when its status is an HTTP status code and its
/// headers fit their length prefixes.
pub open spec fn encodable(response: HttpResponseView) -> bool {
    is_status_code(response.status as int) && headers_fit(response.headers)
}

/// The snapshot of a response.
pub open spec fn encode_spec(response: HttpResponseView) -> SnapshotView {
    SnapshotView {
        status_code: response.status as i16,
        headers: serialize_headers(response.headers),
        body: response.body,
    }
}

/// The response that a snapshot stands for, or why it stands for none.
pub open spec fn decode_spec(snapshot: SnapshotView) -> Result<HttpResponseView, CodecError> {
    if !is_status_code(snapshot.status_code as int) {
        Err(CodecError::InvalidStatus)
    } else {
        match parse_headers(snapshot.headers) {
            None => Err(CodecError::MalformedHeaders),
            Some(headers) => Ok(
                HttpResponseView {
                    status: snapshot.status_code as u16,
                    headers,
                    body: snapshot.body,
                },
            ),
        }
    }
}

/// The four length bytes determine the length.
pub proof fn lemma_be32_inverts(n: nat)
    requires
        n <= MAX_FIELD_BYTES,
    ensures
        be32(n).len() == 4,
        from_be32(be32(n)[0], be32(n)[1], be32(n)[2], be32(n)[3]) == n,
{
}

/// The length that four bytes stand for is written as those four bytes.
pub proof fn lemma_from_be32_inverts(b0: u8, b1: u8, b2: u8, b3: u8)
    ensures
        from_be32(b0, b1, b2, b3) <= MAX_FIELD_BYTES,
        be32(from_be32(b0, b1, b2, b3)) == seq![b0, b1, b2, b3],
{
    let n = from_be32(b0, b1, b2, b3);
    let low = (b1 as nat) * 65536 + (b2 as nat) * 256 + (b3 as nat);
    assert(n == (b0 as nat) * 16777216 + low);
    assert(low < 16777216);
    assert(n / 16777216 == b0 as nat);
    assert(n / 65536 == (b0 as nat) * 256 + (b1 as nat));
    assert(n / 256 == (b0 as nat) * 65536 + (b1 as nat) * 256 + (b2 as nat));
    assert((n / 16777216) % 256 == b0 as nat);
    assert((n / 65536) % 256 == b1 as nat);
    assert((n / 256) % 256 == b2 as nat);
    assert(n % 256 == b3 as nat);
    assert(be32(n) =~= seq![b0, b1, b2, b3]);
}

/// A field at the front of a byte string is split off unchanged.
pub proof fn lemma_parse_field_of_field(bytes: Seq<u8>, rest: Seq<u8>)
    requires
        bytes.len() <= MAX_FIELD_BYTES,
    ensures
        parse_field(field(bytes) + rest) == Some((bytes, rest)),
{
    lemma_be32_inverts(bytes.len());
    let whole = field(bytes) + rest;
    let n = bytes.len();
    assert(whole[0] == be32(n)[0]);
    assert(whole[1] == be32(n)[1]);
    assert(whole[2] == be32(n)[2]);
    assert(whole[3] == be32(n)[3]);
    assert(whole.subrange(4, 4 + n as int) =~= bytes);
    assert(whole.subrange(4 + n as int, whole.len() as int) =~= rest);
}

/// A field split off the front of a byte string, put back, gives the string.
pub proof fn lemma_field_of_parse_field(bytes: Seq<u8>)
    requires
        parse_field(bytes) is Some,
    ensures
        ({
            let (head, rest) = parse_field(bytes).unwrap();
            &&& head.len() <= MAX_FIELD_BYTES
            &&& bytes == field(head) + rest
            &&& rest.len() + 4 <= bytes.len()
        }),
{
    let n = from_be32(bytes[0], bytes[1], bytes[2], bytes[3]);
    let (head, rest) = parse_field(bytes).unwrap();
    assert(head.len() == n);
    lemma_from_be32_inverts(bytes[0], bytes[1], bytes[2], bytes[3]);
    assert(be32(n) =~= bytes.subrange(0, 4));
    assert(bytes =~= field(head) + rest);
}

/// The blob of two lists, one after the other, is the two blobs, one after the other.
pub proof fn lemma_serialize_concat(front: Seq<HeaderView>, back: Seq<HeaderView>)
    ensures
        serialize_headers(front + back) == serialize_headers(front) + serialize_headers(back),
    decreases front.len(),
{
    if front.len() == 0 {
        assert(front + back =~= back);
        assert(serialize_headers(front) + serialize_headers(back) =~= serialize_headers(back));
    } else {
        lemma_serialize_concat(front.drop_first(), back);
        assert((front + back).drop_first() =~= front.drop_first() + back);
        assert((front + back)[0] == front[0]);
        assert(serialize_headers(front + back) =~= serialize_headers(front) + serialize_headers(
            back,
        ));
    }
}

/// Reading back the blob of a list of headers gives that list: nothing is
/// dropped, merged or reordered.
pub proof fn lemma_parse_serialized_headers(headers: Seq<HeaderView>)
    requires
        headers_fit(headers),
    ensures
        parse_headers(serialize_headers(headers)) == Some(headers),
    decreases headers.len(),
{
    if headers.len() == 0 {
    } else {
        let first = headers[0];
        let tail = headers.drop_first();
        assert(headers_fit(tail)) by {
            assert forall|i: int| 0 <= i < tail.len() implies (#[trigger] tail[i]).name.len()
                <= MAX_FIELD_BYTES && tail[i].value.len() <= MAX_FIELD_BYTES by {
                assert(tail[i] == headers[i + 1]);
            }
        }
        lemma_parse_serialized_headers(tail);
        let blob = serialize_headers(headers);
        let after_name = field(first.value) + serialize_headers(tail);
        assert(blob =~= field(first.name) + after_name);
        lemma_parse_field_of_field(first.name, after_name);
        lemma_parse_field_of_field(first.value, serialize_headers(tail));
        lemma_be32_inverts(first.name.len());
        assert(blob.len() > 0);
        assert(seq![first] + tail =~= headers);
    }
}

/// A blob that reads back as a list of headers is the blob of that list.
pub proof fn lemma_serialize_parsed_headers(bytes: Seq<u8>)
    requires
        parse_headers(bytes) is Some,
    ensures
        headers_fit(parse_headers(bytes).unwrap()),
        serialize_headers(parse_headers(bytes).unwrap()) == bytes,
    decreases bytes.len(),
{
    if bytes.len() == 0 {
        assert(serialize_headers(Seq::<HeaderView>::empty()) =~= bytes);
    } else {
        let (name, after_name) = parse_field(bytes).unwrap();
        let (value, rest) = parse_field(after_name).unwrap();
        lemma_field_of_parse_field(bytes);
        lemma_field_of_parse_field(after_name);
        lemma_serialize_parsed_headers(rest);
        let tail = parse_headers(rest).unwrap();
        let first = HeaderView { name, value };
        let headers = seq![first] + tail;
        assert(headers.drop_first() =~= tail);
        assert(headers[0] == first);
        assert(serialize_headers(headers) =~= bytes);
        assert forall|i: int| 0 <= i < headers.len() implies (#[trigger] headers[i]).name.len()
            <= MAX_FIELD_BYTES && headers[i].value.len() <= MAX_FIELD_BYTES by {
            if i > 0 {
                assert(headers[i] == tail[i - 1]);
            }
        }
    }
}

/// Decoding the snapshot of a response gives the response back: the same
/// status, the same headers in the same order, the same body.
pub proof fn lemma_decode_inverts_encode(response: HttpResponseView)
    requires
        encodable(response),
    ensures
        decode_spec(encode_spec(response)) == Ok::<HttpResponseView, CodecError>(response),
{
    lemma_parse_serialized_headers(response.headers);
    let snapshot = encode_spec(response);
    assert(snapshot.status_code as int == response.status as int);
    assert(snapshot.status_code as u16 == response.status);
}

/// A snapshot that decodes to a response is the snapshot of that response.
pub proof fn lemma_encode_inverts_decode(snapshot: SnapshotView)
    requires
        decode_spec(snapshot) is Ok,
    ensures
        encodable(decode_spec(snapshot).unwrap()),
        encode_spec(decode_spec(snapshot).unwrap()) == snapshot,
{
    lemma_serialize_parsed_headers(snapshot.headers);
    let response = decode_spec(snapshot).unwrap();
    assert(response.status as i16 == snapshot.status_code);
}

fn push_be32(out: &mut Vec<u8>, n: usize)
    requires
        n <= MAX_FIELD_BYTES,
    ensures
        final(out)@ == old(out)@ + be32(n as nat),
{
    out.push(((n / 16777216) % 256) as u8);
    out.push(((n / 65536) % 256) as u8);
    out.push(((n / 256) % 256) as u8);
    out.push((n % 256) as u8);
    assert(out@ =~= old(out)@ + be32(n as nat));
}

fn push_field(out: &mut Vec<u8>, bytes: &Vec<u8>)
    requires
        bytes.len() <= MAX_FIELD_BYTES,
    ensures
        final(out)@ == old(out)@ + field(bytes@),
{
    push_be32(out, bytes.len());
    let ghost prefixed = out@;
    let mut i: usize = 0;
    while i < bytes.len()
        invariant
            i <= bytes.len(),
            out@ == prefixed + bytes@.subrange(0, i as int),
        decreases bytes.len() - i,
    {
        out.push(bytes[i]);
        i = i + 1;
        assert(out@ =~= prefixed + bytes@.subrange(0, i as int));
    }
    assert(bytes@.subrange(0, bytes.len() as int) =~= bytes@);
    assert(out@ =~= old(out)@ + field(bytes@));
}

/// Writes the header blob, or finds the first header that does not fit.
fn encode_headers(headers: &Vec<HeaderPair>) -> (result: Option<Vec<u8>>)
    ensures
        result is Some <==> headers_fit(header_views(headers@)),
        result matches Some(blob) ==> blob@ == serialize_headers(header_views(headers@)),
{
    let ghost all = header_views(headers@);
    let mut blob: Vec<u8> = Vec::new();
    let mut i: usize = 0;
    while i < headers.len()
        invariant
            i <= headers.len(),
            all == header_views(headers@),
            headers_fit(all.subrange(0, i as int)),
            blob@ == serialize_headers(all.subrange(0, i as int)),
        decreases headers.len() - i,
    {
        let header = &headers[i];
        if header.name.len() > MAX_FIELD_BYTES || header.value.len() > MAX_FIELD_BYTES {
            assert(all[i as int] == header@);
            return None;
        }
        push_field(&mut blob, &header.name);
        push_field(&mut blob, &header.value);
        proof {
            let done = all.subrange(0, i as int);
            assert(all[i as int] == header@);
            assert(all.subrange(0, i + 1) =~= done + seq![header@]);
            lemma_serialize_concat(done, seq![header@]);
            assert(seq![header@].drop_first() =~= Seq::<HeaderView>::empty());
            assert(seq![header@][0] == header@);
            assert(serialize_headers(seq![header@].drop_first()) =~= Seq::<u8>::empty());
            assert(serialize_headers(seq![header@]) =~= entry(header@));
            assert(blob@ =~= serialize_headers(done) + entry(header@));
        }
        i = i + 1;
    }
    assert(all.subrange(0, headers.len() as int) =~= all);
    Some(blob)
}

/// Captures a response as a storable record.
///
/// Succeeds exactly on the responses that `encodable` admits; on the others
/// it names the first defect, the status before the headers.
pub fn encode(response: &HttpResponse) -> (result: Result<ResponseSnapshot, CodecError>)
    ensures
        result is Ok <==> encodable(response@),
        result matches Ok(snapshot) ==> snapshot@ == encode_spec(response@),
        result matches Err(e) ==> e == (if !is_status_code(response.status as int) {
            CodecError::InvalidStatus
        } else {
            CodecError::OversizedHeader
        }),
{
    if response.status < 100 || response.status > 999 {
        return Err(CodecError::InvalidStatus);
    }
    match encode_headers(&response.headers) {
        None => Err(CodecError::OversizedHeader),
        Some(headers) => Ok(
            ResponseSnapshot {
                status_code: response.status as i16,
                headers,
                body: copy_bytes(&response.body),
            },
        ),
    }
}

/// What follows position `pos` in a blob.
pub open spec fn suffix(bytes: Seq<u8>, pos: int) -> Seq<u8> {
    bytes.subrange(pos, bytes.len() as int)
}

/// Reads the field that starts at `pos`, and says where the next one starts.
fn take_field(blob: &Vec<u8>, pos: usize) -> (result: Option<(Vec<u8>, usize)>)
    requires
        pos <= blob.len(),
    ensures
        match result {
            Some((bytes, next)) => {
                &&& pos + 4 <= next <= blob.len()
                &&& parse_field(suffix(blob@, pos as int)) == Some(
                    (bytes@, suffix(blob@, next as int)),
                )
            },
            None => parse_field(suffix(blob@, pos as int)) is None,
        },
{
    let ghost rest = suffix(blob@, pos as int);
    if blob.len() - pos < 4 {
        return None;
    }
    let b0: u8 = blob[pos];
    let b1: u8 = blob[pos + 1];
    let b2: u8 = blob[pos + 2];
    let b3: u8 = blob[pos + 3];
    assert(rest[0] == b0 && rest[1] == b1 && rest[2] == b2 && rest[3] == b3);
    let n: u64 = (b0 as u64) * 16777216 + (b1 as u64) * 65536 + (b2 as u64) * 256 + (b3 as u64);
    assert(n == from_be32(b0, b1, b2, b3));
    let start: usize = pos + 4;
    if ((blob.len() - start) as u64) < n {
        return None;
    }
    let end: usize = start + (n as usize);
    let mut bytes: Vec<u8> = Vec::new();
    let mut i: usize = start;
    while i < end
        invariant
            start <= i <= end <= blob.len(),
            bytes@ == blob@.subrange(start as int, i as int),
        decreases end - i,
    {
        bytes.push(blob[i]);
        i = i + 1;
        assert(bytes@ =~= blob@.subrange(start as int, i as int));
    }
    assert(rest.subrange(4, 4 + n) =~= bytes@);
    assert(rest.subrange(4 + n, rest.len() as int) =~= suffix(blob@, end as int));
    Some((bytes, end))
}

/// The headers read so far, followed by whatever the rest of the blob holds.
pub open spec fn continued(read: Seq<HeaderView>, rest: Option<Seq<HeaderView>>) -> Option<
    Seq<HeaderView>,
> {
    match rest {
        Some(tail) => Some(read + tail),
        None => None,
    }
}

/// Reads a header blob back into the list of headers it holds.
fn decode_headers(blob: &Vec<u8>) -> (result: Option<Vec<HeaderPair>>)
    ensures
        match result {
            Some(headers) => parse_headers(blob@) == Some(header_views(headers@)),
            None => parse_headers(blob@) is None,
        },
{
    let mut headers: Vec<HeaderPair> = Vec::new();
    let mut pos: usize = 0;
    assert(suffix(blob@, 0) =~= blob@);
    assert(header_views(headers@) =~= Seq::<HeaderView>::empty());
    assert(continued(header_views(headers@), parse_headers(blob@)) =~= parse_headers(blob@)) by {
        if parse_headers(blob@) is Some {
            assert(header_views(headers@) + parse_headers(blob@).unwrap() =~= parse_headers(
                blob@,
            ).unwrap());
        }
    }
    while pos < blob.len()
        invariant
            pos <= blob.len(),
            parse_headers(blob@) == continued(
                header_views(headers@),
                parse_headers(suffix(blob@, pos as int)),
            ),
        decreases blob.len() - pos,
    {
        let ghost here = suffix(blob@, pos as int);
        let ghost read = header_views(headers@);
        assert(here.len() > 0);
        let (name, after_name) = match take_field(blob, pos) {
            None => {
                return None;
            },
            Some(found) => found,
        };
        let (value, next) = match take_field(blob, after_name) {
            None => {
                return None;
            },
            Some(found) => found,
        };
        proof {
            let tail = parse_headers(suffix(blob@, next as int));
            let first = HeaderView { name: name@, value: value@ };
            assert(parse_headers(here) == continued(seq![first], tail));
            if tail is Some {
                assert(read + (seq![first] + tail.unwrap()) =~= read.push(first) + tail.unwrap());
            }
        }
        headers.push(HeaderPair { name, value });
        assert(header_views(headers@) =~= read.push(HeaderView { name: name@, value: value@ }));
        pos = next;
    }
    assert(suffix(blob@, pos as int) =~= Seq::<u8>::empty());
    assert(header_views(headers@) + Seq::<HeaderView>::empty() =~= header_views(headers@));
    Some(headers)
}

/// Rebuilds the response that a stored record stands for.
///
/// Fails on a status that is no HTTP status code and on a header blob that is
/// not well formed; otherwise every header comes back, in order.
pub fn decode(snapshot: &ResponseSnapshot) -> (result: Result<HttpResponse, CodecError>)
    ensures
        match result {
            Ok(response) => decode_spec(snapshot@) == Ok::<HttpResponseView, CodecError>(
                response@,
            ),
            Err(e) => decode_spec(snapshot@) == Err::<HttpResponseView, CodecError>(e),
        },
{
    if snapshot.status_code < 100 || snapshot.status_code > 999 {
        return Err(CodecError::InvalidStatus);
    }
    match decode_headers(&snapshot.headers) {
        None => Err(CodecError::MalformedHeaders),
        Some(headers) => Ok(
            HttpResponse {
                status: snapshot.status_code as u16,
                headers,
                body: copy_bytes(&snapshot.body),
            },
        ),
    }
}

} // verus!
