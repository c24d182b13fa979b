//! Framing of FastCGI records: reading the records of a request from the
//! bytes received so far, and writing the records of an answer.

use crate::text::copy_range;
use vstd::prelude::*;

verus! {

/// The bytes of a record's header.
pub const HEADER_LEN: usize = 8;

/// The largest content of one record.
pub const MAX_CONTENT: usize = 65535;

/// The largest record: header, content and padding.
pub const FASTCGI_MAX_REQUEST_LEN: usize = 65798;

/// The type of a record.
#[derive(Debug, Clone, Copy, PartialEq, Eq, Structural)]
pub enum HeaderType {
    BeginRequest,
    AbortRequest,
    EndRequest,
    Params,
    Stdin,
    Stdout,
    Stderr,
    Data,
    GetValues,
    GetValuesResult,
    Unknown,
}

/// The type that a number names.
pub open spec fn type_of(b: u8) -> HeaderType {
    if b == 1 {
        HeaderType::BeginRequest
    } else if b == 2 {
        HeaderType::AbortRequest
    } else if b == 3 {
        HeaderType::EndRequest
    } else if b == 4 {
        HeaderType::Params
    } else if b == 5 {
        HeaderType::Stdin
    } else if b == 6 {
        HeaderType::Stdout
    } else if b == 7 {
        HeaderType::Stderr
    } else if b == 8 {
        HeaderType::Data
    } else if b == 9 {
        HeaderType::GetValues
    } else if b == 10 {
        HeaderType::GetValuesResult
    } else {
        HeaderType::Unknown
    }
}

/// The header of a record.
#[derive(Debug, Clone, Copy, PartialEq, Eq, Structural)]
pub struct Header {
    pub header_type: HeaderType,
    pub request_id: u16,
    pub content_length: u16,
    pub padding_length: u8,
}

/// The header that the first eight bytes hold.
pub open spec fn header_of(b: Seq<u8>) -> Header {
    Header {
        header_type: type_of(b[1]),
        request_id: (b[2] * 256 + b[3]) as u16,
        content_length: (b[4] * 256 + b[5]) as u16,
        padding_length: b[6],
    }
}

/// A name with its value.
pub struct NameValue {
    pub name: Vec<u8>,
    pub value: Vec<u8>,
}

/// What a record holds.
pub enum ContentData {
    /// Nothing: the record ends a stream, or its content is of no use here.
    Empty,
    /// Names with their values.
    Param(Vec<NameValue>),
    /// Bytes of a stream.
    Stream(Vec<u8>),
}

/// A record.
pub struct Record {
    pub header: Header,
    pub data: ContentData,
}

/// What the bytes received so far give.
pub enum RecordType {
    /// No whole record yet: more bytes are needed.
    NoneYet,
    /// A record, and the number of bytes that it took.
    Record(Record, usize),
    /// The bytes are no record of this protocol.
    ErrorStream,
}

/// The length that stands at `at`: one byte below 128, or four bytes of
/// which the first has its highest bit set. The second number is the count
/// of bytes that the length takes; `None` where the bytes end too early.
pub open spec fn length_at(b: Seq<u8>, at: int) -> Option<(int, int)> {
    if at < 0 || at >= b.len() {
        None
    } else if b[at] < 128 {
        Some((b[at] as int, 1))
    } else if at + 4 > b.len() {
        None
    } else {
        Some(
            (
                (((b[at] - 128) * 256 + b[at + 1]) * 256 + b[at + 2]) * 256 + b[at + 3],
                4,
            ),
        )
    }
}

/// The names and values from `at` on, or `None` where the content is
/// malformed.
pub open spec fn pairs_from(b: Seq<u8>, at: int) -> Option<Seq<(Seq<u8>, Seq<u8>)>>
    decreases b.len() - at,
{
    if at < 0 || at > b.len() {
        None
    } else if at == b.len() {
        Some(Seq::empty())
    } else {
        match length_at(b, at) {
            None => None,
            Some((name_len, n1)) => match length_at(b, at + n1) {
                None => None,
                Some((value_len, n2)) => {
                    let start = at + n1 + n2;
                    if start + name_len + value_len > b.len() {
                        None
                    } else {
                        match pairs_from(b, start + name_len + value_len) {
                            None => None,
                            Some(rest) => Some(
                                seq![
                                    (
                                        b.subrange(start, start + name_len),
                                        b.subrange(
                                            start + name_len,
                                            start + name_len + value_len,
                                        ),
                                    ),
                                ] + rest,
                            ),
                        }
                    }
                },
            },
        }
    }
}

/// The names with their values, as plain values.
pub open spec fn pairs_view(v: Seq<NameValue>) -> Seq<(Seq<u8>, Seq<u8>)> {
    Seq::new(v.len(), |i: int| (v[i].name@, v[i].value@))
}

/// What a record holds, as plain values.
pub enum Content {
    Empty,
    Param(Seq<(Seq<u8>, Seq<u8>)>),
    Stream(Seq<u8>),
}

impl View for ContentData {
    type V = Content;

    open spec fn view(&self) -> Content {
        match self {
            ContentData::Empty => Content::Empty,
            ContentData::Param(p) => Content::Param(pairs_view(p@)),
            ContentData::Stream(s) => Content::Stream(s@),
        }
    }
}

/// What a record of the given type with the given content holds, or `None`
/// where the content is malformed: parameters are names with values, the
/// body is a stream, and an empty content or that of another type counts as
/// nothing.
pub open spec fn content_of(t: HeaderType, content: Seq<u8>) -> Option<Content> {
    if content.len() == 0 {
        Some(Content::Empty)
    } else if t == HeaderType::Params {
        match pairs_from(content, 0) {
            Some(p) => Some(Content::Param(p)),
            None => None,
        }
    } else if t == HeaderType::Stdin {
        Some(Content::Stream(content))
    } else {
        Some(Content::Empty)
    }
}

/// The bytes of a whole record at the head of `b`: its length with header
/// and padding, or `None` where `b` does not hold it whole yet.
pub open spec fn record_len(b: Seq<u8>) -> Option<int> {
    if b.len() < HEADER_LEN {
        None
    } else {
        let h = header_of(b);
        let total = HEADER_LEN + h.content_length + h.padding_length;
        if b.len() < total {
            None
        } else {
            Some(total)
        }
    }
}

fn read_length(b: &[u8], at: usize) -> (r: Option<(usize, usize)>)
    requires
        at <= b@.len(),
    ensures
        match r {
            Some((len, n)) => length_at(b@, at as int) == Some((len as int, n as int)) && (n == 1
                || n == 4) && len < 0x8000_0000,
            None => length_at(b@, at as int).is_none(),
        },
{
    if at >= b.len() {
        return None;
    }
    let first = b[at];
    if first < 128 {
        return Some((first as usize, 1));
    }
    if b.len() - at < 4 {
        return None;
    }
    let len: u64 = (((first as u64 - 128) * 256 + b[at + 1] as u64) * 256 + b[at + 2] as u64) * 256
        + b[at + 3] as u64;
    Some((len as usize, 4))
}

pub struct FastCGI {}

impl FastCGI {
    /// Reads the names and values of a record of parameters.
    pub fn read_params(content: &[u8]) -> (r: Option<Vec<NameValue>>)
        ensures
            match r {
                Some(p) => pairs_from(content@, 0) == Some(pairs_view(p@)),
                None => pairs_from(content@, 0).is_none(),
            },
    {
        let mut out: Vec<NameValue> = Vec::new();
        let mut at: usize = 0;
        while at < content.len()
            invariant
                at <= content@.len(),
                match pairs_from(content@, at as int) {
                    Some(rest) => pairs_from(content@, 0) == Some(pairs_view(out@) + rest),
                    None => pairs_from(content@, 0).is_none(),
                },
            decreases content@.len() - at,
        {
            let (name_len, n1) = match read_length(content, at) {
                Some(l) => l,
                None => return None,
            };
            let (value_len, n2) = match read_length(content, at + n1) {
                Some(l) => l,
                None => return None,
            };
            let start = at + n1 + n2;
            let left = content.len() - start;
            if name_len > left || value_len > left - name_len {
                return None;
            }
            let name = copy_range(content, start, start + name_len);
            let value = copy_range(content, start + name_len, start + name_len + value_len);
            let ghost before = out@;
            out.push(NameValue { name, value });
            proof {
                assert(pairs_view(out@) =~= pairs_view(before) + seq![
                    (
                        content@.subrange(start as int, start + name_len),
                        content@.subrange(start + name_len, start + name_len + value_len),
                    ),
                ]);
                match pairs_from(content@, start + name_len + value_len) {
                    Some(rest) => {
                        assert(pairs_view(before) + (seq![
                            (
                                content@.subrange(start as int, start + name_len),
                                content@.subrange(start + name_len, start + name_len + value_len),
                            ),
                        ] + rest) =~= pairs_view(out@) + rest);
                    },
                    None => {},
                }
            }
            at = start + name_len + value_len;
        }
        assert(pairs_view(out@) + Seq::<(Seq<u8>, Seq<u8>)>::empty() =~= pairs_view(out@));
        Some(out)
    }

    /// Reads the header at the head of at least eight bytes.
    pub fn read_header(b: &[u8]) -> (h: Header)
        requires
            b@.len() >= HEADER_LEN,
        ensures
            h == header_of(b@),
    {
        let t = b[1];
        let header_type = if t == 1 {
            HeaderType::BeginRequest
        } else if t == 2 {
            HeaderType::AbortRequest
        } else if t == 3 {
            HeaderType::EndRequest
        } else if t == 4 {
            HeaderType::Params
        } else if t == 5 {
            HeaderType::Stdin
        } else if t == 6 {
            HeaderType::Stdout
        } else if t == 7 {
            HeaderType::Stderr
        } else if t == 8 {
            HeaderType::Data
        } else if t == 9 {
            HeaderType::GetValues
        } else if t == 10 {
            HeaderType::GetValuesResult
        } else {
            HeaderType::Unknown
        };
        Header {
            header_type,
            request_id: b[2] as u16 * 256 + b[3] as u16,
            content_length: b[4] as u16 * 256 + b[5] as u16,
            padding_length: b[6],
        }
    }

    /// Reads the record at the head of the bytes received so far. The first
    /// byte of a record names version 1 of the protocol.
    pub fn read_record(b: &[u8]) -> (r: RecordType)
        ensures
            match r {
                RecordType::NoneYet => record_len(b@).is_none() && (b@.len() == 0 || b@[0] == 1),
                RecordType::ErrorStream => b@.len() > 0 && (b@[0] != 1 || (record_len(b@).is_some()
                    && content_of(
                    header_of(b@).header_type,
                    b@.subrange(HEADER_LEN as int, HEADER_LEN + header_of(b@).content_length),
                ).is_none())),
                RecordType::Record(record, used) => {
                    &&& b@[0] == 1
                    &&& record_len(b@) == Some(used as int)
                    &&& record.header == header_of(b@)
                    &&& Some(record.data@) == content_of(
                        record.header.header_type,
                        b@.subrange(HEADER_LEN as int, HEADER_LEN + record.header.content_length),
                    )
                },
            },
    {
        if b.len() == 0 {
            return RecordType::NoneYet;
        }
        if b[0] != 1 {
            return RecordType::ErrorStream;
        }
        if b.len() < HEADER_LEN {
            return RecordType::NoneYet;
        }
        let header = FastCGI::read_header(b);
        let total: usize = HEADER_LEN + header.content_length as usize
            + header.padding_length as usize;
        if b.len() < total {
            return RecordType::NoneYet;
        }
        let content = copy_range(b, HEADER_LEN, HEADER_LEN + header.content_length as usize);
        let data = if content.len() == 0 {
            ContentData::Empty
        } else {
            match header.header_type {
                HeaderType::Params => match FastCGI::read_params(content.as_slice()) {
                    Some(p) => ContentData::Param(p),
                    None => return RecordType::ErrorStream,
                },
                HeaderType::Stdin => ContentData::Stream(content),
                _ => ContentData::Empty,
            }
        };
        RecordType::Record(Record { header, data }, total)
    }
}

// ------------------------------------------------------------ answers

/// A record of the type numbered `t` with the given content, without
/// padding.
pub open spec fn record_bytes(t: u8, request_id: u16, content: Seq<u8>) -> Seq<u8> {
    seq![
        1u8,
        t,
        (request_id / 256) as u8,
        (request_id % 256) as u8,
        (content.len() / 256) as u8,
        (content.len() % 256) as u8,
        0u8,
        0u8,
    ] + content
}

/// The body in records of standard output, each as large as a record can be
/// but the last.
pub open spec fn stdout_records(request_id: u16, body: Seq<u8>) -> Seq<u8>
    decreases body.len(),
{
    if body.len() == 0 {
        Seq::empty()
    } else if body.len() <= MAX_CONTENT {
        record_bytes(6, request_id, body)
    } else {
        record_bytes(6, request_id, body.subrange(0, MAX_CONTENT as int)) + stdout_records(
            request_id,
            body.subrange(MAX_CONTENT as int, body.len() as int),
        )
    }
}

/// The record that ends a request: the application's status 0 and the
/// protocol's status "request complete".
pub open spec fn end_record(request_id: u16) -> Seq<u8> {
    record_bytes(3, request_id, seq![0u8, 0u8, 0u8, 0u8, 0u8, 0u8, 0u8, 0u8])
}

/// The answer to a request: the body, the empty record that ends standard
/// output, and the record that ends the request.
pub open spec fn response_bytes(request_id: u16, body: Seq<u8>) -> Seq<u8> {
    stdout_records(request_id, body) + record_bytes(6, request_id, Seq::empty()) + end_record(
        request_id,
    )
}

fn push_record(out: &mut Vec<u8>, t: u8, request_id: u16, content: &[u8], from: usize, to: usize)
    requires
        from <= to <= content@.len(),
        to - from <= MAX_CONTENT,
    ensures
        final(out)@ == old(out)@ + record_bytes(
            t,
            request_id,
            content@.subrange(from as int, to as int),
        ),
{
    let len: usize = to - from;
    out.push(1);
    out.push(t);
    out.push((request_id / 256) as u8);
    out.push((request_id % 256) as u8);
    out.push((len / 256) as u8);
    out.push((len % 256) as u8);
    out.push(0);
    out.push(0);
    let ghost head = out@;
    let mut i: usize = from;
    while i < to
        invariant
            from <= i <= to <= content@.len(),
            out@ == head + content@.subrange(from as int, i as int),
        decreases to - i,
    {
        out.push(content[i]);
        assert(out@ =~= head + content@.subrange(from as int, i + 1));
        i += 1;
    }
    assert(out@ =~= old(out)@ + record_bytes(
        t,
        request_id,
        content@.subrange(from as int, to as int),
    ));
}

impl FastCGI {
    /// The records of the answer to the request `request_id`.
    pub fn write_response(request_id: u16, body: &[u8]) -> (r: Vec<u8>)
        ensures
            r@ == response_bytes(request_id, body@),
    {
        let mut out: Vec<u8> = Vec::new();
        let mut at: usize = 0;
        assert(body@.subrange(0, body@.len() as int) =~= body@);
        while body.len() - at > MAX_CONTENT
            invariant
                at <= body@.len(),
                out@ + stdout_records(request_id, body@.subrange(at as int, body@.len() as int))
                    == stdout_records(request_id, body@),
            decreases body@.len() - at,
        {
            let ghost rest = body@.subrange(at as int, body@.len() as int);
            let ghost before = out@;
            push_record(&mut out, 6, request_id, body, at, at + MAX_CONTENT);
            proof {
                assert(rest.subrange(0, MAX_CONTENT as int) =~= body@.subrange(
                    at as int,
                    at + MAX_CONTENT,
                ));
                assert(rest.subrange(MAX_CONTENT as int, rest.len() as int) =~= body@.subrange(
                    at + MAX_CONTENT,
                    body@.len() as int,
                ));
                assert(out@ + stdout_records(
                    request_id,
                    body@.subrange(at + MAX_CONTENT, body@.len() as int),
                ) =~= before + stdout_records(request_id, rest));
            }
            at = at + MAX_CONTENT;
        }
        let ghost before = out@;
        if body.len() - at > 0 {
            push_record(&mut out, 6, request_id, body, at, body.len());
        }
        assert(out@ =~= stdout_records(request_id, body@));
        let empty: Vec<u8> = Vec::new();
        push_record(&mut out, 6, request_id, empty.as_slice(), 0, 0);
        assert(empty@.subrange(0, 0) =~= Seq::<u8>::empty());
        FastCGI::push_end(&mut out, request_id);
        assert(out@ =~= response_bytes(request_id, body@));
        out
    }

    fn push_end(out: &mut Vec<u8>, request_id: u16)
        ensures
            final(out)@ == old(out)@ + end_record(request_id),
    {
        let mut status: Vec<u8> = Vec::new();
        let mut i: usize = 0;
        while i < 8
            invariant
                i <= 8,
                status@ == Seq::new(i as nat, |j: int| 0u8),
            decreases 8 - i,
        {
            status.push(0);
            assert(status@ =~= Seq::new((i + 1) as nat, |j: int| 0u8));
            i += 1;
        }
        assert(status@ =~= seq![0u8, 0u8, 0u8, 0u8, 0u8, 0u8, 0u8, 0u8]);
        assert(status@.subrange(0, 8) =~= status@);
        push_record(out, 3, request_id, status.as_slice(), 0, 8);
    }

    /// The record that answers an aborted request.
    pub fn write_abort(request_id: u16) -> (r: Vec<u8>)
        ensures
            r@ == end_record(request_id),
    {
        let mut out: Vec<u8> = Vec::new();
        FastCGI::push_end(&mut out, request_id);
        assert(out@ =~= end_record(request_id));
        out
    }
}

} // verus!
