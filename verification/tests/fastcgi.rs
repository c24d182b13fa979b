use brain_b2b::fastcgi::{ContentData, FastCGI, HeaderType, RecordType};

fn record(t: u8, id: u16, content: &[u8], padding: u8) -> Vec<u8> {
    let mut v = vec![1, t, (id >> 8) as u8, id as u8, (content.len() >> 8) as u8, content.len() as u8, padding, 0];
    v.extend_from_slice(content);
    v.extend(std::iter::repeat(0).take(padding as usize));
    v
}

#[test]
fn a_record_is_read_when_it_is_whole() {
    let bytes = record(1, 258, &[0, 1, 0, 0, 0, 0, 0, 0], 3);
    for cut in 0..bytes.len() {
        assert!(matches!(FastCGI::read_record(&bytes[..cut]), RecordType::NoneYet), "{}", cut);
    }
    let mut more = bytes.clone();
    more.extend_from_slice(&[1, 4]);
    match FastCGI::read_record(&more) {
        RecordType::Record(r, used) => {
            assert_eq!(used, bytes.len());
            assert_eq!(r.header.header_type, HeaderType::BeginRequest);
            assert_eq!(r.header.request_id, 258);
            assert_eq!(r.header.content_length, 8);
            assert_eq!(r.header.padding_length, 3);
            assert!(matches!(r.data, ContentData::Empty));
        },
        _ => panic!("no record"),
    }
    assert!(matches!(FastCGI::read_record(&[2, 1, 0, 1, 0, 0, 0, 0]), RecordType::ErrorStream));
    assert!(matches!(FastCGI::read_record(&[0]), RecordType::ErrorStream));
}

#[test]
fn each_type_has_its_number() {
    let kinds = [
        (1, HeaderType::BeginRequest), (2, HeaderType::AbortRequest), (3, HeaderType::EndRequest),
        (4, HeaderType::Params), (5, HeaderType::Stdin), (6, HeaderType::Stdout),
        (7, HeaderType::Stderr), (8, HeaderType::Data), (9, HeaderType::GetValues),
        (10, HeaderType::GetValuesResult), (11, HeaderType::Unknown), (0, HeaderType::Unknown),
    ];
    for (n, kind) in kinds {
        assert_eq!(FastCGI::read_header(&record(n, 1, &[], 0)).header_type, kind);
    }
}

#[test]
fn parameters_are_names_with_values() {
    let mut content = vec![12, 3];
    content.extend_from_slice(b"QUERY_STRINGa=b");
    content.extend_from_slice(&[1, 0x80, 0, 1, 44, b'k']);
    content.extend(std::iter::repeat(b'v').take(300));
    content.extend_from_slice(&[0, 0]);
    match FastCGI::read_record(&record(4, 1, &content, 0)) {
        RecordType::Record(r, used) => {
            assert_eq!(used, 8 + content.len());
            match r.data {
                ContentData::Param(p) => {
                    assert_eq!(p.len(), 3);
                    assert_eq!((p[0].name.as_slice(), p[0].value.as_slice()), (&b"QUERY_STRING"[..], &b"a=b"[..]));
                    assert_eq!(p[1].name, b"k");
                    assert_eq!(p[1].value, vec![b'v'; 300]);
                    assert_eq!((p[2].name.len(), p[2].value.len()), (0, 0));
                },
                _ => panic!("no parameters"),
            }
        },
        _ => panic!("no record"),
    }
    match FastCGI::read_record(&record(4, 1, &[], 0)) {
        RecordType::Record(r, _) => assert!(matches!(r.data, ContentData::Empty)),
        _ => panic!("no record"),
    }
    assert!(matches!(FastCGI::read_record(&record(4, 1, &[5, 0, b'a'], 0)), RecordType::ErrorStream));
    assert!(matches!(FastCGI::read_record(&record(4, 1, &[1], 0)), RecordType::ErrorStream));
    assert!(matches!(FastCGI::read_record(&record(4, 1, &[0x80, 0, 0], 0)), RecordType::ErrorStream));
    assert!(FastCGI::read_params(&[0xff, 0xff, 0xff, 0xff, 0]).is_none());
    assert_eq!(FastCGI::read_params(&[]).unwrap().len(), 0);
}

#[test]
fn the_body_is_a_stream() {
    match FastCGI::read_record(&record(5, 1, b"body", 4)) {
        RecordType::Record(r, used) => {
            assert_eq!(used, 16);
            assert!(matches!(r.data, ContentData::Stream(s) if s == b"body"));
        },
        _ => panic!("no record"),
    }
    match FastCGI::read_record(&record(5, 1, b"", 0)) {
        RecordType::Record(r, _) => assert!(matches!(r.data, ContentData::Empty)),
        _ => panic!("no record"),
    }
    match FastCGI::read_record(&record(2, 1, b"x", 0)) {
        RecordType::Record(r, _) => {
            assert_eq!(r.header.header_type, HeaderType::AbortRequest);
            assert!(matches!(r.data, ContentData::Empty));
        },
        _ => panic!("no record"),
    }
}

#[test]
fn an_answer_is_the_body_an_end_of_output_and_an_end_of_request() {
    let mut expected = record(6, 7, b"bod", 0);
    expected.extend(record(6, 7, b"", 0));
    expected.extend(record(3, 7, &[0; 8], 0));
    assert_eq!(FastCGI::write_response(7, b"bod"), expected);
    let mut expected = record(6, 7, b"", 0);
    expected.extend(record(3, 7, &[0; 8], 0));
    assert_eq!(FastCGI::write_response(7, b""), expected);
    assert_eq!(FastCGI::write_abort(513), record(3, 513, &[0; 8], 0));
    let body = vec![9u8; 70000];
    let mut expected = record(6, 1, &body[..65535], 0);
    expected.extend(record(6, 1, &body[65535..], 0));
    expected.extend(record(6, 1, b"", 0));
    expected.extend(record(3, 1, &[0; 8], 0));
    assert_eq!(FastCGI::write_response(1, &body), expected);
    let body = vec![9u8; 65535];
    let mut expected = record(6, 1, &body, 0);
    expected.extend(record(6, 1, b"", 0));
    expected.extend(record(3, 1, &[0; 8], 0));
    assert_eq!(FastCGI::write_response(1, &body), expected);
}
