use eska_cli::framing::{
    check_body, header_length, header_step, read_frame, write_frame, FrameError, HeaderStep,
    MAX_HEADER, MAX_REQUEST, MAX_RESPONSE,
};

/// Reads frames one after another from the same wire.
fn next(wire: &[u8], position: &mut usize) -> Result<Option<Vec<u8>>, FrameError> {
    read_frame(wire, position)
}

#[test]
fn fragmented_and_coalesced_frames() {
    let body = "{\"name\":\"Контрагенты\"}".as_bytes();
    let mut wire = Vec::new();
    write_frame(&mut wire, body).unwrap();
    write_frame(&mut wire, b"{}").unwrap();
    let mut position = 0;
    assert_eq!(next(&wire, &mut position).unwrap().unwrap(), body);
    assert_eq!(next(&wire, &mut position).unwrap().unwrap(), b"{}");
    assert!(next(&wire, &mut position).unwrap().is_none());
}

#[test]
fn rejects_invalid_boundaries() {
    for wire in [
        b"Content-Length: 2\n\n{}".as_slice(),
        b"Content-Length: 2\r\nContent-Length: 2\r\n\r\n{}",
        b"Content-Length: 0\r\n\r\n",
        b"Content-Length: +2\r\n\r\n{}",
        b"Content-Length: 1048577\r\n\r\n",
        b"Content-Length: 2\r\n\r\n{",
        b"Content-Length: 1\r\n\r\n\xff",
        b"Content-Length: 3\r\n\r\n\xef\xbb\xbf",
        b"Content-Length: 2\r\nContent-Type: application/json\r\n\r\n{}",
    ] {
        assert!(read_frame(wire, &mut 0).is_err());
    }
    let oversized = vec![b'A'; MAX_HEADER + 1];
    assert!(read_frame(&oversized, &mut 0).is_err());
}

#[test]
fn written_frames_have_an_exact_header() {
    let mut wire = Vec::new();
    write_frame(&mut wire, b"{\"id\":1}").unwrap();
    assert_eq!(wire, b"Content-Length: 8\r\n\r\n{\"id\":1}");
    let mut position = 0;
    assert_eq!(read_frame(&wire, &mut position).unwrap().unwrap(), b"{\"id\":1}");
    assert_eq!(position, wire.len());
}

#[test]
fn empty_and_oversized_responses_are_refused() {
    let mut wire = vec![1, 2];
    assert_eq!(write_frame(&mut wire, b""), Err(FrameError::InvalidData));
    assert_eq!(wire, vec![1, 2]);
    let large = vec![b' '; MAX_RESPONSE + 1];
    assert_eq!(write_frame(&mut wire, &large), Err(FrameError::InvalidData));
    assert_eq!(wire, vec![1, 2]);
}

#[test]
fn header_fields_are_case_insensitive_and_trimmed() {
    let wire = b"content-length:\t 2 \r\nCONTENT-TYPE:  Application/VSCode-JSONRPC; Charset=UTF-8\r\nX-Other: ok\r\n\r\n{}";
    let mut position = 0;
    assert_eq!(read_frame(wire, &mut position).unwrap().unwrap(), b"{}");
    assert_eq!(position, wire.len());
}

#[test]
fn boundary_errors_are_classified() {
    assert_eq!(read_frame(b"Content-Length: 2\r\n\r\n{", &mut 0), Err(FrameError::UnexpectedEof));
    assert_eq!(read_frame(b"Content-Length: 2\r\n", &mut 0), Err(FrameError::InvalidData));
    assert_eq!(read_frame(b"\r\n\r\n", &mut 0), Err(FrameError::InvalidData));
    assert_eq!(read_frame(b"Content-Length: 1\r\nBad Key: 1\r\n\r\n{", &mut 0), Err(FrameError::InvalidData));
    assert_eq!(read_frame(b"Content-Length: 99999999999999999999999\r\n\r\n", &mut 0), Err(FrameError::InvalidData));
    assert_eq!(read_frame(b"", &mut 0), Ok(None));
}

#[test]
fn the_largest_request_is_accepted() {
    let body = vec![b'x'; MAX_REQUEST];
    let mut wire = Vec::new();
    write_frame(&mut wire, &body).unwrap();
    assert_eq!(read_frame(&wire, &mut 0).unwrap().unwrap().len(), MAX_REQUEST);
    assert_eq!(header_length(b"Content-Length: 0002\r\n\r\n"), Ok(2));
}

#[test]
fn a_header_can_be_fed_byte_by_byte() {
    let wire = b"Content-Length: 2\r\n\r\n";
    let mut header = Vec::new();
    for (index, byte) in wire.iter().enumerate() {
        let step = header_step(&mut header, *byte);
        if index + 1 == wire.len() {
            assert_eq!(step, HeaderStep::Complete);
        } else {
            assert_eq!(step, HeaderStep::More);
        }
    }
    assert_eq!(header_length(&header), Ok(2));
    assert_eq!(header_step(&mut Vec::new(), b'\n'), HeaderStep::Invalid);
    assert_eq!(header_step(&mut Vec::new(), 0xd0), HeaderStep::Invalid);
    assert_eq!(check_body(b"\xef\xbb\xbf{}"), Err(FrameError::InvalidData));
    assert_eq!(check_body("{\"a\":\"я\"}".as_bytes()), Ok(()));
}
