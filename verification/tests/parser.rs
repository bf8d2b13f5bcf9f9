use http_client::event_source::parse_line;
use http_client::event_source::parse_lines;
use http_client::event_source::EventSourceFragment;
use http_client::lines::LineAssembler;

fn parse(line: &[u8]) -> Option<EventSourceFragment> {
    parse_line(&line.to_vec())
}

fn is_data(f: &EventSourceFragment, value: &[u8]) -> bool {
    matches!(f, EventSourceFragment::Data(v) if v.as_slice() == value)
}

fn is_comment(f: &EventSourceFragment, value: &[u8]) -> bool {
    matches!(f, EventSourceFragment::Comment(v) if v.as_slice() == value)
}

#[test]
fn data_line_yields_one_data_fragment() {
    assert!(is_data(&parse(b"data: hi").unwrap(), b"hi"));
    assert!(is_data(&parse(b"data:hi").unwrap(), b"hi"));
    assert!(is_data(&parse(b"data:").unwrap(), b""));
    assert!(is_data(&parse(b"data: hello world ").unwrap(), b"hello world "));
    // All leading whitespace after the prefix is trimmed, trailing kept.
    assert!(is_data(&parse(b"data:\t  hi").unwrap(), b"hi"));
}

#[test]
fn bare_colon_yields_empty_comment() {
    assert!(is_comment(&parse(b":").unwrap(), b""));
    assert!(is_comment(&parse(b": hello").unwrap(), b"hello"));
}

#[test]
fn blank_line_yields_no_fragment() {
    assert!(parse(b"").is_none());
}

#[test]
fn unrecognized_lines_are_discarded() {
    assert!(parse(b"datum: hi").is_none());
    assert!(parse(b"DATA: hi").is_none());
    assert!(parse(b"data").is_none());
    assert!(parse(b" data: hi").is_none());
}

#[test]
fn each_field_prefix_is_recognized() {
    assert!(matches!(
        parse(b"event: ping").unwrap(),
        EventSourceFragment::Event(v) if v.as_slice() == b"ping"
    ));
    assert!(matches!(
        parse(b"id: 1").unwrap(),
        EventSourceFragment::Id(v) if v.as_slice() == b"1"
    ));
    assert!(matches!(
        parse(b"retry: 2500").unwrap(),
        EventSourceFragment::Retry(v) if v.as_slice() == b"2500"
    ));
}

#[test]
fn prefix_order_puts_comment_first() {
    // A line starting with a colon is a comment even if a field name follows.
    assert!(is_comment(&parse(b":data: hi").unwrap(), b"data: hi"));
}

fn assemble(chunks: &[&[u8]]) -> Vec<Vec<u8>> {
    let mut assembler = LineAssembler::new();
    let mut lines: Vec<Vec<u8>> = Vec::new();
    for chunk in chunks {
        lines.extend(assembler.push_chunk(&chunk.to_vec()));
    }
    lines
}

#[test]
fn lines_split_on_lf_and_strip_one_cr() {
    let lines = assemble(&[b"ab\ncd\r\n\ne\r\r\n"]);
    assert_eq!(
        lines,
        vec![b"ab".to_vec(), b"cd".to_vec(), b"".to_vec(), b"e\r".to_vec()]
    );
}

#[test]
fn chunk_boundaries_do_not_change_the_lines() {
    let bytes: &[u8] = b"data: hi\r\n\n:keepalive\nevent: ping\nid: 1\ntrailing";
    let whole = assemble(&[bytes]);
    for cut in 0..bytes.len() {
        let split = assemble(&[&bytes[..cut], &bytes[cut..]]);
        assert_eq!(split, whole);
    }
    let mut tiny: Vec<&[u8]> = Vec::new();
    for i in 0..bytes.len() {
        tiny.push(&bytes[i..i + 1]);
    }
    assert_eq!(assemble(&tiny), whole);
}

#[test]
fn unterminated_tail_stays_buffered() {
    let mut assembler = LineAssembler::new();
    assert_eq!(assembler.push_chunk(&b"par".to_vec()), Vec::<Vec<u8>>::new());
    assert_eq!(
        assembler.push_chunk(&b"tial\nrest".to_vec()),
        vec![b"partial".to_vec()]
    );
}

#[test]
fn a_batch_of_lines_is_classified_in_order() {
    let lines = vec![b"data: a".to_vec(), b"skip me".to_vec(), b": c".to_vec()];
    let frags = parse_lines(&lines);
    assert_eq!(frags.len(), 2);
    assert!(is_data(&frags[0], b"a"));
    assert!(is_comment(&frags[1], b"c"));
}
