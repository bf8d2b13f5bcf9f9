use http_client::async_body::ChunkStep;
use http_client::event_source::EventSourceFragment;
use http_client::fragment_stream::FragmentStream;
use http_client::fragment_stream::Phase;
use http_client::fragment_stream::StreamError;
use http_client::message::Headers;
use http_client::message::Request;
use http_client::message::Response;

type Item = Result<EventSourceFragment, StreamError>;

fn new_request() -> Request {
    Request::new(b"GET".to_vec(), b"/events".to_vec())
}

/// Drive a whole response through the orchestrator, the body delivered as it
/// hands out its chunks.
fn run(stream: &mut FragmentStream, mut response: Response) -> Vec<Item> {
    let mut items = stream.on_response_status(response.status);
    loop {
        match response.body.next_chunk() {
            ChunkStep::Chunk(c) => items.extend(stream.on_chunk(&c)),
            ChunkStep::End => {
                items.extend(stream.on_end());
                break;
            }
            ChunkStep::AwaitSource => panic!("a buffered body never defers"),
        }
    }
    items
}

#[test]
fn begin_appends_the_negotiation_header() {
    let mut request = new_request();
    let stream = FragmentStream::begin(&mut request);
    assert_eq!(stream.phase, Phase::Sending);
    assert_eq!(request.method, b"GET".to_vec());
    assert_eq!(request.target, b"/events".to_vec());
    assert_eq!(
        request.headers.get(&b"ACCEPT".to_vec()),
        Some(b"text/event-stream".to_vec())
    );
}

#[test]
fn ok_response_streams_fragments_across_a_chunk_split() {
    let bytes: &[u8] = b"data: hi\n\n:keepalive\nevent: ping\nid: 1\n";
    // Split mid-line, anywhere: the fragments must not depend on the cut.
    for cut in 0..bytes.len() {
        let mut request = new_request();
        let mut stream = FragmentStream::begin(&mut request);
        let mut items = stream.on_response_status(200);
        assert!(items.is_empty());
        items.extend(stream.on_chunk(&bytes[..cut].to_vec()));
        items.extend(stream.on_chunk(&bytes[cut..].to_vec()));
        items.extend(stream.on_end());
        assert_eq!(stream.phase, Phase::Done);
        assert_eq!(items.len(), 4);
        assert!(matches!(
            items[0], Ok(EventSourceFragment::Data(ref v)) if v.as_slice() == b"hi"
        ));
        assert!(matches!(
            items[1], Ok(EventSourceFragment::Comment(ref v)) if v.as_slice() == b"keepalive"
        ));
        assert!(matches!(
            items[2], Ok(EventSourceFragment::Event(ref v)) if v.as_slice() == b"ping"
        ));
        assert!(matches!(
            items[3], Ok(EventSourceFragment::Id(ref v)) if v.as_slice() == b"1"
        ));
    }
}

#[test]
fn non_200_status_yields_one_failure_and_never_reads_the_body() {
    let mut request = new_request();
    let mut stream = FragmentStream::begin(&mut request);
    let items = stream.on_response_status(404);
    assert_eq!(items.len(), 1);
    assert!(matches!(
        items[0],
        Err(StreamError::Status { status: 404 })
    ));
    assert_eq!(stream.phase, Phase::Done);
    // The machine is done: body chunks handed to it afterwards are ignored.
    let late = stream.on_chunk(&b"data: hi\n".to_vec());
    assert!(late.is_empty());
    assert!(stream.on_end().is_empty());
}

#[test]
fn transport_failure_yields_one_failure_and_no_pipeline_runs() {
    let mut request = new_request();
    let mut stream = FragmentStream::begin(&mut request);
    let items = stream.on_transport_error("connection refused".to_string());
    assert_eq!(items.len(), 1);
    assert!(matches!(
        items[0],
        Err(StreamError::Transport { ref message }) if message == "connection refused"
    ));
    assert_eq!(stream.phase, Phase::Done);
    assert!(stream.on_response_status(200).is_empty());
    assert!(stream.on_chunk(&b"data: hi\n".to_vec()).is_empty());
}

#[test]
fn read_failure_mid_stream_is_terminal() {
    let mut request = new_request();
    let mut stream = FragmentStream::begin(&mut request);
    assert!(stream.on_response_status(200).is_empty());
    let items = stream.on_chunk(&b"data: one\ndata: tw".to_vec());
    assert_eq!(items.len(), 1);
    let items = stream.on_read_error("connection reset".to_string());
    assert_eq!(items.len(), 1);
    assert!(matches!(
        items[0],
        Err(StreamError::Io { ref message }) if message == "connection reset"
    ));
    assert_eq!(stream.phase, Phase::Done);
    // The pending partial line is discarded with the stream.
    assert!(stream.on_chunk(&b"o\n".to_vec()).is_empty());
}

#[test]
fn whole_buffered_response_runs_end_to_end() {
    let mut request = new_request();
    let mut stream = FragmentStream::begin(&mut request);
    let response = Response {
        status: 200,
        headers: Headers::new(),
        body: http_client::async_body::AsyncBody::from_bytes(
            b"retry: 2500\ndata: done\n".to_vec(),
        ),
    };
    let items = run(&mut stream, response);
    assert_eq!(items.len(), 2);
    assert!(matches!(
        items[0], Ok(EventSourceFragment::Retry(ref v)) if v.as_slice() == b"2500"
    ));
    assert!(matches!(
        items[1], Ok(EventSourceFragment::Data(ref v)) if v.as_slice() == b"done"
    ));
}

#[test]
fn unterminated_final_line_is_discarded() {
    let mut request = new_request();
    let mut stream = FragmentStream::begin(&mut request);
    assert!(stream.on_response_status(200).is_empty());
    let items = stream.on_chunk(&b"data: kept\ndata: lost".to_vec());
    assert_eq!(items.len(), 1);
    assert!(matches!(
        items[0], Ok(EventSourceFragment::Data(ref v)) if v.as_slice() == b"kept"
    ));
    assert!(stream.on_end().is_empty());
}
