//! Ingestion bookkeeping: configuration, stream records, and the pure
//! checks behind the ingestion endpoints. Reading the environment,
//! generating identifiers and spawning the actual ingestion work stay
//! outside the library.

use vstd::prelude::*;

verus! {

/// Ingestion-service configuration.
pub struct IngestConfig {
    pub max_concurrent_streams: usize,
    pub buffer_size_mb: usize,
    pub storage_endpoint: String,
    pub kafka_brokers: Vec<String>,
}

/// Lifecycle state of one ingest stream.
#[derive(Debug, Clone)]
pub enum StreamStatus {
    Initializing,
    Active,
    Buffering,
    Error,
    Stopped,
}

/// One ingest stream. The start time is carried as milliseconds since the
/// Unix epoch.
pub struct Stream {
    pub id: String,
    pub protocol: String,
    pub input_url: String,
    pub status: StreamStatus,
    pub bitrate: u32,
    pub start_time_millis: i64,
}

impl IngestConfig {
    /// Assemble a configuration from the endpoint values, with the fixed
    /// stream and buffer limits.
    pub fn with_endpoints(storage_endpoint: String, kafka_brokers: Vec<String>) -> (c:
        IngestConfig)
        ensures
            c.max_concurrent_streams == 10000,
            c.buffer_size_mb == 512,
            c.storage_endpoint == storage_endpoint,
            c.kafka_brokers == kafka_brokers,
    {
        IngestConfig {
            max_concurrent_streams: 10000,
            buffer_size_mb: 512,
            storage_endpoint,
            kafka_brokers,
        }
    }
}

impl Stream {
    /// A freshly started stream: initializing, with no measured bitrate
    /// yet.
    pub fn new(id: String, protocol: String, input_url: String, start_time_millis: i64) -> (s:
        Stream)
        ensures
            s.id == id,
            s.protocol == protocol,
            s.input_url == input_url,
            s.status is Initializing,
            s.bitrate == 0,
            s.start_time_millis == start_time_millis,
    {
        Stream {
            id,
            protocol,
            input_url,
            status: StreamStatus::Initializing,
            bitrate: 0,
            start_time_millis,
        }
    }
}

/// The ingest protocols the service accepts.
pub open spec fn spec_protocol_ok(p: Seq<char>) -> bool {
    p == "rtmp"@ || p == "srt"@ || p == "webrtc"@ || p == "hls"@ || p == "rtsp"@
}

/// Whether `p` names a supported ingest protocol.
pub fn validate_protocol(p: &String) -> (ok: bool)
    ensures
        ok == spec_protocol_ok(p@),
{
    *p == String::from_str("rtmp") || *p == String::from_str("srt") || *p == String::from_str(
        "webrtc",
    ) || *p == String::from_str("hls") || *p == String::from_str("rtsp")
}

/// The publish URL handed back for a new stream.
pub fn ingest_url(stream_id: &str) -> (r: String)
    ensures
        r@ == "rtmp://ingest.streamverse.io/live/"@ + stream_id@,
{
    let mut r: String = String::from_str("rtmp://ingest.streamverse.io/live/");
    r.append(stream_id);
    r
}

/// The broker list joined back with commas: the inverse of the comma
/// split below.
pub open spec fn spec_join_commas(parts: Seq<Seq<char>>) -> Seq<char>
    decreases parts.len(),
{
    if parts.len() == 0 {
        Seq::empty()
    } else if parts.len() == 1 {
        parts[0]
    } else {
        spec_join_commas(parts.drop_last()) + seq![','] + parts.last()
    }
}

/// Split a comma-separated list into its comma-free parts. Joining the
/// parts back with commas gives the input, so the split is exact.
pub fn split_commas(s: &str) -> (parts: Vec<String>)
    ensures
        parts@.len() >= 1,
        spec_join_commas(parts.deep_view()) == s@,
        forall|p: int, c: int|
            0 <= p < parts.deep_view().len() && 0 <= c < parts.deep_view()[p].len()
                ==> parts.deep_view()[p][c] != ',',
{
    let len: usize = s.unicode_len();
    let mut parts: Vec<String> = Vec::new();
    let mut start: usize = 0;
    let mut i: usize = 0;
    while i < len
        invariant
            len == s@.len(),
            start <= i <= len,
            parts@.len() == 0 ==> start == 0,
            parts@.len() > 0 ==> spec_join_commas(parts.deep_view()) + seq![',']
                == s@.take(start as int),
            forall|p: int, c: int|
                0 <= p < parts.deep_view().len() && 0 <= c < parts.deep_view()[p].len()
                    ==> parts.deep_view()[p][c] != ',',
            forall|c: int| start <= c < i ==> s@[c] != ',',
        decreases len - i,
    {
        if s.get_char(i) == ',' {
            let part: String = s.substring_char(start, i).to_owned();
            let ghost dv = parts.deep_view();
            parts.push(part);
            proof {
                assert(parts.deep_view() =~~= dv.push(part@));
                lemma_join_push(dv, part@);
                assert(spec_join_commas(parts.deep_view()) + seq![',']
                    =~= s@.take(i as int + 1));
                assert forall|p: int, c: int|
                    0 <= p < parts.deep_view().len() && 0 <= c < parts.deep_view()[p].len()
                        implies parts.deep_view()[p][c] != ',' by {
                    if p < dv.len() {
                        assert(parts.deep_view()[p] == dv[p]);
                    } else {
                        assert(parts.deep_view()[p] == part@);
                        assert(part@[c] == s@[start + c]);
                    }
                }
            }
            start = i + 1;
        }
        i = i + 1;
    }
    let last: String = s.substring_char(start, len).to_owned();
    let ghost dv = parts.deep_view();
    parts.push(last);
    proof {
        assert(parts.deep_view() =~~= dv.push(last@));
        lemma_join_push(dv, last@);
        assert(spec_join_commas(parts.deep_view()) =~= s@);
        assert forall|p: int, c: int|
            0 <= p < parts.deep_view().len() && 0 <= c < parts.deep_view()[p].len()
                implies parts.deep_view()[p][c] != ',' by {
            if p < dv.len() {
                assert(parts.deep_view()[p] == dv[p]);
            } else {
                assert(parts.deep_view()[p] == last@);
                assert(last@[c] == s@[start + c]);
            }
        }
    }
    parts
}

/// Appending one more part to a comma join appends a comma (when parts
/// already exist) and the new part.
proof fn lemma_join_push(parts: Seq<Seq<char>>, last: Seq<char>)
    ensures
        parts.len() == 0 ==> spec_join_commas(parts.push(last)) == last,
        parts.len() > 0 ==> spec_join_commas(parts.push(last)) == spec_join_commas(parts)
            + seq![','] + last,
{
    let pushed = parts.push(last);
    assert(pushed.drop_last() =~~= parts);
    assert(pushed.last() == last);
    if parts.len() == 0 {
        assert(spec_join_commas(pushed) == pushed[0]);
    }
}

} // verus!
