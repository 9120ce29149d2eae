//! Receiving a response body in chunks: chunks are gathered into batches
//! that are appended to the response in one go, and finished responses are
//! kept in a short per-request history.
use vstd::prelude::*;
use vstd::utf8::*;

use crate::text::{decimal, decimal_text, push_str};

verus! {

/// The number of bytes of the UTF-8 encoding of `s`.
pub open spec fn byte_len(s: Seq<char>) -> nat {
    encode_utf8(s).len()
}

/// Encoding a concatenation encodes each part.
pub proof fn lemma_encode_utf8_concat(a: Seq<char>, b: Seq<char>)
    ensures
        encode_utf8(a + b) == encode_utf8(a) + encode_utf8(b),
    decreases a.len(),
{
    if a.len() > 0 {
        assert((a + b).drop_first() == a.drop_first() + b);
        lemma_encode_utf8_concat(a.drop_first(), b);
        assert(encode_utf8(a + b) == encode_scalar(a[0] as u32) + encode_utf8(a.drop_first() + b));
    } else {
        assert(a + b == b);
        assert(encode_utf8(a) =~= Seq::<u8>::empty());
        assert(Seq::<u8>::empty() + encode_utf8(b) == encode_utf8(b));
    }
}

/// A batch is appended once it holds this many bytes ...
pub const FLUSH_BYTES: usize = 32 * 1024;

/// ... or this many chunks ...
pub const FLUSH_CHUNKS: usize = 32;

/// ... or this long after the last one.
pub const FLUSH_INTERVAL_MS: u64 = 80;

/// Whether a batch of `bytes` bytes in `chunks` chunks, begun
/// `elapsed_ms` milliseconds after the last batch, is appended now.
pub open spec fn flush_due(bytes: nat, chunks: nat, elapsed_ms: nat) -> bool {
    bytes >= FLUSH_BYTES || chunks >= FLUSH_CHUNKS || elapsed_ms >= FLUSH_INTERVAL_MS
}

/// The chunks received since the last batch was appended.
pub struct StreamBatch {
    pub body: String,
    pub chunks: usize,
}

impl StreamBatch {
    /// A batch never holds as many chunks as make it due.
    pub open spec fn wf(&self) -> bool {
        self.chunks < FLUSH_CHUNKS
    }

    /// An empty batch.
    pub fn new() -> (r: StreamBatch)
        ensures
            r.body@.len() == 0,
            r.chunks == 0,
            r.wf(),
    {
        StreamBatch { body: String::new(), chunks: 0 }
    }

    /// Adds a chunk received `elapsed_ms` milliseconds after the last batch
    /// was appended. Returns the batch (its text and number of chunks) when
    /// it is due, and starts a new one.
    pub fn add_chunk(&mut self, chunk: &str, elapsed_ms: u64) -> (r: Option<(String, usize)>)
        requires
            old(self).wf(),
            byte_len(old(self).body@ + chunk@) <= usize::MAX,
        ensures
            final(self).wf(),
            (match r {
                Some(b) => b.0@,
                None => Seq::empty(),
            }) + final(self).body@ == old(self).body@ + chunk@,
            ({
                let body = old(self).body@ + chunk@;
                let n = old(self).chunks + 1;
                if flush_due(byte_len(body), n as nat, elapsed_ms as nat) {
                    &&& r matches Some(b) && b.0@ == body && b.1 == n
                    &&& final(self).body@.len() == 0
                    &&& final(self).chunks == 0
                } else {
                    &&& r is None
                    &&& final(self).body@ == body
                    &&& final(self).chunks == n
                }
            }),
    {
        push_str(&mut self.body, chunk);
        self.chunks = self.chunks + 1;
        let bytes = self.body.as_str().len();
        if bytes >= FLUSH_BYTES || self.chunks >= FLUSH_CHUNKS || elapsed_ms >= FLUSH_INTERVAL_MS {
            let mut body = String::new();
            std::mem::swap(&mut body, &mut self.body);
            let n = self.chunks;
            self.chunks = 0;
            Some((body, n))
        } else {
            None
        }
    }

    /// Takes what is left when the stream ends.
    pub fn take(&mut self) -> (r: (String, usize))
        ensures
            r.0 == old(self).body,
            r.1 == old(self).chunks,
            final(self).body@.len() == 0,
            final(self).chunks == 0,
            final(self).wf(),
    {
        let mut body = String::new();
        std::mem::swap(&mut body, &mut self.body);
        let n = self.chunks;
        self.chunks = 0;
        (body, n)
    }
}

/// The icon that marks an entry of a response's timeline. A batch of
/// streamed chunks is marked as information.
#[derive(Clone, Copy, Debug, PartialEq, Eq, Structural)]
pub enum TimelineIcon {
    Info,
}

/// An entry of a response's timeline.
pub struct TimelineEvent {
    pub name: String,
    pub timestamp: String,
    pub icon: TimelineIcon,
    pub detail: Option<String>,
}

/// The parts of a response that the stream fills in.
pub struct StreamedResponse {
    pub status: u16,
    pub body: String,
    pub size_bytes: usize,
    pub timeline: Vec<TimelineEvent>,
}

/// `<chunks> chunks received (<bytes> B)`.
pub open spec fn batch_label(chunks: nat, bytes: nat) -> Seq<char> {
    decimal(chunks) + " chunks received ("@ + decimal(bytes) + " B)"@
}

/// A time of day as `HH:MM:SS.mmm`.
pub open spec fn is_clock_text(s: Seq<char>) -> bool {
    &&& s.len() == 12
    &&& s[2] == ':' && s[5] == ':' && s[8] == '.'
    &&& forall|i: int|
        0 <= i < 12 && i != 2 && i != 5 && i != 8 ==> '0' <= #[trigger] s[i] && s[i] <= '9'
}

/// The local time of day: `chrono::Local::now()` formatted with
/// `%H:%M:%S.%3f`.
///
/// The value depends on the clock; the contract states only its shape,
/// which the formatter fixes (two-digit hour, minute and second, three
/// digits of milliseconds).
#[verifier::external_body]
fn local_clock_text() -> (r: String)
    ensures
        is_clock_text(r@),
{
    chrono::Local::now().format("%H:%M:%S.%3f").to_string()
}

/// Appends a batch of `chunk_count` chunks with the text `body` to the
/// response, stamped `timestamp`: the body grows, its size is the new
/// byte length, and the timeline records the batch. An empty batch changes
/// nothing and gives `false`.
pub fn append_batch_at(resp: &mut StreamedResponse, body: &str, chunk_count: usize, timestamp: String) -> (r: bool)
    requires
        byte_len(old(resp).body@ + body@) <= usize::MAX,
    ensures
        r == (body@.len() > 0 && chunk_count > 0),
        !r ==> *final(resp) == *old(resp),
        r ==> {
            &&& final(resp).body@ == old(resp).body@ + body@
            &&& final(resp).size_bytes == byte_len(final(resp).body@)
            &&& final(resp).status == old(resp).status
            &&& final(resp).timeline@.len() == old(resp).timeline@.len() + 1
            &&& final(resp).timeline@.take(old(resp).timeline@.len() as int) == old(resp).timeline@
            &&& final(resp).timeline@.last().name@ == batch_label(chunk_count as nat, byte_len(body@))
            &&& final(resp).timeline@.last().timestamp == timestamp
            &&& final(resp).timeline@.last().icon == TimelineIcon::Info
            &&& final(resp).timeline@.last().detail is None
        },
{
    if body.is_empty() || chunk_count == 0 {
        return false;
    }
    proof {
        lemma_encode_utf8_concat(old(resp).body@, body@);
    }
    let byte_count = body.len();
    push_str(&mut resp.body, body);
    resp.size_bytes = resp.body.as_str().len();
    proof {
        reveal_strlit(" chunks received (");
        reveal_strlit(" B)");
    }
    let mut name = decimal_text(chunk_count as u64);
    push_str(&mut name, " chunks received (");
    push_str(&mut name, decimal_text(byte_count as u64).as_str());
    push_str(&mut name, " B)");
    let ghost before = resp.timeline@;
    resp.timeline.push(TimelineEvent { name, timestamp, icon: TimelineIcon::Info, detail: None });
    assert(resp.timeline@.take(before.len() as int) =~= before);
    true
}

/// A batch of a run's streamed body arrives: it is appended to the shown
/// response, stamped with the local time of day (see `append_batch_at`),
/// only when it is not empty, the run is still the request's current one
/// (`run_is_current`), the request is the one whose response the window
/// shows (`is_target`) and there is a response. Otherwise nothing changes
/// and the result is `false`.
pub fn append_stream_batch(
    resp: &mut Option<StreamedResponse>,
    body: &str,
    chunk_count: usize,
    run_is_current: bool,
    is_target: bool,
) -> (r: bool)
    requires
        *old(resp) matches Some(x) ==> byte_len(x.body@ + body@) <= usize::MAX,
    ensures
        r == (body@.len() > 0 && chunk_count > 0 && run_is_current && is_target && (*old(resp)) is Some),
        !r ==> *final(resp) == *old(resp),
        r ==> {
            &&& *old(resp) matches Some(o)
            &&& *final(resp) matches Some(f)
            &&& f.body@ == o.body@ + body@
            &&& f.size_bytes == byte_len(f.body@)
            &&& f.status == o.status
            &&& f.timeline@.len() == o.timeline@.len() + 1
            &&& f.timeline@.take(o.timeline@.len() as int) == o.timeline@
            &&& f.timeline@.last().name@ == batch_label(chunk_count as nat, byte_len(body@))
            &&& is_clock_text(f.timeline@.last().timestamp@)
            &&& f.timeline@.last().icon == TimelineIcon::Info
            &&& f.timeline@.last().detail is None
        },
{
    if body.is_empty() || chunk_count == 0 || !run_is_current || !is_target {
        return false;
    }
    match resp {
        None => false,
        Some(x) => {
            let now = local_clock_text();
            append_batch_at(x, body, chunk_count, now)
        },
    }
}

/// The response panel's part of a run: the response it shows and the
/// error it shows in its place.
pub struct RunView<T, E> {
    pub response: Option<T>,
    pub error: Option<E>,
}

/// A run of a request finishes with `result`. A run that is no longer the
/// request's current one (`run_is_current`) changes nothing. For the
/// current run a response joins the request's `history`, keeping the most
/// recent ones (see `record_response`), and when the request is the one the
/// window shows (`is_target`) a copy of it becomes the shown response; an
/// error of the shown request replaces the shown response.
pub fn finish_run<T: Clone, E>(
    history: &mut Vec<T>,
    view: &mut RunView<T, E>,
    result: Result<T, E>,
    run_is_current: bool,
    is_target: bool,
)
    requires
        old(history)@.len() < usize::MAX,
    ensures
        !run_is_current ==> final(history)@ == old(history)@ && *final(view) == *old(view),
        run_is_current ==> match result {
            Ok(resp) => {
                &&& final(history)@ == recorded(old(history)@, resp)
                &&& final(view).error == old(view).error
                &&& is_target ==> (final(view).response matches Some(s) && cloned(resp, s))
                &&& !is_target ==> final(view).response == old(view).response
            },
            Err(e) => {
                &&& final(history)@ == old(history)@
                &&& is_target ==> final(view).response is None && final(view).error == Some(e)
                &&& !is_target ==> *final(view) == *old(view)
            },
        },
{
    if !run_is_current {
        return;
    }
    match result {
        Ok(resp) => {
            if is_target {
                view.response = Some(resp.clone());
            }
            record_response(history, resp);
        },
        Err(e) => {
            if is_target {
                view.error = Some(e);
                view.response = None;
            }
        },
    }
}

/// How many responses of one request are kept.
pub const MAX_RESPONSE_HISTORY_PER_REQUEST: usize = 20;

/// The history after recording `resp`: the most recent responses, at most
/// the limit, oldest first.
pub open spec fn recorded<T>(history: Seq<T>, resp: T) -> Seq<T> {
    let all = history.push(resp);
    if all.len() > MAX_RESPONSE_HISTORY_PER_REQUEST {
        all.skip(all.len() - MAX_RESPONSE_HISTORY_PER_REQUEST)
    } else {
        all
    }
}

/// Records a finished response in its request's history, dropping the
/// oldest ones beyond the limit.
pub fn record_response<T>(history: &mut Vec<T>, resp: T)
    requires
        old(history)@.len() < usize::MAX,
    ensures
        final(history)@ == recorded(old(history)@, resp),
{
    let ghost all = old(history)@.push(resp);
    history.push(resp);
    assert(all.skip(0) == all);
    while history.len() > MAX_RESPONSE_HISTORY_PER_REQUEST
        invariant
            all.len() > MAX_RESPONSE_HISTORY_PER_REQUEST ==> history@.len() >= MAX_RESPONSE_HISTORY_PER_REQUEST,
            all.len() >= history@.len(),
            all.len() <= MAX_RESPONSE_HISTORY_PER_REQUEST ==> history@ == all,
            history@ == all.skip(all.len() - history@.len()),
        decreases history.len(),
    {
        let ghost before = history@;
        history.remove(0);
        assert(history@ =~= all.skip(all.len() - history@.len()));
    }
    proof {
        if all.len() <= MAX_RESPONSE_HISTORY_PER_REQUEST {
            assert(all.skip(0) == all);
        }
    }
}

/// The history never holds more than the limit, ends with the response
/// just recorded, and keeps the responses in the order they came.
pub proof fn law_history_bounded<T>(history: Seq<T>, resp: T)
    requires
        history.len() <= MAX_RESPONSE_HISTORY_PER_REQUEST,
    ensures
        recorded(history, resp).len() <= MAX_RESPONSE_HISTORY_PER_REQUEST,
        recorded(history, resp).last() == resp,
        recorded(history, resp).drop_last() == if history.len() == MAX_RESPONSE_HISTORY_PER_REQUEST {
            history.drop_first()
        } else {
            history
        },
{
    let all = history.push(resp);
    if all.len() > MAX_RESPONSE_HISTORY_PER_REQUEST {
        assert(all.skip(1).drop_last() =~= history.drop_first());
    } else {
        assert(all.drop_last() =~= history);
    }
}

} // verus!
