//! The order of the exchanges that make up one operation on a worker.
//!
//! An exchange sends at most one line and then, if it names a sentinel, reads
//! lines until the worker prints it. A task is the one-time handshake, if it
//! is still due, then the payload phase, if there is a payload, then the
//! command.

use crate::frame::{chunk_payload, chunks_of, line_end, texts, Sentinel};
use crate::payload::{payload_text, Payload};
use vstd::prelude::*;
use vstd::string::*;

verus! {

/// One step of the conversation with a worker.
#[derive(Clone, Debug, PartialEq, Eq)]
pub struct Exchange {
    /// The line to write, line end included, if any.
    pub send: Option<String>,
    /// The sentinel to read up to, if any.
    pub wait: Option<Sentinel>,
}

/// The mathematical model of an [`Exchange`].
pub struct ExchangeView {
    pub send: Option<Seq<char>>,
    pub wait: Option<Sentinel>,
}

impl View for Exchange {
    type V = ExchangeView;

    open spec fn view(&self) -> ExchangeView {
        ExchangeView {
            send: match self.send {
                Some(line) => Some(line@),
                None => None,
            },
            wait: self.wait,
        }
    }
}

/// The models of a sequence of exchanges.
pub open spec fn exchange_views(script: Seq<Exchange>) -> Seq<ExchangeView> {
    script.map_values(|e: Exchange| e@)
}

/// The one-time handshake: nothing is sent, and `READY` is awaited.
pub open spec fn handshake() -> ExchangeView {
    ExchangeView { send: None, wait: Some(Sentinel::Ready) }
}

/// The line that carries one chunk of the payload text.
pub open spec fn chunk_line(chunk: Seq<char>) -> Seq<char> {
    "PAYLOAD_CHUNK: "@ + chunk + line_end()
}

/// The exchange that sends one chunk of the payload text. No answer is
/// awaited.
pub open spec fn chunk_exchange(chunk: Seq<char>) -> ExchangeView {
    ExchangeView { send: Some(chunk_line(chunk)), wait: None }
}

/// The exchange that ends the payload phase.
pub open spec fn payload_end() -> ExchangeView {
    ExchangeView { send: Some("PAYLOAD_END"@ + line_end()), wait: Some(Sentinel::PayloadOk) }
}

/// The line that names the task to run.
pub open spec fn command_line(cmd: Seq<char>) -> Seq<char> {
    "CMD: "@ + cmd + line_end()
}

/// The exchange that runs the task `cmd` and collects its result.
pub open spec fn command_exchange(cmd: Seq<char>) -> ExchangeView {
    ExchangeView { send: Some(command_line(cmd)), wait: Some(Sentinel::TaskOk) }
}

/// The handshake, if it is still due.
pub open spec fn handshake_script(ready: bool) -> Seq<ExchangeView> {
    if ready {
        Seq::empty()
    } else {
        seq![handshake()]
    }
}

/// The payload phase for the payload text `text`: one exchange per chunk, in
/// order, then the trailer.
pub open spec fn payload_script(text: Seq<char>) -> Seq<ExchangeView> {
    chunks_of(text).map_values(|chunk: Seq<char>| chunk_exchange(chunk)).push(payload_end())
}

/// The exchanges of one task on a worker: the handshake unless the worker is
/// `ready`, the payload phase unless there is no payload, then the command.
pub open spec fn task_script(ready: bool, cmd: Seq<char>, text: Option<Seq<char>>) -> Seq<
    ExchangeView,
> {
    handshake_script(ready) + (match text {
        Some(t) => payload_script(t),
        None => Seq::empty(),
    }) + seq![command_exchange(cmd)]
}

/// Frames `text` as one line that begins with `prefix`.
pub fn frame_line(prefix: &str, text: &str) -> (line: String)
    ensures
        line@ == prefix@ + text@ + line_end(),
{
    let mut line = String::from_str(prefix);
    line.append(text);
    line.append("\n");
    line
}

/// Builds the handshake, if it is still due.
pub fn build_handshake_script(ready: bool) -> (script: Vec<Exchange>)
    ensures
        exchange_views(script@) == handshake_script(ready),
{
    let mut script: Vec<Exchange> = Vec::new();
    if !ready {
        script.push(Exchange { send: None, wait: Some(Sentinel::Ready) });
    }
    assert(exchange_views(script@) =~= handshake_script(ready));
    script
}

/// Builds the exchanges of one task, in the order in which they take place.
pub fn build_task_script(ready: bool, cmd: &str, payload: &Payload) -> (script: Vec<Exchange>)
    ensures
        exchange_views(script@) == task_script(ready, cmd@, payload_text(payload@)),
{
    let mut script = build_handshake_script(ready);
    let ghost head = exchange_views(script@);
    let text = payload.to_text();
    match &text {
        Some(t) => {
            let chunks = chunk_payload(t.as_str());
            let mut i: usize = 0;
            while i < chunks.len()
                invariant
                    i <= chunks.len(),
                    texts(chunks@) == chunks_of(t@),
                    exchange_views(script@) == head + chunks_of(t@).take(i as int).map_values(
                        |chunk: Seq<char>| chunk_exchange(chunk),
                    ),
                decreases chunks.len() - i,
            {
                let ghost before = exchange_views(script@);
                let line = frame_line("PAYLOAD_CHUNK: ", chunks[i].as_str());
                script.push(Exchange { send: Some(line), wait: None });
                proof {
                    assert(texts(chunks@)[i as int] == chunks@[i as int]@);
                    assert(exchange_views(script@) =~= before.push(
                        chunk_exchange(chunks_of(t@)[i as int]),
                    ));
                    assert(chunks_of(t@).take(i + 1).map_values(
                        |chunk: Seq<char>| chunk_exchange(chunk),
                    ) =~= chunks_of(t@).take(i as int).map_values(
                        |chunk: Seq<char>| chunk_exchange(chunk),
                    ).push(chunk_exchange(chunks_of(t@)[i as int])));
                }
                i = i + 1;
            }
            let ghost before = exchange_views(script@);
            let trailer = frame_line("PAYLOAD_END", "");
            script.push(Exchange { send: Some(trailer), wait: Some(Sentinel::PayloadOk) });
            proof {
                assert(chunks_of(t@).take(chunks@.len() as int) =~= chunks_of(t@));
                assert("PAYLOAD_END"@ + ""@ + line_end() =~= "PAYLOAD_END"@ + line_end()) by {
                    reveal_strlit("");
                }
                assert(exchange_views(script@) =~= before.push(payload_end()));
                assert(exchange_views(script@) =~= head + payload_script(t@));
            }
        },
        None => {
            assert(exchange_views(script@) =~= head + Seq::<ExchangeView>::empty());
        },
    }
    let ghost before = exchange_views(script@);
    let line = frame_line("CMD: ", cmd);
    script.push(Exchange { send: Some(line), wait: Some(Sentinel::TaskOk) });
    assert(exchange_views(script@) =~= before.push(command_exchange(cmd@)));
    assert(exchange_views(script@) =~= task_script(ready, cmd@, payload_text(payload@)));
    script
}

} // verus!
