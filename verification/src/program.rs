//! Programs in a sandbox: the request that starts one, its replay transcript, and what it reports.

use vstd::prelude::*;
use vstd::string::*;
use base64::Engine;
use crate::config::SANDBOX_MAX_CODE_BYTES;
use crate::error::{joined3, ErrorView, ToolRuntimeError};
use crate::json::{Json, JsonView};
use crate::output::{bound_replay_output, bounded, bounded_output_fits};
use crate::{json, serde_value, text};

verus! {

/// What every line of the protocol begins with.
pub const PROTOCOL_PREFIX: &'static str = "__AGENTGATEWAY_PTC_V1__";

pub const PROTOCOL_VERSION: u64 = 1;

pub const MAX_ERROR_BYTES: usize = 1024;

pub const MAX_NONCE_BYTES: usize = 128;

/// The text of bytes in base64 with the standard alphabet.
pub uninterp spec fn base64_encoded(bytes: Seq<u8>) -> Seq<char>;

/// The bytes of a text in base64 with the URL-safe alphabet and no padding.
pub uninterp spec fn base64_url_decoded(source: Seq<char>) -> Option<Seq<u8>>;

/// `base64::engine::general_purpose::STANDARD.encode`: the text of the bytes, with the standard
/// alphabet and padding. It panics where the length of the text does not fit.
#[verifier::external_body]
pub(crate) fn encode_base64(bytes: &[u8]) -> (r: String)
    requires
        bytes@.len() <= usize::MAX / 2,
    ensures
        r@ == base64_encoded(bytes@),
{
    base64::engine::general_purpose::STANDARD.encode(bytes)
}

/// `base64::engine::general_purpose::URL_SAFE_NO_PAD.decode`: the bytes of the text, where it is
/// base64 with the URL-safe alphabet and no padding.
#[verifier::external_body]
fn decode_base64_url(source: &str) -> (r: Option<Vec<u8>>)
    ensures
        match r {
            Some(bytes) => base64_url_decoded(source@) == Some(bytes@),
            None => base64_url_decoded(source@) is None,
        },
{
    base64::engine::general_purpose::URL_SAFE_NO_PAD.decode(source).ok()
}

/// A call of a program and what it gave back.
pub struct ProgramReplayEntry {
    pub sequence: usize,
    pub public_name: String,
    pub arguments: Json,
    pub output: Json,
}

pub struct EntryView {
    pub sequence: nat,
    pub public_name: Seq<char>,
    pub arguments: JsonView,
    pub output: JsonView,
}

impl ProgramReplayEntry {
    pub open spec fn view(&self) -> EntryView {
        EntryView {
            sequence: self.sequence as nat,
            public_name: self.public_name@,
            arguments: self.arguments@,
            output: self.output@,
        }
    }
}

pub open spec fn replay_views(replay: Seq<ProgramReplayEntry>) -> Seq<EntryView> {
    Seq::new(replay.len(), |i: int| replay[i].view())
}

/// An entry as JSON, up to its output.
pub open spec fn entry_head(entry: EntryView) -> Seq<char> {
    "{\"sequence\":"@ + text::decimal(entry.sequence) + ",\"name\":"@ + serde_value::json_text(
        JsonView::Text(entry.public_name),
    ) + ",\"arguments\":"@ + serde_value::json_text(entry.arguments) + ",\"output\":"@
}

/// An entry as JSON.
pub open spec fn entry_text(entry: EntryView) -> Seq<char> {
    entry_head(entry) + serde_value::json_text(entry.output) + "}"@
}

pub open spec fn entry_texts(replay: Seq<EntryView>) -> Seq<Seq<char>> {
    Seq::new(replay.len(), |i: int| entry_text(replay[i]))
}

/// A transcript as JSON.
pub open spec fn replay_text(replay: Seq<EntryView>) -> Seq<char> {
    "["@ + serde_value::comma_joined(entry_texts(replay)) + "]"@
}

pub open spec fn replay_size(replay: Seq<EntryView>) -> nat {
    text::byte_len(replay_text(replay))
}

fn write_entry(entry: &ProgramReplayEntry) -> (r: String)
    ensures
        r@ == entry_text(entry@),
{
    let mut r = "{\"sequence\":".to_owned();
    r.append(text::decimal_text(entry.sequence as u64).as_str());
    r.append(",\"name\":");
    r.append(serde_value::print(&Json::Text(entry.public_name.clone())).as_str());
    r.append(",\"arguments\":");
    r.append(serde_value::print(&entry.arguments).as_str());
    r.append(",\"output\":");
    r.append(serde_value::print(&entry.output).as_str());
    r.append("}");
    r
}

/// Writes a transcript, one more entry behind it where there is one.
fn write_replay(replay: &Vec<ProgramReplayEntry>, last: Option<&ProgramReplayEntry>) -> (r: String)
    ensures
        r@ == replay_text(
            match last {
                Some(entry) => replay_views(replay@).push(entry@),
                None => replay_views(replay@),
            },
        ),
{
    let ghost all = replay_views(replay@);
    let ghost texts = entry_texts(all);
    let mut r = String::new();
    let mut i: usize = 0;
    assert(texts.take(0) =~= Seq::empty());
    while i < replay.len()
        invariant
            all == replay_views(replay@),
            texts == entry_texts(all),
            i <= replay@.len(),
            r@ == serde_value::comma_joined(texts.take(i as int)),
        decreases replay@.len() - i,
    {
        assert(texts.take(i + 1).drop_last() =~= texts.take(i as int));
        assert(texts.take(i + 1).last() == entry_text(replay@[i as int]@));
        if i > 0 {
            r.append(",");
            r.append(write_entry(&replay[i]).as_str());
        } else {
            r = write_entry(&replay[i]);
        }
        i += 1;
    }
    assert(texts.take(i as int) =~= texts);
    if let Some(entry) = last {
        let ghost longer = entry_texts(all.push(entry@));
        proof {
            assert(longer.drop_last() =~= texts);
            assert(longer.last() == entry_text(entry@));
        }
        if i > 0 {
            r.append(",");
            r.append(write_entry(entry).as_str());
        } else {
            r = write_entry(entry);
        }
    }
    joined3("[", r.as_str(), "]")
}

/// Two transcripts that differ in the output of their last entries differ in size by as much.
proof fn lemma_output_size(replay: Seq<EntryView>, entry: EntryView, other: JsonView)
    ensures
        replay_size(replay.push(EntryView { output: other, ..entry })) == replay_size(
            replay.push(entry),
        ) - serde_value::json_size(entry.output) + serde_value::json_size(other),
{
    let changed = EntryView { output: other, ..entry };
    lemma_last_size(replay, entry);
    lemma_last_size(replay, changed);
    lemma_entry_size(entry);
    lemma_entry_size(changed);
    assert(entry_head(entry) == entry_head(changed));
}

proof fn lemma_entry_size(entry: EntryView)
    ensures
        text::byte_len(entry_text(entry)) == text::byte_len(entry_head(entry))
            + serde_value::json_size(entry.output) + text::byte_len("}"@),
{
    text::lemma_encode_concat(entry_head(entry) + serde_value::json_text(entry.output), "}"@);
    text::lemma_encode_concat(entry_head(entry), serde_value::json_text(entry.output));
}

proof fn lemma_last_size(replay: Seq<EntryView>, entry: EntryView)
    ensures
        replay_size(replay.push(entry)) == 2 + serde_value::text_sizes(entry_texts(replay))
            + text::byte_len(entry_text(entry)) + replay.len(),
{
    let all = entry_texts(replay.push(entry));
    assert(all.drop_last() =~= entry_texts(replay));
    assert(all.last() == entry_text(entry));
    serde_value::lemma_comma_joined_size(all);
    text::lemma_encode_concat("["@ + serde_value::comma_joined(all), "]"@);
    text::lemma_encode_concat("["@, serde_value::comma_joined(all));
    text::lemma_one_byte("[");
    text::lemma_one_byte("]");
}

/// The output that stands for one that does not fit.
pub open spec fn truncated_output() -> JsonView {
    JsonView::empty().with("ok"@, JsonView::Bool(false)).with(
        "error"@,
        JsonView::empty().with("type"@, JsonView::Text("output_truncated"@)).with(
            "message"@,
            JsonView::Text("tool output did not fit in the program replay transcript"@),
        ).with("retryable"@, JsonView::Bool(false)),
    ).with("truncated"@, JsonView::Bool(true))
}

fn replay_truncated_output() -> (r: Json)
    ensures
        r@ == truncated_output(),
{
    let error = Json::object().having("type", Json::text("output_truncated")).having(
        "message",
        Json::text("tool output did not fit in the program replay transcript"),
    ).having("retryable", Json::Bool(false));
    Json::object().having("ok", Json::Bool(false)).having("error", error).having(
        "truncated",
        Json::Bool(true),
    )
}

/// Whether one more call fits into a transcript, if need be without its output.
pub open spec fn has_capacity(replay: Seq<EntryView>, entry: EntryView, max: nat) -> bool {
    replay_size(replay.push(EntryView { output: truncated_output(), ..entry })) <= max
}

fn copy_entry(entry: &ProgramReplayEntry, output: Json) -> (r: ProgramReplayEntry)
    ensures
        r@ == (EntryView { output: output@, ..entry@ }),
{
    ProgramReplayEntry {
        sequence: entry.sequence,
        public_name: entry.public_name.clone(),
        arguments: entry.arguments.clone(),
        output,
    }
}

/// Whether one more call fits into a transcript, if need be without its output.
pub fn has_replay_entry_capacity(
    replay: &Vec<ProgramReplayEntry>,
    entry: &ProgramReplayEntry,
    max_bytes: usize,
) -> (r: bool)
    ensures
        r == has_capacity(replay_views(replay@), entry@, max_bytes as nat),
{
    let candidate = copy_entry(entry, replay_truncated_output());
    text::byte_length(write_replay(replay, Some(&candidate)).as_str()) <= max_bytes
}

/// An entry whose output leaves the transcript within its limit.
pub open spec fn fitted(replay: Seq<EntryView>, entry: EntryView, max: nat) -> Result<
    EntryView,
    ErrorView,
> {
    let envelope = replay_size(replay.push(EntryView { output: JsonView::Null, ..entry }));
    let room = (max - envelope + 4) as nat;
    if replay_size(replay.push(entry)) <= max {
        Ok(entry)
    } else if envelope > max || room > usize::MAX {
        Err(
            ErrorView::invalid_request(
                "programmatic replay has no capacity for another tool result"@,
            ),
        )
    } else {
        Ok(
            EntryView {
                output: match entry.output {
                    JsonView::Object(fields) => match bounded(fields, room, true) {
                        Ok(smaller) => JsonView::Object(smaller),
                        Err(_) => truncated_output(),
                    },
                    _ => truncated_output(),
                },
                ..entry
            },
        )
    }
}

/// An entry as it is kept: the same call, and where its output was brought down, an output that says
/// so.
pub open spec fn keeps_call(entry: EntryView, kept: EntryView) -> bool {
    &&& kept.sequence == entry.sequence
    &&& kept.public_name == entry.public_name
    &&& kept.arguments == entry.arguments
}

/// The output that stands for one that does not fit says so, and has more than one field.
proof fn lemma_truncated_output()
    ensures
        truncated_output() is Object,
        truncated_output().get("truncated"@) == Some(JsonView::Bool(true)),
        truncated_output()->Object_0.len() >= 2,
{
    reveal_strlit("ok");
    reveal_strlit("error");
    reveal_strlit("truncated");
    assert("ok"@.len() != "error"@.len() && "ok"@.len() != "truncated"@.len());
    let yes = JsonView::Bool(true);
    let no = JsonView::Bool(false);
    let error = JsonView::empty().with("type"@, JsonView::Text("output_truncated"@)).with(
        "message"@,
        JsonView::Text("tool output did not fit in the program replay transcript"@),
    ).with("retryable"@, no);
    let marked = JsonView::empty().with("ok"@, no);
    let told = marked.with("error"@, error);
    json::a_field_reads_back_what_was_set(JsonView::empty()->Object_0, "ok"@, no, "ok"@);
    json::a_field_reads_back_what_was_set(marked->Object_0, "error"@, error, "ok"@);
    json::a_field_reads_back_what_was_set(told->Object_0, "truncated"@, yes, "ok"@);
    let fields = truncated_output()->Object_0;
    let i = json::lemma_field_place(fields, "ok"@);
    let j = json::lemma_field_place(fields, "truncated"@);
    assert(i != j);
}

/// Brings the output of an entry down so that the transcript stays within its limit. Where there
/// was capacity for the call, this succeeds: the transcript with the entry is within the limit, and
/// an output that was brought down says so.
pub fn fit_replay_entry(
    replay: &Vec<ProgramReplayEntry>,
    entry: ProgramReplayEntry,
    max_bytes: usize,
) -> (r: Result<ProgramReplayEntry, ToolRuntimeError>)
    ensures
        match r {
            Ok(after) => fitted(replay_views(replay@), entry@, max_bytes as nat) == Ok::<
                EntryView,
                ErrorView,
            >(after@),
            Err(error) => fitted(replay_views(replay@), entry@, max_bytes as nat) == Err::<
                EntryView,
                ErrorView,
            >(error@),
        },
        r is Ok ==> keeps_call(entry@, r->Ok_0@),
        has_capacity(replay_views(replay@), entry@, max_bytes as nat) ==> {
            &&& r is Ok
            &&& replay_size(replay_views(replay@).push(r->Ok_0@)) <= max_bytes
        },
        replay_size(replay_views(replay@).push(entry@)) <= max_bytes ==> r is Ok && r->Ok_0@
            == entry@,
        r is Ok && replay_size(replay_views(replay@).push(entry@)) > max_bytes
            ==> r->Ok_0@.output.get("truncated"@) == Some(JsonView::Bool(true)),
{
    let ghost all = replay_views(replay@);
    let ghost whole = entry@;
    if text::byte_length(write_replay(replay, Some(&entry)).as_str()) <= max_bytes {
        return Ok(entry);
    }
    let nothing = serde_value::print(&Json::Null);
    let least = serde_value::print(&replay_truncated_output());
    proof {
        text::lemma_null_bytes();
        lemma_truncated_output();
        serde_value::lemma_object_size(truncated_output()->Object_0, least@);
        let bare = EntryView { output: JsonView::Null, ..whole };
        lemma_output_size(all, bare, truncated_output());
        lemma_output_size(all, bare, whole.output);
        lemma_last_size(all, bare);
        lemma_entry_size(bare);
    }
    let empty = copy_entry(&entry, Json::Null);
    let envelope_bytes: usize = text::byte_length(write_replay(replay, Some(&empty)).as_str());
    let room: Option<usize> = match max_bytes.checked_sub(envelope_bytes) {
        Some(remaining) => remaining.checked_add(4),
        None => None,
    };
    let output_bytes: usize = match room {
        Some(output_bytes) => output_bytes,
        None => {
            return Err(
                ToolRuntimeError::invalid_request(
                    "programmatic replay has no capacity for another tool result",
                ),
            );
        },
    };
    let ProgramReplayEntry { sequence, public_name, arguments, output } = entry;
    // The fields of every object ascend.
    if let Json::Object(object) = &output {
        let _ = object.len();
    }
    let bound = match bound_replay_output(output, output_bytes) {
        Ok(output) => output,
        Err(_) => replay_truncated_output(),
    };
    proof {
        if let JsonView::Object(fields) = whole.output {
            bounded_output_fits(fields, output_bytes as nat, true, Seq::empty(), true);
        }
        lemma_output_size(all, EntryView { output: JsonView::Null, ..whole }, bound@);
    }
    Ok(ProgramReplayEntry { sequence, public_name, arguments, output: bound })
}

/// What a sandbox is asked to run, and with which environment.
pub struct ProgramSandboxRequest {
    pub source: String,
    pub env_vars: Json,
}

/// Whether a nonce is short and plain.
pub open spec fn is_nonce(nonce: Seq<char>) -> bool {
    &&& nonce.len() > 0
    &&& text::byte_len(nonce) <= MAX_NONCE_BYTES
    &&& forall|i: int| 0 <= i < nonce.len() ==> text::is_alphanumeric(#[trigger] nonce[i])
        || nonce[i] == '-'
}

fn check_nonce(nonce: &str) -> (r: bool)
    ensures
        r == is_nonce(nonce@),
{
    if nonce.is_empty() || text::byte_length(nonce) > MAX_NONCE_BYTES {
        return false;
    }
    let chars = text::chars_of(nonce);
    let mut i: usize = 0;
    while i < chars.len()
        invariant
            chars@ == nonce@,
            i <= chars@.len(),
            forall|j: int| 0 <= j < i ==> text::is_alphanumeric(#[trigger] nonce@[j]) || nonce@[j]
                == '-',
        decreases chars@.len() - i,
    {
        assert(nonce@[i as int] == chars@[i as int]);
        if !(text::alphanumeric(chars[i]) || chars[i] == '-') {
            return false;
        }
        i += 1;
    }
    true
}

/// The environment of a program.
pub open spec fn program_environment(code: Seq<char>, replay: Seq<EntryView>, nonce: Seq<char>) -> JsonView {
    JsonView::empty().with(
        "AGENTGATEWAY_PTC_CODE"@,
        JsonView::Text(base64_encoded(vstd::utf8::encode_utf8(code))),
    ).with(
        "AGENTGATEWAY_PTC_REPLAY"@,
        JsonView::Text(base64_encoded(vstd::utf8::encode_utf8(replay_text(replay)))),
    ).with("AGENTGATEWAY_PTC_NONCE"@, JsonView::Text(nonce))
}

/// What is wrong with a program, its transcript and its nonce.
pub open spec fn program_complaint(
    code: Seq<char>,
    replay: Seq<EntryView>,
    nonce: Seq<char>,
    max: nat,
) -> Option<ErrorView> {
    if text::byte_len(code) > SANDBOX_MAX_CODE_BYTES {
        Some(ErrorView::invalid_request("programmatic code exceeds the 32768-byte limit"@))
    } else if !is_nonce(nonce) {
        Some(ErrorView::internal())
    } else if replay_size(replay) > max {
        Some(
            ErrorView::invalid_request("programmatic replay exceeds the configured output limit"@),
        )
    } else {
        None
    }
}

/// Builds what a sandbox is asked to run: the wrapper, which finds the program, its transcript and
/// its nonce in the environment.
pub fn build_sandbox_request(
    wrapper: &str,
    code: &str,
    replay: &Vec<ProgramReplayEntry>,
    nonce: &str,
    max_bytes: usize,
) -> (r: Result<ProgramSandboxRequest, ToolRuntimeError>)
    requires
        replay_size(replay_views(replay@)) <= usize::MAX / 2,
    ensures
        match program_complaint(code@, replay_views(replay@), nonce@, max_bytes as nat) {
            Some(error) => r is Err && r->Err_0@ == error,
            None => r is Ok && r->Ok_0.source@ == wrapper@ && r->Ok_0.env_vars@
                == program_environment(code@, replay_views(replay@), nonce@),
        },
{
    if text::byte_length(code) > SANDBOX_MAX_CODE_BYTES {
        return Err(
            ToolRuntimeError::invalid_request("programmatic code exceeds the 32768-byte limit"),
        );
    }
    if !check_nonce(nonce) {
        return Err(ToolRuntimeError::internal());
    }
    let written = write_replay(replay, None);
    if text::byte_length(written.as_str()) > max_bytes {
        return Err(
            ToolRuntimeError::invalid_request(
                "programmatic replay exceeds the configured output limit",
            ),
        );
    }
    let encoded_code = encode_base64(code.as_bytes());
    let encoded_replay = encode_base64(written.as_str().as_bytes());
    let env_vars = Json::object().having("AGENTGATEWAY_PTC_CODE", Json::Text(encoded_code)).having(
        "AGENTGATEWAY_PTC_REPLAY",
        Json::Text(encoded_replay),
    ).having("AGENTGATEWAY_PTC_NONCE", Json::text(nonce));
    Ok(ProgramSandboxRequest { source: wrapper.to_owned(), env_vars })
}

/// Whether a transcript is longer than any text can be: no text takes more than half of what the
/// machine can address.
pub open spec fn is_endless(replay: Seq<EntryView>) -> bool {
    replay_size(replay) > usize::MAX / 2
}

/// Builds what a sandbox is asked to run, as `build_sandbox_request` does, for every transcript that
/// a text can hold.
pub fn sandbox_request(
    wrapper: &str,
    code: &str,
    replay: &Vec<ProgramReplayEntry>,
    nonce: &str,
    max_bytes: usize,
) -> (r: Result<ProgramSandboxRequest, ToolRuntimeError>)
    ensures
        if is_endless(replay_views(replay@)) {
            r is Err && r->Err_0@ == ErrorView::internal()
        } else {
            match program_complaint(code@, replay_views(replay@), nonce@, max_bytes as nat) {
                Some(error) => r is Err && r->Err_0@ == error,
                None => r is Ok && r->Ok_0.source@ == wrapper@ && r->Ok_0.env_vars@
                    == program_environment(code@, replay_views(replay@), nonce@),
            }
        },
{
    if text::byte_length(write_replay(replay, None).as_str()) > usize::MAX / 2 {
        return Err(ToolRuntimeError::internal());
    }
    build_sandbox_request(wrapper, code, replay, nonce, max_bytes)
}

/// What a program reports.
pub enum ProgramOutcome {
    Pending { sequence: usize, public_name: String, arguments: Json },
    Completed(Json),
    ContractError { message: String },
    ApplicationError { error_type: String, message: String },
}

pub enum OutcomeView {
    Pending { sequence: nat, public_name: Seq<char>, arguments: JsonView },
    Completed(JsonView),
    ContractError { message: Seq<char> },
    ApplicationError { error_type: Seq<char>, message: Seq<char> },
}

impl ProgramOutcome {
    pub open spec fn view(&self) -> OutcomeView {
        match *self {
            ProgramOutcome::Pending { sequence, public_name, arguments } => OutcomeView::Pending {
                sequence: sequence as nat,
                public_name: public_name@,
                arguments: arguments@,
            },
            ProgramOutcome::Completed(value) => OutcomeView::Completed(value@),
            ProgramOutcome::ContractError { message } => OutcomeView::ContractError {
                message: message@,
            },
            ProgramOutcome::ApplicationError { error_type, message } =>
            OutcomeView::ApplicationError { error_type: error_type@, message: message@ },
        }
    }
}

pub open spec fn outcome_result(r: Result<ProgramOutcome, ToolRuntimeError>) -> Result<
    OutcomeView,
    ErrorView,
> {
    match r {
        Ok(outcome) => Ok(outcome@),
        Err(error) => Err(error@),
    }
}

/// The smaller of a number and the largest that fits.
pub open spec fn capped(n: int) -> usize {
    if n > usize::MAX {
        usize::MAX
    } else {
        n as usize
    }
}

/// How many characters base64 without padding takes for so many bytes.
pub open spec fn base64_length(bytes: nat) -> nat {
    bytes / 3 * 4 + (if bytes % 3 == 0 {
        0nat
    } else if bytes % 3 == 1 {
        2nat
    } else {
        3nat
    })
}

/// How much a program may print: one frame, its line end, and nothing else.
pub open spec fn stdout_limit(payload: nat, nonce: nat) -> usize {
    capped((base64_length(payload) + text::byte_len(PROTOCOL_PREFIX@) + nonce + 2) as int)
}

fn protocol_stdout_max_bytes(max_payload_bytes: usize, nonce_bytes: usize) -> (r: usize)
    ensures
        r == stdout_limit(max_payload_bytes as nat, nonce_bytes as nat),
{
    let tail: usize = match max_payload_bytes % 3 {
        0 => 0,
        1 => 2,
        _ => 3,
    };
    let groups: usize = max_payload_bytes / 3;
    let encoded: usize = if groups > usize::MAX / 4 {
        usize::MAX
    } else {
        groups * 4
    };
    encoded.saturating_add(tail).saturating_add(text::byte_length(PROTOCOL_PREFIX)).saturating_add(
        nonce_bytes,
    ).saturating_add(2)
}

/// How much a program may print, whatever its nonce.
pub fn program_protocol_stdout_max_bytes(max_payload_bytes: usize) -> (r: usize)
    ensures
        r == stdout_limit(max_payload_bytes as nat, MAX_NONCE_BYTES as nat),
{
    protocol_stdout_max_bytes(max_payload_bytes, MAX_NONCE_BYTES)
}

/// A text of the protocol, bounded; the fallback where there is none.
pub open spec fn protocol_text(value: Option<JsonView>, fallback: Seq<char>) -> Seq<char> {
    text::truncated(
        match value {
            Some(JsonView::Text(s)) => s,
            _ => fallback,
        },
        MAX_ERROR_BYTES as nat,
    )
}

fn bounded_protocol_string(payload: &Json, key: &str, fallback: &str) -> (r: String)
    ensures
        r@ == protocol_text(payload@.get(key@), fallback@),
{
    let value = match payload.text_at(key) {
        Some(s) => s,
        None => fallback,
    };
    text::truncate_utf8(value, MAX_ERROR_BYTES)
}

/// What the payload of a frame reports.
pub open spec fn payload_outcome(payload: JsonView) -> Result<OutcomeView, ErrorView> {
    let kind = payload.text_at("kind"@);
    let sequence = match payload.get("sequence"@) {
        Some(found) => found.as_u64(),
        None => None,
    };
    let name = payload.text_at("name"@);
    let arguments = payload.get("arguments"@);
    let version = match payload.get("version"@) {
        Some(found) => found.as_u64(),
        None => None,
    };
    if version != Some(PROTOCOL_VERSION) {
        Err(
            ErrorView::invalid_request("program sandbox returned an unsupported protocol version"@),
        )
    } else if kind == Some("pending"@) {
        if sequence is None || sequence->0 > usize::MAX {
            Err(ErrorView::invalid_request("invalid pending sequence"@))
        } else if name is None || name->0.len() == 0 {
            Err(ErrorView::invalid_request("invalid pending tool name"@))
        } else if arguments is None || !(arguments->0 is Object) {
            Err(ErrorView::invalid_request("invalid pending arguments"@))
        } else {
            Ok(
                OutcomeView::Pending {
                    sequence: sequence->0 as nat,
                    public_name: name->0,
                    arguments: arguments->0,
                },
            )
        }
    } else if kind == Some("completed"@) {
        Ok(
            OutcomeView::Completed(
                match payload.get("output"@) {
                    Some(output) => output,
                    None => JsonView::Null,
                },
            ),
        )
    } else if kind == Some("contract_error"@) {
        Ok(
            OutcomeView::ContractError {
                message: protocol_text(
                    payload.get("message"@),
                    "program replay contract failed"@,
                ),
            },
        )
    } else if kind == Some("error"@) {
        Ok(
            OutcomeView::ApplicationError {
                error_type: protocol_text(payload.get("error_type"@), "program_error"@),
                message: protocol_text(payload.get("message"@), "program execution failed"@),
            },
        )
    } else {
        Err(ErrorView::invalid_request("program sandbox returned an invalid outcome kind"@))
    }
}

/// Reads what the payload of a frame reports.
pub fn read_payload(payload: &Json) -> (r: Result<ProgramOutcome, ToolRuntimeError>)
    ensures
        outcome_result(r) == payload_outcome(payload@),
{
    let version = match payload.get("version") {
        Some(found) => found.as_u64(),
        None => None,
    };
    let supported = match version {
        Some(version) => version == PROTOCOL_VERSION,
        None => false,
    };
    if !supported {
        return Err(
            ToolRuntimeError::invalid_request(
                "program sandbox returned an unsupported protocol version",
            ),
        );
    }
    let kind = match payload.text_at("kind") {
        Some(kind) => kind,
        None => {
            return Err(
                ToolRuntimeError::invalid_request(
                    "program sandbox returned an invalid outcome kind",
                ),
            );
        },
    };
    if text::same_text(kind, "pending") {
        let found = match payload.get("sequence") {
            Some(found) => found.as_u64(),
            None => None,
        };
        let sequence: usize = match found {
            Some(sequence) => {
                if sequence > usize::MAX as u64 {
                    return Err(ToolRuntimeError::invalid_request("invalid pending sequence"));
                }
                sequence as usize
            },
            None => {
                return Err(ToolRuntimeError::invalid_request("invalid pending sequence"));
            },
        };
        let public_name = match payload.text_at("name") {
            Some(name) => name,
            None => "",
        };
        if public_name.is_empty() {
            proof {
                reveal_strlit("");
            }
            return Err(ToolRuntimeError::invalid_request("invalid pending tool name"));
        }
        proof {
            reveal_strlit("");
        }
        return match payload.get("arguments") {
            Some(arguments) => {
                if arguments.is_object() {
                    Ok(
                        ProgramOutcome::Pending {
                            sequence,
                            public_name: public_name.to_owned(),
                            arguments: arguments.clone(),
                        },
                    )
                } else {
                    Err(ToolRuntimeError::invalid_request("invalid pending arguments"))
                }
            },
            None => Err(ToolRuntimeError::invalid_request("invalid pending arguments")),
        };
    }
    if text::same_text(kind, "completed") {
        return Ok(
            ProgramOutcome::Completed(
                match payload.get("output") {
                    Some(output) => output.clone(),
                    None => Json::Null,
                },
            ),
        );
    }
    if text::same_text(kind, "contract_error") {
        return Ok(
            ProgramOutcome::ContractError {
                message: bounded_protocol_string(
                    payload,
                    "message",
                    "program replay contract failed",
                ),
            },
        );
    }
    if text::same_text(kind, "error") {
        return Ok(
            ProgramOutcome::ApplicationError {
                error_type: bounded_protocol_string(payload, "error_type", "program_error"),
                message: bounded_protocol_string(payload, "message", "program execution failed"),
            },
        );
    }
    Err(ToolRuntimeError::invalid_request("program sandbox returned an invalid outcome kind"))
}

/// What follows a prefix in the lines that have it.
pub open spec fn frames(lines: Seq<Seq<char>>, prefix: Seq<char>) -> Seq<Seq<char>>
    decreases lines.len(),
{
    if lines.len() == 0 {
        Seq::empty()
    } else {
        match text::without_prefix(lines.last(), prefix) {
            Some(frame) => frames(lines.drop_last(), prefix).push(frame),
            None => frames(lines.drop_last(), prefix),
        }
    }
}

/// The frame in what a program printed: the only line that begins with the prefix and the nonce.
pub open spec fn only_frame(stdout: Seq<char>, nonce: Seq<char>) -> Result<Seq<char>, ErrorView> {
    let found = frames(text::lines(stdout), PROTOCOL_PREFIX@ + nonce + ":"@);
    if found.len() == 0 {
        Err(ErrorView::invalid_request("program sandbox returned no protocol outcome"@))
    } else if found.len() > 1 {
        Err(ErrorView::invalid_request("program sandbox returned multiple protocol outcomes"@))
    } else {
        Ok(found[0])
    }
}

/// Finds the frame in what a program printed.
pub fn find_frame(stdout: &str, nonce: &str) -> (r: Result<String, ToolRuntimeError>)
    ensures
        match r {
            Ok(frame) => only_frame(stdout@, nonce@) == Ok::<Seq<char>, ErrorView>(frame@),
            Err(error) => only_frame(stdout@, nonce@) == Err::<Seq<char>, ErrorView>(error@),
        },
{
    let expected = joined3(PROTOCOL_PREFIX, nonce, ":");
    let lines = text::split_lines(stdout);
    let ghost all = text::strings(lines@);
    let mut found: Vec<String> = Vec::new();
    let mut i: usize = 0;
    assert(text::strings(found@) =~= frames(all.take(0), expected@));
    while i < lines.len()
        invariant
            all == text::strings(lines@),
            i <= lines@.len(),
            text::strings(found@) == frames(all.take(i as int), expected@),
        decreases lines@.len() - i,
    {
        assert(all.take(i + 1).drop_last() =~= all.take(i as int));
        assert(all.take(i + 1).last() == lines@[i as int]@);
        if let Some(frame) = text::strip_prefix(lines[i].as_str(), expected.as_str()) {
            let ghost before = text::strings(found@);
            found.push(frame.to_owned());
            assert(text::strings(found@) =~= before.push(frame@));
        }
        i += 1;
    }
    assert(all.take(i as int) =~= all);
    let ghost views = text::strings(found@);
    if found.len() > 1 {
        return Err(
            ToolRuntimeError::invalid_request("program sandbox returned multiple protocol outcomes"),
        );
    }
    match found.pop() {
        Some(frame) => {
            assert(views[0] == frame@);
            Ok(frame)
        },
        None => Err(
            ToolRuntimeError::invalid_request("program sandbox returned no protocol outcome"),
        ),
    }
}

pub open spec fn too_much_output() -> ErrorView {
    ErrorView::invalid_request("programmatic protocol output exceeds the configured output limit"@)
}

pub open spec fn bad_frame() -> ErrorView {
    ErrorView::invalid_request("program sandbox returned an invalid protocol outcome"@)
}

/// What a program reports, by what it printed.
pub open spec fn sandbox_outcome(stdout: Seq<char>, nonce: Seq<char>, max: nat) -> Result<
    OutcomeView,
    ErrorView,
> {
    if text::byte_len(stdout) > stdout_limit(max, text::byte_len(nonce)) {
        Err(too_much_output())
    } else {
        match only_frame(stdout, nonce) {
            Err(error) => Err(error),
            Ok(frame) => match base64_url_decoded(frame) {
                None => Err(bad_frame()),
                Some(bytes) => if bytes.len() > max {
                    Err(too_much_output())
                } else {
                    match serde_value::json_parsed_bytes(bytes) {
                        Err(_) => Err(bad_frame()),
                        Ok(payload) => payload_outcome(payload),
                    }
                },
            },
        }
    }
}

/// Reads what a program reports out of what it printed.
pub fn parse_sandbox_outcome(stdout: &str, nonce: &str, max_bytes: usize) -> (r: Result<
    ProgramOutcome,
    ToolRuntimeError,
>)
    ensures
        outcome_result(r) == sandbox_outcome(stdout@, nonce@, max_bytes as nat),
{
    if text::byte_length(stdout) > protocol_stdout_max_bytes(max_bytes, text::byte_length(nonce)) {
        return Err(
            ToolRuntimeError::invalid_request(
                "programmatic protocol output exceeds the configured output limit",
            ),
        );
    }
    let frame = match find_frame(stdout, nonce) {
        Ok(frame) => frame,
        Err(error) => {
            return Err(error);
        },
    };
    let bytes = match decode_base64_url(frame.as_str()) {
        Some(bytes) => bytes,
        None => {
            return Err(
                ToolRuntimeError::invalid_request(
                    "program sandbox returned an invalid protocol outcome",
                ),
            );
        },
    };
    if bytes.len() > max_bytes {
        return Err(
            ToolRuntimeError::invalid_request(
                "programmatic protocol output exceeds the configured output limit",
            ),
        );
    }
    match serde_value::parse_bytes(bytes.as_slice()) {
        Ok(payload) => read_payload(&payload),
        Err(_) => Err(
            ToolRuntimeError::invalid_request(
                "program sandbox returned an invalid protocol outcome",
            ),
        ),
    }
}

} // verus!
