//! mpv's JSON IPC: each request is one line of JSON that carries a command and
//! a request ID; replies and events come back one per line, and the reply
//! with the request's ID says whether mpv carried the command out.
use crate::text::{opt_view, same_text};
use vstd::prelude::*;

verus! {

#[verifier::external_type_specification]
#[verifier::external_body]
pub struct ExJsonError(serde_json::Error);

/// One argument of an mpv command.
#[derive(Debug)]
pub enum CommandArg {
    Text(String),
    Flag(bool),
}

/// A `CommandArg` with its text taken by its characters.
pub enum ArgValue {
    Text(Seq<char>),
    Flag(bool),
}

impl View for CommandArg {
    type V = ArgValue;

    open spec fn view(&self) -> ArgValue {
        match self {
            CommandArg::Text(s) => ArgValue::Text(s@),
            CommandArg::Flag(b) => ArgValue::Flag(*b),
        }
    }
}

pub open spec fn arg_values(command: Seq<CommandArg>) -> Seq<ArgValue> {
    command.map_values(|a: CommandArg| a@)
}

/// Why an exchange with mpv failed.
#[derive(Debug)]
pub enum MpvError {
    /// The request could not be written as JSON.
    Encode,
    /// mpv closed the connection before it replied.
    Closed,
    /// A line from mpv is not JSON.
    InvalidJson,
    /// The reply to the request carries no `error` status.
    MissingStatus,
    /// mpv refused the command; this is its status.
    Rejected(String),
}

/// The value of a field of a JSON object that this program writes: a list of
/// command arguments, or an unsigned number.
pub enum JsonField {
    Args(Vec<CommandArg>),
    Number(u64),
}

/// A `JsonField` taken by its values.
pub enum FieldValue {
    Args(Seq<ArgValue>),
    Number(u64),
}

impl View for JsonField {
    type V = FieldValue;

    open spec fn view(&self) -> FieldValue {
        match self {
            JsonField::Args(a) => FieldValue::Args(arg_values(a@)),
            JsonField::Number(n) => FieldValue::Number(*n),
        }
    }
}

/// The fields of an object, by the characters of each key and the value.
pub open spec fn field_views(fields: Seq<(String, JsonField)>) -> Seq<(Seq<char>, FieldValue)> {
    fields.map_values(|f: (String, JsonField)| (f.0@, f.1@))
}

/// The JSON text, in bytes, that `serde_json::to_vec` writes for the object
/// with these fields (the arguments as an array of strings and booleans);
/// `None` where it fails.
pub uninterp spec fn object_json(fields: Seq<(Seq<char>, FieldValue)>) -> Option<Seq<u8>>;

/// Writes the object with these fields with `serde_json::to_vec`; each key,
/// argument and number becomes the JSON value of the same content. The
/// contract names the bytes. Of them it states one fact that serde_json's
/// source shows: its compact writer puts no line feed between tokens and
/// writes a line feed inside a string as `\n`, so the text holds no line
/// feed byte.
#[verifier::external_body]
fn encode_object(fields: &[(String, JsonField)]) -> (r: Result<Vec<u8>, serde_json::Error>)
    ensures
        match r {
            Ok(bytes) => object_json(field_views(fields@)) == Some(bytes@) && !bytes@.contains(10u8),
            Err(_) => object_json(field_views(fields@)) is None,
        },
{
    let object: serde_json::Value = serde_json::Value::Object(fields.iter().map(|(key, field)| {
        (key.clone(), match field {
            JsonField::Args(args) => serde_json::Value::Array(args.iter().map(|a| match a {
                CommandArg::Text(s) => serde_json::Value::String(s.clone()),
                CommandArg::Flag(b) => serde_json::Value::Bool(*b),
            }).collect()),
            JsonField::Number(n) => serde_json::Value::from(*n),
        })
    }).collect());
    serde_json::to_vec(&object)
}

/// The request object that carries `command` with ID `request_id`.
pub open spec fn request_fields(command: Seq<ArgValue>, request_id: u64) -> Seq<(Seq<char>, FieldValue)> {
    seq![("command"@, FieldValue::Args(command)), ("request_id"@, FieldValue::Number(request_id))]
}

/// The JSON text of the request that carries `command` with ID `request_id`.
pub open spec fn request_json(command: Seq<ArgValue>, request_id: u64) -> Option<Seq<u8>> {
    object_json(request_fields(command, request_id))
}

/// The fields of a line from mpv that decide what it answers.
pub struct MpvReply {
    /// The line is an event, not a reply.
    pub is_event: bool,
    /// The request ID, where it is an unsigned integer.
    pub request_id: Option<u64>,
    /// The `error` status, where it is a string.
    pub error: Option<String>,
}

/// Whether the JSON object that `serde_json::from_str::<Value>` reads from
/// `line` has the field `key` (`Value::get`); `None` where the line is not JSON.
pub uninterp spec fn json_key_present(line: Seq<char>, key: Seq<char>) -> Option<bool>;

/// The field `key` of the JSON that `line` holds, as `Value::as_u64` reads
/// it; `None` where the line is not JSON.
pub uninterp spec fn json_u64_field(line: Seq<char>, key: Seq<char>) -> Option<Option<u64>>;

/// The field `key` of the JSON that `line` holds, as `Value::as_str` reads
/// it; `None` where the line is not JSON.
pub uninterp spec fn json_str_field(line: Seq<char>, key: Seq<char>) -> Option<Option<Seq<char>>>;

/// Reads `line` with `serde_json::from_str` and says whether the value has
/// the field `key` (`Value::get`). The contract names the result and says no
/// more of it: which texts are JSON is serde_json's.
#[verifier::external_body]
fn json_has_key(line: &str, key: &str) -> (r: Result<bool, serde_json::Error>)
    ensures
        match r {
            Ok(b) => json_key_present(line@, key@) == Some(b),
            Err(_) => json_key_present(line@, key@) is None,
        },
{
    let value: serde_json::Value = serde_json::from_str(line)?;
    Ok(value.get(key).is_some())
}

/// Reads `line` with `serde_json::from_str` and takes its field `key` with
/// `Value::get` and `Value::as_u64`. The contract names the result.
#[verifier::external_body]
fn json_u64_at(line: &str, key: &str) -> (r: Result<Option<u64>, serde_json::Error>)
    ensures
        match r {
            Ok(v) => json_u64_field(line@, key@) == Some(v),
            Err(_) => json_u64_field(line@, key@) is None,
        },
{
    let value: serde_json::Value = serde_json::from_str(line)?;
    Ok(value.get(key).and_then(serde_json::Value::as_u64))
}

/// Reads `line` with `serde_json::from_str` and takes its field `key` with
/// `Value::get` and `Value::as_str`. The contract names the result.
#[verifier::external_body]
fn json_str_at(line: &str, key: &str) -> (r: Result<Option<String>, serde_json::Error>)
    ensures
        match r {
            Ok(v) => json_str_field(line@, key@) == Some(opt_view(v)),
            Err(_) => json_str_field(line@, key@) is None,
        },
{
    let value: serde_json::Value = serde_json::from_str(line)?;
    Ok(value.get(key).and_then(serde_json::Value::as_str).map(str::to_owned))
}

/// What a line from mpv says: whether it is an event (it has an `event`
/// field), the `request_id` it answers and its `error` status; `None` where
/// it is not JSON.
pub open spec fn reply_fields(line: Seq<char>) -> Option<(bool, Option<u64>, Option<Seq<char>>)> {
    match (
        json_key_present(line, "event"@),
        json_u64_field(line, "request_id"@),
        json_str_field(line, "error"@),
    ) {
        (Some(is_event), Some(id), Some(error)) => Some((is_event, id, error)),
        _ => None,
    }
}

/// Reads the fields of a line from mpv that decide what it answers.
fn decode_reply(line: &str) -> (r: Option<MpvReply>)
    ensures
        match r {
            Some(m) => reply_fields(line@) == Some((m.is_event, m.request_id, opt_view(m.error))),
            None => reply_fields(line@) is None,
        },
{
    let is_event = match json_has_key(line, "event") {
        Ok(b) => b,
        Err(_) => return None,
    };
    let request_id = match json_u64_at(line, "request_id") {
        Ok(v) => v,
        Err(_) => return None,
    };
    let error = match json_str_at(line, "error") {
        Ok(v) => v,
        Err(_) => return None,
    };
    Some(MpvReply { is_event, request_id, error })
}

/// How many times the program tries to reach mpv's IPC socket after it
/// starts mpv.
pub const SOCKET_ATTEMPTS: u32 = 50;

/// How long the program waits after a failed try to reach the socket, in
/// milliseconds.
pub const SOCKET_RETRY_DELAY_MS: u64 = 20;

/// After `failed` tries to reach the socket have failed (each followed by a
/// wait of `SOCKET_RETRY_DELAY_MS`), whether to try again.
pub fn retry_socket(failed: u32) -> (r: bool)
    ensures
        r == (failed < SOCKET_ATTEMPTS),
{
    failed < SOCKET_ATTEMPTS
}

/// The request IDs that a connection hands out, from 1 upwards.
pub struct RequestIds {
    next: u64,
}

impl RequestIds {
    /// The ID that the next request gets.
    pub closed spec fn upcoming(&self) -> u64 {
        self.next
    }

    /// IDs for a new connection; the first is 1.
    pub fn new() -> (r: RequestIds)
        ensures
            r.upcoming() == 1,
    {
        RequestIds { next: 1 }
    }

    /// The ID that the next request gets.
    pub fn peek(&self) -> (r: u64)
        ensures
            r == self.upcoming(),
    {
        self.next
    }

    /// Hands out the next ID.
    pub fn take(&mut self) -> (id: u64)
        requires
            old(self).upcoming() < u64::MAX,
        ensures
            id == old(self).upcoming(),
            final(self).upcoming() == id + 1,
    {
        let id = self.next;
        self.next = self.next + 1;
        id
    }
}

/// The line that sends a request: its JSON text and a line feed.
pub open spec fn request_line_of(command: Seq<ArgValue>, request_id: u64) -> Option<Seq<u8>> {
    match request_json(command, request_id) {
        Some(bytes) => Some(bytes.push(10u8)),
        None => None,
    }
}

/// The line that sends `command` with ID `request_id`: the JSON object
/// `{"command": [..], "request_id": ..}` and a line feed. It is exactly one
/// line: the line feed at its end is its only one.
pub fn request_line(command: Vec<CommandArg>, request_id: u64) -> (r: Result<Vec<u8>, MpvError>)
    ensures
        match r {
            Ok(line) => request_line_of(arg_values(command@), request_id) == Some(line@)
                && line@.len() > 0 && line@.last() == 10u8
                && forall|i: int| 0 <= i < line@.len() - 1 ==> line@[i] != 10u8,
            Err(e) => request_line_of(arg_values(command@), request_id) is None && e is Encode,
        },
{
    let ghost args = arg_values(command@);
    let fields = vec![
        ("command".to_owned(), JsonField::Args(command)),
        ("request_id".to_owned(), JsonField::Number(request_id)),
    ];
    assert(field_views(fields@) =~= request_fields(args, request_id));
    match encode_object(&fields) {
        Ok(mut bytes) => {
            let ghost json = bytes@;
            bytes.push(10u8);
            assert forall|i: int| 0 <= i < bytes@.len() - 1 implies bytes@[i] != 10u8 by {
                assert(bytes@[i] == json[i]);
                if json[i] == 10u8 {
                    assert(json.contains(10u8));
                }
            }
            Ok(bytes)
        },
        Err(_) => Err(MpvError::Encode),
    }
}

/// The commands that load the video at `path`: pause first, then turn the
/// audio track off so that MPD stays the only source of sound, then replace
/// what plays with the file. The video is left paused and silent.
pub open spec fn load_paused_values(path: Seq<char>) -> Seq<Seq<ArgValue>> {
    seq![
        seq![ArgValue::Text("set_property"@), ArgValue::Text("pause"@), ArgValue::Flag(true)],
        seq![ArgValue::Text("set_property"@), ArgValue::Text("aid"@), ArgValue::Text("no"@)],
        seq![ArgValue::Text("loadfile"@), ArgValue::Text(path), ArgValue::Text("replace"@)],
    ]
}

/// Opening a video sends three commands: pause, turn the audio track off,
/// and load the file at `path` with its path unchanged in place of what plays.
pub proof fn lemma_load_paused_commands(path: Seq<char>)
    ensures
        load_paused_values(path).len() == 3,
        load_paused_values(path)[0] == seq![
            ArgValue::Text("set_property"@),
            ArgValue::Text("pause"@),
            ArgValue::Flag(true),
        ],
        load_paused_values(path)[1] == seq![
            ArgValue::Text("set_property"@),
            ArgValue::Text("aid"@),
            ArgValue::Text("no"@),
        ],
        load_paused_values(path)[2].len() == 3,
        load_paused_values(path)[2][0] == ArgValue::Text("loadfile"@),
        load_paused_values(path)[2][1] == ArgValue::Text(path),
        load_paused_values(path)[2][2] == ArgValue::Text("replace"@),
{
}

/// A request carries its command under the key `command` and its ID under
/// the key `request_id`, and a reply is read by its keys `event`,
/// `request_id` and `error`.
pub proof fn lemma_json_keys(command: Seq<ArgValue>, request_id: u64, line: Seq<char>)
    ensures
        request_json(command, request_id) == object_json(
            seq![("command"@, FieldValue::Args(command)), ("request_id"@, FieldValue::Number(request_id))],
        ),
        reply_fields(line) matches Some((is_event, id, error)) ==> {
            &&& json_key_present(line, "event"@) == Some(is_event)
            &&& json_u64_field(line, "request_id"@) == Some(id)
            &&& json_str_field(line, "error"@) == Some(error)
        },
        reply_fields(line) is None ==> json_key_present(line, "event"@) is None || json_u64_field(
            line,
            "request_id"@,
        ) is None || json_str_field(line, "error"@) is None,
{
}

/// The request lines that load the video at `path` paused and without
/// audio, in the order they are sent, each with the ID it is sent with: the
/// IDs that `ids` hands out next, one after the other.
pub fn load_paused_requests(ids: &mut RequestIds, path: &str) -> (r: Result<Vec<(u64, Vec<u8>)>, MpvError>)
    requires
        old(ids).upcoming() <= u64::MAX - 3,
    ensures
        match r {
            Ok(requests) => requests@.len() == 3 && final(ids).upcoming() == old(ids).upcoming() + 3
                && forall|i: int|
                0 <= i < 3 ==> {
                    &&& (#[trigger] requests@[i]).0 == old(ids).upcoming() + i
                    &&& request_line_of(load_paused_values(path@)[i], (old(ids).upcoming() + i) as u64)
                        == Some(requests@[i].1@)
                },
            Err(e) => e is Encode && exists|i: int|
                0 <= i < 3 && request_line_of(
                    load_paused_values(path@)[i],
                    (old(ids).upcoming() + i) as u64,
                ) is None,
        },
{
    let pause = vec![
        CommandArg::Text("set_property".to_owned()),
        CommandArg::Text("pause".to_owned()),
        CommandArg::Flag(true),
    ];
    let mute = vec![
        CommandArg::Text("set_property".to_owned()),
        CommandArg::Text("aid".to_owned()),
        CommandArg::Text("no".to_owned()),
    ];
    let load = vec![
        CommandArg::Text("loadfile".to_owned()),
        CommandArg::Text(path.to_owned()),
        CommandArg::Text("replace".to_owned()),
    ];
    let ghost values = load_paused_values(path@);
    assert(arg_values(pause@) =~= values[0]);
    assert(arg_values(mute@) =~= values[1]);
    assert(arg_values(load@) =~= values[2]);
    let ghost n = ids.upcoming();
    let id0 = ids.take();
    let line0 = request_line(pause, id0)?;
    let id1 = ids.take();
    let line1 = request_line(mute, id1)?;
    let id2 = ids.take();
    let line2 = request_line(load, id2)?;
    let requests = vec![(id0, line0), (id1, line1), (id2, line2)];
    assert(requests@[0].0 == n + 0);
    Ok(requests)
}

/// What a line from mpv means for a request that waits for its reply.
#[derive(Debug)]
pub enum ReplyStep {
    /// Not the reply to this request (an event, or another request's reply).
    Pending,
    /// mpv carried the command out.
    Accepted,
}

/// What a line with the given fields means for the request `request_id`:
/// events and replies to other requests are passed over; the reply says
/// `success`, or it fails.
pub open spec fn reply_meaning(
    fields: (bool, Option<u64>, Option<Seq<char>>),
    request_id: u64,
) -> Result<bool, Option<Seq<char>>> {
    let (is_event, id, error) = fields;
    if is_event || id != Some(request_id) {
        Ok(false)
    } else {
        match error {
            None => Err(None),
            Some(status) => if status == "success"@ {
                Ok(true)
            } else {
                Err(Some(status))
            },
        }
    }
}

/// How a reply whose fields have been read answers the request `request_id`.
pub fn judge_reply(reply: MpvReply, request_id: u64) -> (r: Result<ReplyStep, MpvError>)
    ensures
        match reply_meaning((reply.is_event, reply.request_id, opt_view(reply.error)), request_id) {
            Ok(false) => r matches Ok(ReplyStep::Pending),
            Ok(true) => r matches Ok(ReplyStep::Accepted),
            Err(None) => r matches Err(MpvError::MissingStatus),
            Err(Some(status)) => r matches Err(MpvError::Rejected(s)) && s@ == status,
        },
{
    if reply.is_event {
        return Ok(ReplyStep::Pending);
    }
    match reply.request_id {
        Some(id) if id == request_id => {},
        _ => return Ok(ReplyStep::Pending),
    }
    match reply.error {
        None => Err(MpvError::MissingStatus),
        Some(status) => {
            if same_text(status.as_str(), "success") {
                Ok(ReplyStep::Accepted)
            } else {
                Err(MpvError::Rejected(status))
            }
        },
    }
}

/// What a line read from mpv means for the request `request_id`: wait for
/// more, success, or failure (the connection ended, the line is not JSON, or
/// the reply does not say `success`).
pub enum LineOutcome {
    Pending,
    Accepted,
    Fails,
}

#[verifier::opaque]
pub open spec fn line_outcome(line: Seq<char>, request_id: u64) -> LineOutcome {
    if line.len() == 0 {
        LineOutcome::Fails
    } else {
        match reply_fields(line) {
            None => LineOutcome::Fails,
            Some(fields) => match reply_meaning(fields, request_id) {
                Ok(false) => LineOutcome::Pending,
                Ok(true) => LineOutcome::Accepted,
                Err(_) => LineOutcome::Fails,
            },
        }
    }
}

/// How an exchange ends when mpv sends `lines`, read one by one until one
/// decides: `Some(true)` for success, `Some(false)` for failure, `None` while
/// no line has decided.
pub open spec fn exchange(lines: Seq<Seq<char>>, request_id: u64) -> Option<bool>
    decreases lines.len(),
{
    if lines.len() == 0 {
        None
    } else {
        match line_outcome(lines[0], request_id) {
            LineOutcome::Pending => exchange(lines.drop_first(), request_id),
            LineOutcome::Accepted => Some(true),
            LineOutcome::Fails => Some(false),
        }
    }
}

/// The line at `k` is the reply that says `success`, and every line before
/// it is an event or a reply to another request.
pub open spec fn accepted_at(lines: Seq<Seq<char>>, request_id: u64, k: int) -> bool {
    &&& 0 <= k < lines.len()
    &&& line_outcome(lines[k], request_id) is Accepted
    &&& forall|j: int| 0 <= j < k ==> line_outcome(#[trigger] lines[j], request_id) is Pending
}

proof fn lemma_accepted_at_decides(lines: Seq<Seq<char>>, request_id: u64, k: int)
    requires
        accepted_at(lines, request_id, k),
    ensures
        exchange(lines, request_id) == Some(true),
    decreases k,
{
    if k > 0 {
        let rest = lines.drop_first();
        assert(line_outcome(lines[0], request_id) is Pending);
        assert forall|j: int| 0 <= j < k - 1 implies line_outcome(#[trigger] rest[j], request_id) is Pending by {
            assert(rest[j] == lines[j + 1]);
        }
        assert(rest[k - 1] == lines[k]);
        lemma_accepted_at_decides(rest, request_id, k - 1);
    }
}

proof fn lemma_success_has_a_reply(lines: Seq<Seq<char>>, request_id: u64) -> (k: int)
    requires
        exchange(lines, request_id) == Some(true),
    ensures
        accepted_at(lines, request_id, k),
    decreases lines.len(),
{
    if line_outcome(lines[0], request_id) is Pending {
        let rest = lines.drop_first();
        let k = lemma_success_has_a_reply(rest, request_id);
        assert(lines[k + 1] == rest[k]);
        assert forall|j: int| 0 <= j < k + 1 implies line_outcome(#[trigger] lines[j], request_id) is Pending by {
            if j > 0 {
                assert(lines[j] == rest[j - 1]);
            }
        }
        k + 1
    } else {
        0
    }
}

/// An exchange succeeds exactly when, before any line fails, a reply with the
/// request's ID says `success`: every line before it is an event or a reply to
/// another request, and no line after it is read.
pub proof fn lemma_exchange_succeeds(lines: Seq<Seq<char>>, request_id: u64)
    ensures
        exchange(lines, request_id) == Some(true) <==> exists|k: int| #[trigger] accepted_at(lines, request_id, k),
{
    if exchange(lines, request_id) == Some(true) {
        let k = lemma_success_has_a_reply(lines, request_id);
        assert(accepted_at(lines, request_id, k));
    }
    if exists|k: int| #[trigger] accepted_at(lines, request_id, k) {
        let k = choose|k: int| #[trigger] accepted_at(lines, request_id, k);
        lemma_accepted_at_decides(lines, request_id, k);
    }
}

/// How one line from mpv answers a request: a line that is not JSON, or is
/// empty, fails; an event, or a reply with another request's ID (or none),
/// is passed over; the reply with the request's ID succeeds exactly when its
/// `error` field is the string `success`.
pub proof fn lemma_line_outcome(line: Seq<char>, request_id: u64)
    ensures
        line.len() == 0 ==> line_outcome(line, request_id) is Fails,
        line.len() > 0 && json_key_present(line, "event"@) is None ==> line_outcome(line, request_id) is Fails,
        line.len() > 0 && json_key_present(line, "event"@) == Some(true) && reply_fields(line) is Some
            ==> line_outcome(line, request_id) is Pending,
        line.len() > 0 ==> (reply_fields(line) matches Some((false, id, _)) ==> (id != Some(request_id)
            ==> line_outcome(line, request_id) is Pending)),
        line.len() > 0 ==> (reply_fields(line) matches Some((false, id, error)) ==> (id == Some(request_id)
            ==> (line_outcome(line, request_id) is Accepted <==> error == Some(
            seq!['s', 'u', 'c', 'c', 'e', 's', 's'],
        )))),
{
    reveal(line_outcome);
    reveal_strlit("success");
    assert("success"@ =~= seq!['s', 'u', 'c', 'c', 'e', 's', 's']);
}

/// What a line read from mpv (empty where the connection has ended) means
/// for the request `request_id`.
pub fn read_reply_line(line: &str, request_id: u64) -> (r: Result<ReplyStep, MpvError>)
    ensures
        match r {
            Ok(ReplyStep::Pending) => line_outcome(line@, request_id) is Pending,
            Ok(ReplyStep::Accepted) => line_outcome(line@, request_id) is Accepted,
            Err(_) => line_outcome(line@, request_id) is Fails,
        },
        line@.len() == 0 ==> r matches Err(MpvError::Closed),
        line@.len() != 0 ==> match reply_fields(line@) {
            None => r matches Err(MpvError::InvalidJson),
            Some(fields) => match reply_meaning(fields, request_id) {
                Ok(false) => r matches Ok(ReplyStep::Pending),
                Ok(true) => r matches Ok(ReplyStep::Accepted),
                Err(None) => r matches Err(MpvError::MissingStatus),
                Err(Some(status)) => r matches Err(MpvError::Rejected(s)) && s@ == status,
            },
        },
{
    reveal(line_outcome);
    if line.unicode_len() == 0 {
        return Err(MpvError::Closed);
    }
    match decode_reply(line) {
        None => Err(MpvError::InvalidJson),
        Some(reply) => judge_reply(reply, request_id),
    }
}

} // verus!
