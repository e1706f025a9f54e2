//! The framing of MPD's protocol: a command is one line; the reply is a run of
//! lines that ends with `OK`, or with an `ACK` line that refuses the command.
use crate::number::{decimal, u32_decimal};
use crate::text::{has_prefix, is_whitespace, lemma_trimmed_end_shape, line_views, same_text, strip_prefix, trim_end, trimmed_end};
use vstd::prelude::*;

verus! {

/// Why a command could not be written.
#[derive(Debug, PartialEq, Eq, Structural)]
pub enum RequestError {
    /// The song URI holds a line break, which would end the command early.
    UriHasNewline,
}

/// The line that sends `command` to MPD.
pub open spec fn request_line(command: Seq<char>) -> Seq<char> {
    command.push('\n')
}

/// The line that sends `command` to MPD.
pub fn command_request(command: &str) -> (r: String)
    ensures
        r@ == request_line(command@),
{
    let mut r = command.to_owned();
    r.append("\n");
    proof {
        reveal_strlit("\n");
    }
    assert(r@ =~= request_line(command@));
    r
}

/// The command that asks for the song with queue ID `id`.
pub open spec fn song_command_text(id: u32) -> Seq<char> {
    "playlistid "@ + decimal(id as nat)
}

/// The command that asks for the song with queue ID `id`.
pub fn song_command(id: u32) -> (r: String)
    ensures
        r@ == song_command_text(id),
{
    let mut r = "playlistid ".to_owned();
    r.append(&u32_decimal(id));
    r
}

/// How a character of a quoted argument is written: `\` and `"` behind a `\`.
pub open spec fn escape_char(c: char) -> Seq<char> {
    if c == '\\' || c == '"' {
        seq!['\\', c]
    } else {
        seq![c]
    }
}

/// The text of a quoted argument that holds `s`.
pub open spec fn escaped(s: Seq<char>) -> Seq<char>
    decreases s.len(),
{
    if s.len() == 0 {
        Seq::empty()
    } else {
        escaped(s.drop_last()) + escape_char(s.last())
    }
}

/// `s` holds a line break.
pub open spec fn has_line_break(s: Seq<char>) -> bool {
    exists|i: int| 0 <= i < s.len() && (s[i] == '\n' || s[i] == '\r')
}

/// The command that lists the stickers of the song at `uri`, if the URI can
/// be sent.
pub open spec fn sticker_command_text(uri: Seq<char>) -> Option<Seq<char>> {
    if has_line_break(uri) {
        None
    } else {
        Some("sticker list song \""@ + escaped(uri) + "\""@)
    }
}

/// The command that lists the stickers of the song at `uri`, with the URI
/// quoted; a URI with a line break is refused.
pub fn sticker_list_command(uri: &str) -> (r: Result<String, RequestError>)
    ensures
        match r {
            Ok(c) => sticker_command_text(uri@) == Some(c@),
            Err(e) => sticker_command_text(uri@) is None && e == RequestError::UriHasNewline,
        },
{
    proof {
        reveal_strlit("\\\\");
        reveal_strlit("\\\"");
    }
    let n = uri.unicode_len();
    let mut body = String::new();
    let mut i: usize = 0;
    while i < n
        invariant
            n == uri@.len(),
            i <= n,
            body@ == escaped(uri@.subrange(0, i as int)),
            forall|j: int| 0 <= j < i ==> uri@[j] != '\n' && uri@[j] != '\r',
            "\\\\"@ == seq!['\\', '\\'],
            "\\\""@ == seq!['\\', '"'],
        decreases n - i,
    {
        let c = uri.get_char(i);
        if c == '\n' || c == '\r' {
            return Err(RequestError::UriHasNewline);
        }
        proof {
            assert(uri@.subrange(0, i + 1).drop_last() =~= uri@.subrange(0, i as int));
        }
        if c == '\\' {
            body.append("\\\\");
        } else if c == '"' {
            body.append("\\\"");
        } else {
            body.append(uri.substring_char(i, i + 1));
        }
        assert(body@ =~= escaped(uri@.subrange(0, i + 1)));
        i = i + 1;
    }
    assert(uri@.subrange(0, n as int) =~= uri@);
    let mut r = "sticker list song \"".to_owned();
    r.append(&body);
    r.append("\"");
    Ok(r)
}

/// How MPD reads a quoted argument, from just after its opening `"`: a `\`
/// takes the character after it as it is, and the first other `"` closes the
/// argument. The argument's value and the text after the closing quote.
pub open spec fn read_quoted(t: Seq<char>) -> Option<(Seq<char>, Seq<char>)>
    decreases t.len(),
{
    if t.len() == 0 {
        None
    } else if t[0] == '"' {
        Some((Seq::empty(), t.drop_first()))
    } else if t[0] == '\\' {
        if t.len() < 2 {
            None
        } else {
            match read_quoted(t.subrange(2, t.len() as int)) {
                Some((v, rest)) => Some((seq![t[1]] + v, rest)),
                None => None,
            }
        }
    } else {
        match read_quoted(t.drop_first()) {
            Some((v, rest)) => Some((seq![t[0]] + v, rest)),
            None => None,
        }
    }
}

proof fn lemma_escaped_first(s: Seq<char>)
    requires
        s.len() > 0,
    ensures
        escaped(s) == escape_char(s[0]) + escaped(s.drop_first()),
    decreases s.len(),
{
    if s.len() > 1 {
        lemma_escaped_first(s.drop_last());
        assert(s.drop_last().drop_first() =~= s.drop_first().drop_last());
        assert(s.drop_first().last() == s.last());
        assert(escaped(s.drop_first()) == escaped(s.drop_first().drop_last()) + escape_char(
            s.last(),
        ));
    } else {
        assert(s.drop_last() =~= Seq::<char>::empty());
        assert(s.drop_first() =~= Seq::<char>::empty());
    }
}

/// A quoted argument reads back as the text that was quoted, and ends just
/// where the quote closes.
pub proof fn lemma_escaped_reads_back(s: Seq<char>, rest: Seq<char>)
    ensures
        read_quoted(escaped(s) + seq!['"'] + rest) == Some((s, rest)),
    decreases s.len(),
{
    let t = escaped(s) + seq!['"'] + rest;
    if s.len() == 0 {
        assert(t =~= seq!['"'] + rest);
        assert(t.drop_first() =~= rest);
    } else {
        let s1 = s.drop_first();
        lemma_escaped_first(s);
        lemma_escaped_reads_back(s1, rest);
        let t1 = escaped(s1) + seq!['"'] + rest;
        if s[0] == '\\' || s[0] == '"' {
            assert(t =~= seq!['\\', s[0]] + t1);
            assert(t.subrange(2, t.len() as int) =~= t1);
        } else {
            assert(t =~= seq![s[0]] + t1);
            assert(t.drop_first() =~= t1);
        }
        assert(seq![s[0]] + s1 =~= s);
    }
}

/// The sticker command of a URI without line breaks quotes the URI so that
/// MPD reads back exactly that URI as the command's last argument.
pub proof fn lemma_sticker_command_quotes_uri(uri: Seq<char>)
    requires
        !has_line_break(uri),
    ensures
        sticker_command_text(uri) matches Some(c) && has_prefix(c, "sticker list song \""@)
            && read_quoted(c.subrange("sticker list song \""@.len() as int, c.len() as int)) == Some(
            (uri, Seq::<char>::empty()),
        ),
{
    let p = "sticker list song \""@;
    let c = p + escaped(uri) + "\""@;
    reveal_strlit("\"");
    assert(c.subrange(0, p.len() as int) =~= p);
    lemma_escaped_reads_back(uri, Seq::empty());
    assert(c.subrange(p.len() as int, c.len() as int) =~= escaped(uri) + seq!['"'] + Seq::<char>::empty());
}

/// What a line of a reply does to the exchange.
pub enum ReplyStep {
    /// The line is part of the reply; more lines follow.
    More,
    /// The reply is complete.
    Complete,
    /// MPD refused the command; this is its `ACK` line without trailing whitespace.
    Rejected(String),
    /// The connection ended before the reply did.
    Closed,
}

/// The reply line that ends a successful reply.
pub open spec fn is_ok_line(line: Seq<char>) -> bool {
    line == "OK\n"@
}

/// A reply line that refuses the command.
pub open spec fn is_ack_line(line: Seq<char>) -> bool {
    has_prefix(line, "ACK "@)
}

/// What a reply line does, with texts taken by their characters.
pub enum StepKind {
    More,
    Complete,
    Rejected(Seq<char>),
    Closed,
}

pub open spec fn step_kind(r: ReplyStep) -> StepKind {
    match r {
        ReplyStep::More => StepKind::More,
        ReplyStep::Complete => StepKind::Complete,
        ReplyStep::Rejected(msg) => StepKind::Rejected(msg@),
        ReplyStep::Closed => StepKind::Closed,
    }
}

/// The lines kept so far after one more line of the reply, and what the line
/// does: an empty line (the connection ended) closes, `OK` completes, an
/// `ACK` line refuses, and any other line is kept.
pub open spec fn reply_step(response: Seq<Seq<char>>, line: Seq<char>) -> (Seq<Seq<char>>, StepKind) {
    if line.len() == 0 {
        (response, StepKind::Closed)
    } else if is_ok_line(line) {
        (response, StepKind::Complete)
    } else if is_ack_line(line) {
        (response, StepKind::Rejected(trimmed_end(line)))
    } else {
        (response.push(line), StepKind::More)
    }
}

/// Only a line that starts with `ACK ` refuses the command, and the refusal
/// carries that line up to its trailing whitespace. `OK` and its line feed
/// completes the reply, an empty line (the connection ended) closes it, and
/// every other line is kept at the end of the reply while the reply goes on.
pub proof fn lemma_only_ack_refuses(response: Seq<Seq<char>>, line: Seq<char>)
    ensures
        line.len() == 0 ==> reply_step(response, line) == (response, StepKind::Closed),
        line == seq!['O', 'K', '\n'] ==> reply_step(response, line) == (response, StepKind::Complete),
        line.len() > 0 && line != seq!['O', 'K', '\n'] && !(line.len() >= 4 && line.subrange(0, 4)
            == seq!['A', 'C', 'K', ' ']) ==> reply_step(response, line) == (
            response.push(line),
            StepKind::More,
        ),
        line.len() >= 4 && line.subrange(0, 4) == seq!['A', 'C', 'K', ' '] ==> {
            &&& reply_step(response, line).0 == response
            &&& reply_step(response, line).1 matches StepKind::Rejected(msg) && {
                &&& 3 <= msg.len() <= line.len()
                &&& msg == line.subrange(0, msg.len() as int)
                &&& forall|j: int| msg.len() <= j < line.len() ==> is_whitespace(#[trigger] line[j])
                &&& !is_whitespace(msg.last())
            }
        },
{
    reveal_strlit("OK\n");
    reveal_strlit("ACK ");
    assert("OK\n"@ =~= seq!['O', 'K', '\n']);
    assert("ACK "@ =~= seq!['A', 'C', 'K', ' ']);
    if line.len() >= 4 && line.subrange(0, 4) == seq!['A', 'C', 'K', ' '] {
        assert(line[0] == 'A');
        assert(line != seq!['O', 'K', '\n']);
        lemma_trimmed_end_shape(line);
        let m = trimmed_end(line).len();
        assert(line[2] == line.subrange(0, 4)[2]);
        assert(!is_whitespace(line[2]));
        if m < 3 {
            assert(is_whitespace(line[2]));
        }
    }
}

/// What a reply that arrives as `lines` leaves: the lines kept, and how the
/// reply ended (`None` while it has not ended). Reading stops at the line that
/// ends the reply.
pub open spec fn read_reply(response: Seq<Seq<char>>, lines: Seq<Seq<char>>) -> (Seq<Seq<char>>, Option<StepKind>)
    decreases lines.len(),
{
    if lines.len() == 0 {
        (response, None)
    } else {
        let (kept, kind) = reply_step(response, lines[0]);
        if kind is More {
            read_reply(kept, lines.drop_first())
        } else {
            (kept, Some(kind))
        }
    }
}

/// A reply of data lines followed by `OK` hands back exactly those lines, in
/// order and with their line feeds, and nothing after the `OK` line is read.
pub proof fn lemma_reply_collects_lines(
    kept: Seq<Seq<char>>,
    data: Seq<Seq<char>>,
    after: Seq<Seq<char>>,
)
    requires
        forall|i: int| 0 <= i < data.len() ==> {
            &&& (#[trigger] data[i]).len() > 0
            &&& !is_ok_line(data[i])
            &&& !is_ack_line(data[i])
        },
    ensures
        read_reply(kept, data + seq!["OK\n"@] + after) == (kept + data, Some(StepKind::Complete)),
    decreases data.len(),
{
    reveal_strlit("OK\n");
    let lines = data + seq!["OK\n"@] + after;
    if data.len() == 0 {
        assert(lines[0] == "OK\n"@);
        assert(kept + data =~= kept);
    } else {
        assert(lines[0] == data[0]);
        lemma_reply_collects_lines(kept.push(data[0]), data.drop_first(), after);
        assert(lines.drop_first() =~= data.drop_first() + seq!["OK\n"@] + after);
        assert(kept.push(data[0]) + data.drop_first() =~= kept + data);
    }
}

/// Takes the next line of MPD's reply, as read from the connection (an empty
/// line means that the connection has ended), and keeps the lines of the
/// reply in `response`.
pub fn take_reply_line(response: &mut Vec<String>, line: String) -> (r: ReplyStep)
    ensures
        (line_views(final(response)@), step_kind(r)) == reply_step(line_views(old(response)@), line@),
        line@.len() == 0 ==> r is Closed && final(response)@ == old(response)@,
        line@.len() != 0 && is_ok_line(line@) ==> r is Complete && final(response)@ == old(
            response,
        )@,
        line@.len() != 0 && !is_ok_line(line@) && is_ack_line(line@) ==> (r matches ReplyStep::Rejected(
            msg,
        ) && msg@ == trimmed_end(line@)) && final(response)@ == old(response)@,
        line@.len() != 0 && !is_ok_line(line@) && !is_ack_line(line@) ==> r is More
            && final(response)@ == old(response)@.push(line),
{
    if line.as_str().unicode_len() == 0 {
        return ReplyStep::Closed;
    }
    if same_text(line.as_str(), "OK\n") {
        return ReplyStep::Complete;
    }
    if strip_prefix(line.as_str(), "ACK ").is_some() {
        return ReplyStep::Rejected(trim_end(line.as_str()).to_owned());
    }
    let ghost before = response@;
    let ghost text = line@;
    response.push(line);
    assert(line_views(response@) =~= line_views(before).push(text));
    ReplyStep::More
}

} // verus!
