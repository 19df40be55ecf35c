//! The peer wire protocol: the commands and events two nodes exchange,
//! and their line-delimited rendering.
//!
//! A frame is one object on one line: an envelope that tags the payload
//! as a command or an event, around one externally tagged variant whose
//! fields follow in declaration order. String fields are escaped, the
//! chunk payload travels as base64 text, and every frame ends with
//! exactly one newline.

use vstd::prelude::*;
use crate::chars::{append_str, string_from_chars, chars_of, chars_eq_str};
use crate::json::{spec_escape, escape_into, spec_parse_jstring, parse_jstring};
use crate::num::{
    spec_dec_nat, spec_dec_i32, spec_parse_u64, spec_parse_i32, u64_to_dec, i32_to_dec, parse_u64,
    parse_i32,
};
use crate::base64::{spec_b64, spec_parse_b64, b64_encode, parse_b64};
use crate::codec::{
    spec_lit, expect_lit, tail, no_nl, lemma_lit_step, lemma_jstr_step, lemma_u64_step,
    lemma_i32_step, lemma_b64_step, lemma_concat_no_nl,
};
use crate::json::{lemma_escape_plain, lemma_escape_clean};
use crate::num::{is_dec_digit, lemma_dec_nat_no_nl, lemma_dec_i32_no_nl};
use crate::base64::{is_b64_char, lemma_b64_no_nl};

verus! {

/// A command one peer sends another.
pub enum Command {
    Connect { id: String, client_id: String, port: i32 },
    Leave { id: String, client_id: String },
    CreateNewFile { id: String, peer_id: String, file_path: String, sha: String },
    CreateFolder { id: String, peer_id: String, folder_path: String },
    ModifyFile { id: String, peer_id: String, file_path: String },
    DataRequestCommand { id: String, peer_id: String, file_path: String },
    WriteDataCommand { id: String, peer_id: String, file_path: String, offset: u64, data: Vec<u8> },
    Test { id: String, peer_id: String, message: String },
}

/// An event one peer reports to another; reserved, not currently produced.
pub enum Event {
    Connected { id: String, client_id: String, port: i32 },
    Left { id: String, client_id: String },
}

/// The envelope around a command or an event.
pub enum PeerMessage {
    PeerCommand { command: Command },
    PeerEvent { event: Event },
}

/// Mathematical model of a [`Command`].
pub enum CommandV {
    Connect { id: Seq<char>, client_id: Seq<char>, port: i32 },
    Leave { id: Seq<char>, client_id: Seq<char> },
    CreateNewFile { id: Seq<char>, peer_id: Seq<char>, file_path: Seq<char>, sha: Seq<char> },
    CreateFolder { id: Seq<char>, peer_id: Seq<char>, folder_path: Seq<char> },
    ModifyFile { id: Seq<char>, peer_id: Seq<char>, file_path: Seq<char> },
    DataRequestCommand { id: Seq<char>, peer_id: Seq<char>, file_path: Seq<char> },
    WriteDataCommand {
        id: Seq<char>,
        peer_id: Seq<char>,
        file_path: Seq<char>,
        offset: u64,
        data: Seq<u8>,
    },
    Test { id: Seq<char>, peer_id: Seq<char>, message: Seq<char> },
}

/// Mathematical model of an [`Event`].
pub enum EventV {
    Connected { id: Seq<char>, client_id: Seq<char>, port: i32 },
    Left { id: Seq<char>, client_id: Seq<char> },
}

/// Mathematical model of a [`PeerMessage`].
pub enum PeerMessageV {
    PeerCommand { command: CommandV },
    PeerEvent { event: EventV },
}

impl View for Command {
    type V = CommandV;

    open spec fn view(&self) -> CommandV {
        match self {
            Command::Connect { id, client_id, port } => CommandV::Connect {
                id: id@,
                client_id: client_id@,
                port: *port,
            },
            Command::Leave { id, client_id } => CommandV::Leave { id: id@, client_id: client_id@ },
            Command::CreateNewFile { id, peer_id, file_path, sha } => CommandV::CreateNewFile {
                id: id@,
                peer_id: peer_id@,
                file_path: file_path@,
                sha: sha@,
            },
            Command::CreateFolder { id, peer_id, folder_path } => CommandV::CreateFolder {
                id: id@,
                peer_id: peer_id@,
                folder_path: folder_path@,
            },
            Command::ModifyFile { id, peer_id, file_path } => CommandV::ModifyFile {
                id: id@,
                peer_id: peer_id@,
                file_path: file_path@,
            },
            Command::DataRequestCommand { id, peer_id, file_path } => CommandV::DataRequestCommand {
                id: id@,
                peer_id: peer_id@,
                file_path: file_path@,
            },
            Command::WriteDataCommand { id, peer_id, file_path, offset, data } => CommandV::WriteDataCommand {
                id: id@,
                peer_id: peer_id@,
                file_path: file_path@,
                offset: *offset,
                data: data@,
            },
            Command::Test { id, peer_id, message } => CommandV::Test {
                id: id@,
                peer_id: peer_id@,
                message: message@,
            },
        }
    }
}

impl View for Event {
    type V = EventV;

    open spec fn view(&self) -> EventV {
        match self {
            Event::Connected { id, client_id, port } => EventV::Connected {
                id: id@,
                client_id: client_id@,
                port: *port,
            },
            Event::Left { id, client_id } => EventV::Left { id: id@, client_id: client_id@ },
        }
    }
}

impl View for PeerMessage {
    type V = PeerMessageV;

    open spec fn view(&self) -> PeerMessageV {
        match self {
            PeerMessage::PeerCommand { command } => PeerMessageV::PeerCommand { command: command@ },
            PeerMessage::PeerEvent { event } => PeerMessageV::PeerEvent { event: event@ },
        }
    }
}

/// The one-line rendering of a message, without the newline.
pub open spec fn spec_encode_message(m: PeerMessageV) -> Seq<char> {
    match m {
        PeerMessageV::PeerCommand { command } => "{\"peer_message\":\"PeerCommand\",\"command\":{\""@
            + spec_encode_command_tail(command),
        PeerMessageV::PeerEvent { event } => "{\"peer_message\":\"PeerEvent\",\"event\":{\""@
            + spec_encode_event_tail(event),
    }
}

/// Everything after the envelope's opening quote, for a command.
pub open spec fn spec_encode_command_tail(c: CommandV) -> Seq<char> {
    match c {
        CommandV::Connect { id, client_id, port } => "Connect"@ + (seq!['"'] + (":{\"id\":\""@ + (
        spec_escape(id) + (seq!['"'] + (",\"client_id\":\""@ + (spec_escape(client_id) + (
        seq!['"'] + (",\"port\":"@ + (spec_dec_i32(port as int) + "}}}"@))))))))),
        CommandV::Leave { id, client_id } => "Leave"@ + (seq!['"'] + (":{\"id\":\""@ + (spec_escape(
            id,
        ) + (seq!['"'] + (",\"client_id\":\""@ + (spec_escape(client_id) + (seq!['"']
            + "}}}"@))))))),
        CommandV::CreateNewFile { id, peer_id, file_path, sha } => "CreateNewFile"@ + (seq!['"'] + (
        ":{\"id\":\""@ + (spec_escape(id) + (seq!['"'] + (",\"peer_id\":\""@ + (spec_escape(peer_id)
            + (seq!['"'] + (",\"file_path\":\""@ + (spec_escape(file_path) + (seq!['"'] + (
        ",\"sha\":\""@ + (spec_escape(sha) + (seq!['"'] + "}}}"@))))))))))))),
        CommandV::CreateFolder { id, peer_id, folder_path } => "CreateFolder"@ + (seq!['"'] + (
        ":{\"id\":\""@ + (spec_escape(id) + (seq!['"'] + (",\"peer_id\":\""@ + (spec_escape(peer_id)
            + (seq!['"'] + (",\"folder_path\":\""@ + (spec_escape(folder_path) + (seq!['"']
            + "}}}"@)))))))))),
        CommandV::ModifyFile { id, peer_id, file_path } => "ModifyFile"@ + (seq!['"'] + (
        ":{\"id\":\""@ + (spec_escape(id) + (seq!['"'] + (",\"peer_id\":\""@ + (spec_escape(peer_id)
            + (seq!['"'] + (",\"file_path\":\""@ + (spec_escape(file_path) + (seq!['"']
            + "}}}"@)))))))))),
        CommandV::DataRequestCommand { id, peer_id, file_path } => "DataRequestCommand"@ + (
        seq!['"'] + (":{\"id\":\""@ + (spec_escape(id) + (seq!['"'] + (",\"peer_id\":\""@ + (
        spec_escape(peer_id) + (seq!['"'] + (",\"file_path\":\""@ + (spec_escape(file_path) + (
        seq!['"'] + "}}}"@)))))))))),
        CommandV::WriteDataCommand { id, peer_id, file_path, offset, data } => "WriteDataCommand"@
            + (seq!['"'] + (":{\"id\":\""@ + (spec_escape(id) + (seq!['"'] + (",\"peer_id\":\""@ + (
        spec_escape(peer_id) + (seq!['"'] + (",\"file_path\":\""@ + (spec_escape(file_path) + (
        seq!['"'] + (",\"offset\":"@ + (spec_dec_nat(offset as nat) + (",\"data\":\""@ + (spec_b64(
            data,
        ) + "\"}}}"@)))))))))))))),
        CommandV::Test { id, peer_id, message } => "Test"@ + (seq!['"'] + (":{\"id\":\""@ + (
        spec_escape(id) + (seq!['"'] + (",\"peer_id\":\""@ + (spec_escape(peer_id) + (seq!['"'] + (
        ",\"message\":\""@ + (spec_escape(message) + (seq!['"'] + "}}}"@)))))))))),
    }
}

/// Everything after the envelope's opening quote, for an event.
pub open spec fn spec_encode_event_tail(e: EventV) -> Seq<char> {
    match e {
        EventV::Connected { id, client_id, port } => "Connected"@ + (seq!['"'] + (":{\"id\":\""@ + (
        spec_escape(id) + (seq!['"'] + (",\"client_id\":\""@ + (spec_escape(client_id) + (seq!['"']
            + (",\"port\":"@ + (spec_dec_i32(port as int) + "}}}"@))))))))),
        EventV::Left { id, client_id } => "Left"@ + (seq!['"'] + (":{\"id\":\""@ + (spec_escape(id)
            + (seq!['"'] + (",\"client_id\":\""@ + (spec_escape(client_id) + (seq!['"']
            + "}}}"@))))))),
    }
}

/// Renders a message as its one-line text, without the newline.
pub fn encode_peer_message(m: &PeerMessage) -> (out: Vec<char>)
    ensures
        out@ == spec_encode_message(m@),
{
    let mut out: Vec<char> = Vec::new();
    match m {
        PeerMessage::PeerCommand { command } => {
            append_str(&mut out, "{\"peer_message\":\"PeerCommand\",\"command\":{\"");
            encode_command_tail(command, &mut out);
            proof {
                assert(out@ =~= spec_encode_message(m@));
            }
        },
        PeerMessage::PeerEvent { event } => {
            append_str(&mut out, "{\"peer_message\":\"PeerEvent\",\"event\":{\"");
            encode_event_tail(event, &mut out);
            proof {
                assert(out@ =~= spec_encode_message(m@));
            }
        },
    }
    out
}

fn encode_command_tail(c: &Command, out: &mut Vec<char>)
    ensures
        final(out)@ == old(out)@ + spec_encode_command_tail(c@),
{
    match c {
        Command::Connect { id, client_id, port } => enc_connect(id, client_id, *port, out),
        Command::Leave { id, client_id } => enc_leave(id, client_id, out),
        Command::CreateNewFile { id, peer_id, file_path, sha } => enc_create_new_file(
            id,
            peer_id,
            file_path,
            sha,
            out,
        ),
        Command::CreateFolder { id, peer_id, folder_path } => enc_create_folder(
            id,
            peer_id,
            folder_path,
            out,
        ),
        Command::ModifyFile { id, peer_id, file_path } => enc_modify_file(
            id,
            peer_id,
            file_path,
            out,
        ),
        Command::DataRequestCommand { id, peer_id, file_path } => enc_data_request(
            id,
            peer_id,
            file_path,
            out,
        ),
        Command::WriteDataCommand { id, peer_id, file_path, offset, data } => enc_write_data(
            id,
            peer_id,
            file_path,
            *offset,
            data,
            out,
        ),
        Command::Test { id, peer_id, message } => enc_test(id, peer_id, message, out),
    }
}

fn enc_connect(id: &String, client_id: &String, port: i32, out: &mut Vec<char>)
    ensures
        final(out)@ == old(out)@ + spec_encode_command_tail(
            CommandV::Connect { id: id@, client_id: client_id@, port },
        ),
{
    append_str(out, "Connect");
    out.push('"');
    append_str(out, ":{\"id\":\"");
    escape_into(id.as_str(), out);
    out.push('"');
    append_str(out, ",\"client_id\":\"");
    escape_into(client_id.as_str(), out);
    out.push('"');
    append_str(out, ",\"port\":");
    let mut digits = i32_to_dec(port);
    out.append(&mut digits);
    append_str(out, "}}}");
    proof {
        assert(out@ =~= old(out)@ + spec_encode_command_tail(
            CommandV::Connect { id: id@, client_id: client_id@, port },
        ));
    }
}

fn enc_leave(id: &String, client_id: &String, out: &mut Vec<char>)
    ensures
        final(out)@ == old(out)@ + spec_encode_command_tail(
            CommandV::Leave { id: id@, client_id: client_id@ },
        ),
{
    append_str(out, "Leave");
    out.push('"');
    append_str(out, ":{\"id\":\"");
    escape_into(id.as_str(), out);
    out.push('"');
    append_str(out, ",\"client_id\":\"");
    escape_into(client_id.as_str(), out);
    out.push('"');
    append_str(out, "}}}");
    proof {
        assert(out@ =~= old(out)@ + spec_encode_command_tail(
            CommandV::Leave { id: id@, client_id: client_id@ },
        ));
    }
}

#[verifier::rlimit(100)]
fn enc_create_new_file(
    id: &String,
    peer_id: &String,
    file_path: &String,
    sha: &String,
    out: &mut Vec<char>,
)
    ensures
        final(out)@ == old(out)@ + spec_encode_command_tail(
            CommandV::CreateNewFile {
                id: id@,
                peer_id: peer_id@,
                file_path: file_path@,
                sha: sha@,
            },
        ),
{
    append_str(out, "CreateNewFile");
    out.push('"');
    append_str(out, ":{\"id\":\"");
    escape_into(id.as_str(), out);
    out.push('"');
    append_str(out, ",\"peer_id\":\"");
    escape_into(peer_id.as_str(), out);
    out.push('"');
    append_str(out, ",\"file_path\":\"");
    escape_into(file_path.as_str(), out);
    out.push('"');
    append_str(out, ",\"sha\":\"");
    escape_into(sha.as_str(), out);
    out.push('"');
    append_str(out, "}}}");
    proof {
        assert(out@ =~= old(out)@ + spec_encode_command_tail(
            CommandV::CreateNewFile {
                id: id@,
                peer_id: peer_id@,
                file_path: file_path@,
                sha: sha@,
            },
        ));
    }
}

#[verifier::rlimit(100)]
fn enc_create_folder(id: &String, peer_id: &String, folder_path: &String, out: &mut Vec<char>)
    ensures
        final(out)@ == old(out)@ + spec_encode_command_tail(
            CommandV::CreateFolder { id: id@, peer_id: peer_id@, folder_path: folder_path@ },
        ),
{
    append_str(out, "CreateFolder");
    out.push('"');
    append_str(out, ":{\"id\":\"");
    escape_into(id.as_str(), out);
    out.push('"');
    append_str(out, ",\"peer_id\":\"");
    escape_into(peer_id.as_str(), out);
    out.push('"');
    append_str(out, ",\"folder_path\":\"");
    escape_into(folder_path.as_str(), out);
    out.push('"');
    append_str(out, "}}}");
    proof {
        assert(out@ =~= old(out)@ + spec_encode_command_tail(
            CommandV::CreateFolder { id: id@, peer_id: peer_id@, folder_path: folder_path@ },
        ));
    }
}

#[verifier::rlimit(100)]
fn enc_modify_file(id: &String, peer_id: &String, file_path: &String, out: &mut Vec<char>)
    ensures
        final(out)@ == old(out)@ + spec_encode_command_tail(
            CommandV::ModifyFile { id: id@, peer_id: peer_id@, file_path: file_path@ },
        ),
{
    append_str(out, "ModifyFile");
    out.push('"');
    append_str(out, ":{\"id\":\"");
    escape_into(id.as_str(), out);
    out.push('"');
    append_str(out, ",\"peer_id\":\"");
    escape_into(peer_id.as_str(), out);
    out.push('"');
    append_str(out, ",\"file_path\":\"");
    escape_into(file_path.as_str(), out);
    out.push('"');
    append_str(out, "}}}");
    proof {
        assert(out@ =~= old(out)@ + spec_encode_command_tail(
            CommandV::ModifyFile { id: id@, peer_id: peer_id@, file_path: file_path@ },
        ));
    }
}

#[verifier::rlimit(100)]
fn enc_data_request(id: &String, peer_id: &String, file_path: &String, out: &mut Vec<char>)
    ensures
        final(out)@ == old(out)@ + spec_encode_command_tail(
            CommandV::DataRequestCommand { id: id@, peer_id: peer_id@, file_path: file_path@ },
        ),
{
    append_str(out, "DataRequestCommand");
    out.push('"');
    append_str(out, ":{\"id\":\"");
    escape_into(id.as_str(), out);
    out.push('"');
    append_str(out, ",\"peer_id\":\"");
    escape_into(peer_id.as_str(), out);
    out.push('"');
    append_str(out, ",\"file_path\":\"");
    escape_into(file_path.as_str(), out);
    out.push('"');
    append_str(out, "}}}");
    proof {
        assert(out@ =~= old(out)@ + spec_encode_command_tail(
            CommandV::DataRequestCommand { id: id@, peer_id: peer_id@, file_path: file_path@ },
        ));
    }
}

#[verifier::rlimit(100)]
fn enc_write_data(
    id: &String,
    peer_id: &String,
    file_path: &String,
    offset: u64,
    data: &Vec<u8>,
    out: &mut Vec<char>,
)
    ensures
        final(out)@ == old(out)@ + spec_encode_command_tail(
            CommandV::WriteDataCommand {
                id: id@,
                peer_id: peer_id@,
                file_path: file_path@,
                offset,
                data: data@,
            },
        ),
{
    append_str(out, "WriteDataCommand");
    out.push('"');
    append_str(out, ":{\"id\":\"");
    escape_into(id.as_str(), out);
    out.push('"');
    append_str(out, ",\"peer_id\":\"");
    escape_into(peer_id.as_str(), out);
    out.push('"');
    append_str(out, ",\"file_path\":\"");
    escape_into(file_path.as_str(), out);
    out.push('"');
    append_str(out, ",\"offset\":");
    let mut digits = u64_to_dec(offset);
    out.append(&mut digits);
    append_str(out, ",\"data\":\"");
    b64_encode(data, out);
    append_str(out, "\"}}}");
    proof {
        assert(out@ =~= old(out)@ + spec_encode_command_tail(
            CommandV::WriteDataCommand {
                id: id@,
                peer_id: peer_id@,
                file_path: file_path@,
                offset,
                data: data@,
            },
        ));
    }
}

#[verifier::rlimit(100)]
fn enc_test(id: &String, peer_id: &String, message: &String, out: &mut Vec<char>)
    ensures
        final(out)@ == old(out)@ + spec_encode_command_tail(
            CommandV::Test { id: id@, peer_id: peer_id@, message: message@ },
        ),
{
    append_str(out, "Test");
    out.push('"');
    append_str(out, ":{\"id\":\"");
    escape_into(id.as_str(), out);
    out.push('"');
    append_str(out, ",\"peer_id\":\"");
    escape_into(peer_id.as_str(), out);
    out.push('"');
    append_str(out, ",\"message\":\"");
    escape_into(message.as_str(), out);
    out.push('"');
    append_str(out, "}}}");
    proof {
        assert(out@ =~= old(out)@ + spec_encode_command_tail(
            CommandV::Test { id: id@, peer_id: peer_id@, message: message@ },
        ));
    }
}

fn encode_event_tail(e: &Event, out: &mut Vec<char>)
    ensures
        final(out)@ == old(out)@ + spec_encode_event_tail(e@),
{
    match e {
        Event::Connected { id, client_id, port } => {
            append_str(out, "Connected");
            out.push('"');
            append_str(out, ":{\"id\":\"");
            escape_into(id.as_str(), out);
            out.push('"');
            append_str(out, ",\"client_id\":\"");
            escape_into(client_id.as_str(), out);
            out.push('"');
            append_str(out, ",\"port\":");
            let mut digits = i32_to_dec(*port);
            out.append(&mut digits);
            append_str(out, "}}}");
            proof {
                assert(out@ =~= old(out)@ + spec_encode_event_tail(e@));
            }
        },
        Event::Left { id, client_id } => {
            append_str(out, "Left");
            out.push('"');
            append_str(out, ":{\"id\":\"");
            escape_into(id.as_str(), out);
            out.push('"');
            append_str(out, ",\"client_id\":\"");
            escape_into(client_id.as_str(), out);
            out.push('"');
            append_str(out, "}}}");
            proof {
                assert(out@ =~= old(out)@ + spec_encode_event_tail(e@));
            }
        },
    }
}


// ---------------------------------------------------------------------
// Decoding
// ---------------------------------------------------------------------

/// Matches `lit` and then an escaped string value with its closing quote.
pub open spec fn spec_p_str(s: Seq<char>, i: int, lit: Seq<char>) -> Option<(Seq<char>, int)> {
    match spec_lit(s, i, lit) {
        Some(j) => spec_parse_jstring(s, j),
        None => None,
    }
}

/// The field shape shared by connect commands and events: an id, a
/// client id and a port, closing the frame.
pub open spec fn spec_dec_conn(s: Seq<char>, i: int) -> Option<(Seq<char>, Seq<char>, i32)> {
    match spec_p_str(s, i, ":{\"id\":\""@) {
        Some((id, i1)) => match spec_p_str(s, i1, ",\"client_id\":\""@) {
            Some((client_id, i2)) => match spec_lit(s, i2, ",\"port\":"@) {
                Some(i3) => match spec_parse_i32(s, i3) {
                    Some((port, i4)) => match spec_lit(s, i4, "}}}"@) {
                        Some(i5) => if i5 == s.len() {
                            Some((id, client_id, port))
                        } else {
                            None
                        },
                        None => None,
                    },
                    None => None,
                },
                None => None,
            },
            None => None,
        },
        None => None,
    }
}

/// The field shape shared by leave commands and events: an id and a
/// client id, closing the frame.
pub open spec fn spec_dec_two(s: Seq<char>, i: int) -> Option<(Seq<char>, Seq<char>)> {
    match spec_p_str(s, i, ":{\"id\":\""@) {
        Some((id, i1)) => match spec_p_str(s, i1, ",\"client_id\":\""@) {
            Some((client_id, i2)) => match spec_lit(s, i2, "}}}"@) {
                Some(i3) => if i3 == s.len() {
                    Some((id, client_id))
                } else {
                    None
                },
                None => None,
            },
            None => None,
        },
        None => None,
    }
}

/// The field shape of most file commands: an id, a peer id and one more
/// string field named by `lit3`, closing the frame.
pub open spec fn spec_dec_three(s: Seq<char>, i: int, lit3: Seq<char>) -> Option<
    (Seq<char>, Seq<char>, Seq<char>),
> {
    match spec_p_str(s, i, ":{\"id\":\""@) {
        Some((id, i1)) => match spec_p_str(s, i1, ",\"peer_id\":\""@) {
            Some((peer_id, i2)) => match spec_p_str(s, i2, lit3) {
                Some((x, i3)) => match spec_lit(s, i3, "}}}"@) {
                    Some(i4) => if i4 == s.len() {
                        Some((id, peer_id, x))
                    } else {
                        None
                    },
                    None => None,
                },
                None => None,
            },
            None => None,
        },
        None => None,
    }
}

/// The field shape of a file announcement: an id, a peer id, a path and
/// a digest, closing the frame.
pub open spec fn spec_dec_four(s: Seq<char>, i: int) -> Option<
    (Seq<char>, Seq<char>, Seq<char>, Seq<char>),
> {
    match spec_p_str(s, i, ":{\"id\":\""@) {
        Some((id, i1)) => match spec_p_str(s, i1, ",\"peer_id\":\""@) {
            Some((peer_id, i2)) => match spec_p_str(s, i2, ",\"file_path\":\""@) {
                Some((file_path, i3)) => match spec_p_str(s, i3, ",\"sha\":\""@) {
                    Some((sha, i4)) => match spec_lit(s, i4, "}}}"@) {
                        Some(i5) => if i5 == s.len() {
                            Some((id, peer_id, file_path, sha))
                        } else {
                            None
                        },
                        None => None,
                    },
                    None => None,
                },
                None => None,
            },
            None => None,
        },
        None => None,
    }
}

/// The field shape of a data chunk: an id, a peer id, a path, an offset
/// and base64 data, closing the frame.
pub open spec fn spec_dec_write(s: Seq<char>, i: int) -> Option<
    (Seq<char>, Seq<char>, Seq<char>, u64, Seq<u8>),
> {
    match spec_p_str(s, i, ":{\"id\":\""@) {
        Some((id, i1)) => match spec_p_str(s, i1, ",\"peer_id\":\""@) {
            Some((peer_id, i2)) => match spec_p_str(s, i2, ",\"file_path\":\""@) {
                Some((file_path, i3)) => match spec_lit(s, i3, ",\"offset\":"@) {
                    Some(i4) => match spec_parse_u64(s, i4) {
                        Some((offset, i5)) => match spec_lit(s, i5, ",\"data\":\""@) {
                            Some(i6) => match spec_parse_b64(s, i6) {
                                Some((data, i7)) => match spec_lit(s, i7, "\"}}}"@) {
                                    Some(i8) => if i8 == s.len() {
                                        Some((id, peer_id, file_path, offset, data))
                                    } else {
                                        None
                                    },
                                    None => None,
                                },
                                None => None,
                            },
                            None => None,
                        },
                        None => None,
                    },
                    None => None,
                },
                None => None,
            },
            None => None,
        },
        None => None,
    }
}

/// Decodes the fields of the command named `name`, the cursor sitting
/// just past the name's closing quote.
pub open spec fn spec_decode_command(s: Seq<char>, name: Seq<char>, i: int) -> Option<CommandV> {
    if name == "Connect"@ {
        match spec_dec_conn(s, i) {
            Some((id, client_id, port)) => Some(CommandV::Connect { id, client_id, port }),
            None => None,
        }
    } else if name == "Leave"@ {
        match spec_dec_two(s, i) {
            Some((id, client_id)) => Some(CommandV::Leave { id, client_id }),
            None => None,
        }
    } else if name == "CreateNewFile"@ {
        match spec_dec_four(s, i) {
            Some((id, peer_id, file_path, sha)) => Some(
                CommandV::CreateNewFile { id, peer_id, file_path, sha },
            ),
            None => None,
        }
    } else if name == "CreateFolder"@ {
        match spec_dec_three(s, i, ",\"folder_path\":\""@) {
            Some((id, peer_id, folder_path)) => Some(
                CommandV::CreateFolder { id, peer_id, folder_path },
            ),
            None => None,
        }
    } else if name == "ModifyFile"@ {
        match spec_dec_three(s, i, ",\"file_path\":\""@) {
            Some((id, peer_id, file_path)) => Some(
                CommandV::ModifyFile { id, peer_id, file_path },
            ),
            None => None,
        }
    } else if name == "DataRequestCommand"@ {
        match spec_dec_three(s, i, ",\"file_path\":\""@) {
            Some((id, peer_id, file_path)) => Some(
                CommandV::DataRequestCommand { id, peer_id, file_path },
            ),
            None => None,
        }
    } else if name == "WriteDataCommand"@ {
        match spec_dec_write(s, i) {
            Some((id, peer_id, file_path, offset, data)) => Some(
                CommandV::WriteDataCommand { id, peer_id, file_path, offset, data },
            ),
            None => None,
        }
    } else if name == "Test"@ {
        match spec_dec_three(s, i, ",\"message\":\""@) {
            Some((id, peer_id, message)) => Some(CommandV::Test { id, peer_id, message }),
            None => None,
        }
    } else {
        None
    }
}

/// Decodes the fields of the event named `name`.
pub open spec fn spec_decode_event(s: Seq<char>, name: Seq<char>, i: int) -> Option<EventV> {
    if name == "Connected"@ {
        match spec_dec_conn(s, i) {
            Some((id, client_id, port)) => Some(EventV::Connected { id, client_id, port }),
            None => None,
        }
    } else if name == "Left"@ {
        match spec_dec_two(s, i) {
            Some((id, client_id)) => Some(EventV::Left { id, client_id }),
            None => None,
        }
    } else {
        None
    }
}

/// Decodes one line of text (without its newline) as a message. On the
/// canonical rendering of any message this yields that message back.
pub open spec fn spec_decode_message(s: Seq<char>) -> Option<PeerMessageV> {
    match spec_lit(s, 0, "{\"peer_message\":\"PeerCommand\",\"command\":{\""@) {
        Some(i) => match spec_parse_jstring(s, i) {
            Some((name, j)) => match spec_decode_command(s, name, j) {
                Some(command) => Some(PeerMessageV::PeerCommand { command }),
                None => None,
            },
            None => None,
        },
        None => match spec_lit(s, 0, "{\"peer_message\":\"PeerEvent\",\"event\":{\""@) {
            Some(i) => match spec_parse_jstring(s, i) {
                Some((name, j)) => match spec_decode_event(s, name, j) {
                    Some(event) => Some(PeerMessageV::PeerEvent { event }),
                    None => None,
                },
                None => None,
            },
            None => None,
        },
    }
}

/// Executable twin of [`spec_p_str`].
fn p_str(s: &Vec<char>, i: usize, lit: &str) -> (r: Option<(String, usize)>)
    requires
        i <= s@.len(),
    ensures
        match r {
            Some((x, j)) => spec_p_str(s@, i as int, lit@) == Some((x@, j as int)) && i <= j
                <= s@.len(),
            None => spec_p_str(s@, i as int, lit@) is None,
        },
{
    match expect_lit(s, i, lit) {
        Some(j) => match parse_jstring(s, j) {
            Some((content, k)) => Some((string_from_chars(content.as_slice()), k)),
            None => None,
        },
        None => None,
    }
}

/// Executable twin of [`spec_dec_conn`].
fn dec_conn(s: &Vec<char>, i: usize) -> (r: Option<(String, String, i32)>)
    requires
        i <= s@.len(),
    ensures
        match r {
            Some((id, client_id, port)) => spec_dec_conn(s@, i as int) == Some(
                (id@, client_id@, port),
            ),
            None => spec_dec_conn(s@, i as int) is None,
        },
{
    match p_str(s, i, ":{\"id\":\"") {
        Some((id, i1)) => match p_str(s, i1, ",\"client_id\":\"") {
            Some((client_id, i2)) => match expect_lit(s, i2, ",\"port\":") {
                Some(i3) => match parse_i32(s, i3) {
                    Some((port, i4)) => match expect_lit(s, i4, "}}}") {
                        Some(i5) => if i5 == s.len() {
                            Some((id, client_id, port))
                        } else {
                            None
                        },
                        None => None,
                    },
                    None => None,
                },
                None => None,
            },
            None => None,
        },
        None => None,
    }
}

/// Executable twin of [`spec_dec_two`].
fn dec_two(s: &Vec<char>, i: usize) -> (r: Option<(String, String)>)
    requires
        i <= s@.len(),
    ensures
        match r {
            Some((id, client_id)) => spec_dec_two(s@, i as int) == Some((id@, client_id@)),
            None => spec_dec_two(s@, i as int) is None,
        },
{
    match p_str(s, i, ":{\"id\":\"") {
        Some((id, i1)) => match p_str(s, i1, ",\"client_id\":\"") {
            Some((client_id, i2)) => match expect_lit(s, i2, "}}}") {
                Some(i3) => if i3 == s.len() {
                    Some((id, client_id))
                } else {
                    None
                },
                None => None,
            },
            None => None,
        },
        None => None,
    }
}

/// Executable twin of [`spec_dec_three`].
fn dec_three(s: &Vec<char>, i: usize, lit3: &str) -> (r: Option<(String, String, String)>)
    requires
        i <= s@.len(),
    ensures
        match r {
            Some((id, peer_id, x)) => spec_dec_three(s@, i as int, lit3@) == Some(
                (id@, peer_id@, x@),
            ),
            None => spec_dec_three(s@, i as int, lit3@) is None,
        },
{
    match p_str(s, i, ":{\"id\":\"") {
        Some((id, i1)) => match p_str(s, i1, ",\"peer_id\":\"") {
            Some((peer_id, i2)) => match p_str(s, i2, lit3) {
                Some((x, i3)) => match expect_lit(s, i3, "}}}") {
                    Some(i4) => if i4 == s.len() {
                        Some((id, peer_id, x))
                    } else {
                        None
                    },
                    None => None,
                },
                None => None,
            },
            None => None,
        },
        None => None,
    }
}

/// Executable twin of [`spec_dec_four`].
fn dec_four(s: &Vec<char>, i: usize) -> (r: Option<(String, String, String, String)>)
    requires
        i <= s@.len(),
    ensures
        match r {
            Some((id, peer_id, file_path, sha)) => spec_dec_four(s@, i as int) == Some(
                (id@, peer_id@, file_path@, sha@),
            ),
            None => spec_dec_four(s@, i as int) is None,
        },
{
    match p_str(s, i, ":{\"id\":\"") {
        Some((id, i1)) => match p_str(s, i1, ",\"peer_id\":\"") {
            Some((peer_id, i2)) => match p_str(s, i2, ",\"file_path\":\"") {
                Some((file_path, i3)) => match p_str(s, i3, ",\"sha\":\"") {
                    Some((sha, i4)) => match expect_lit(s, i4, "}}}") {
                        Some(i5) => if i5 == s.len() {
                            Some((id, peer_id, file_path, sha))
                        } else {
                            None
                        },
                        None => None,
                    },
                    None => None,
                },
                None => None,
            },
            None => None,
        },
        None => None,
    }
}

/// Executable twin of [`spec_dec_write`].
fn dec_write(s: &Vec<char>, i: usize) -> (r: Option<(String, String, String, u64, Vec<u8>)>)
    requires
        i <= s@.len(),
    ensures
        match r {
            Some((id, peer_id, file_path, offset, data)) => spec_dec_write(s@, i as int) == Some(
                (id@, peer_id@, file_path@, offset, data@),
            ),
            None => spec_dec_write(s@, i as int) is None,
        },
{
    match p_str(s, i, ":{\"id\":\"") {
        Some((id, i1)) => match p_str(s, i1, ",\"peer_id\":\"") {
            Some((peer_id, i2)) => match p_str(s, i2, ",\"file_path\":\"") {
                Some((file_path, i3)) => match expect_lit(s, i3, ",\"offset\":") {
                    Some(i4) => match parse_u64(s, i4) {
                        Some((offset, i5)) => match expect_lit(s, i5, ",\"data\":\"") {
                            Some(i6) => match parse_b64(s, i6) {
                                Some((data, i7)) => match expect_lit(s, i7, "\"}}}") {
                                    Some(i8) => if i8 == s.len() {
                                        Some((id, peer_id, file_path, offset, data))
                                    } else {
                                        None
                                    },
                                    None => None,
                                },
                                None => None,
                            },
                            None => None,
                        },
                        None => None,
                    },
                    None => None,
                },
                None => None,
            },
            None => None,
        },
        None => None,
    }
}

/// Executable twin of [`spec_decode_command`].
fn decode_command(s: &Vec<char>, name: &Vec<char>, i: usize) -> (r: Option<Command>)
    requires
        i <= s@.len(),
    ensures
        match r {
            Some(c) => spec_decode_command(s@, name@, i as int) == Some(c@),
            None => spec_decode_command(s@, name@, i as int) is None,
        },
{
    if chars_eq_str(name, "Connect") {
        match dec_conn(s, i) {
            Some((id, client_id, port)) => Some(Command::Connect { id, client_id, port }),
            None => None,
        }
    } else if chars_eq_str(name, "Leave") {
        match dec_two(s, i) {
            Some((id, client_id)) => Some(Command::Leave { id, client_id }),
            None => None,
        }
    } else if chars_eq_str(name, "CreateNewFile") {
        match dec_four(s, i) {
            Some((id, peer_id, file_path, sha)) => Some(
                Command::CreateNewFile { id, peer_id, file_path, sha },
            ),
            None => None,
        }
    } else if chars_eq_str(name, "CreateFolder") {
        match dec_three(s, i, ",\"folder_path\":\"") {
            Some((id, peer_id, folder_path)) => Some(
                Command::CreateFolder { id, peer_id, folder_path },
            ),
            None => None,
        }
    } else if chars_eq_str(name, "ModifyFile") {
        match dec_three(s, i, ",\"file_path\":\"") {
            Some((id, peer_id, file_path)) => Some(Command::ModifyFile { id, peer_id, file_path }),
            None => None,
        }
    } else if chars_eq_str(name, "DataRequestCommand") {
        match dec_three(s, i, ",\"file_path\":\"") {
            Some((id, peer_id, file_path)) => Some(
                Command::DataRequestCommand { id, peer_id, file_path },
            ),
            None => None,
        }
    } else if chars_eq_str(name, "WriteDataCommand") {
        match dec_write(s, i) {
            Some((id, peer_id, file_path, offset, data)) => Some(
                Command::WriteDataCommand { id, peer_id, file_path, offset, data },
            ),
            None => None,
        }
    } else if chars_eq_str(name, "Test") {
        match dec_three(s, i, ",\"message\":\"") {
            Some((id, peer_id, message)) => Some(Command::Test { id, peer_id, message }),
            None => None,
        }
    } else {
        None
    }
}

/// Executable twin of [`spec_decode_event`].
fn decode_event(s: &Vec<char>, name: &Vec<char>, i: usize) -> (r: Option<Event>)
    requires
        i <= s@.len(),
    ensures
        match r {
            Some(e) => spec_decode_event(s@, name@, i as int) == Some(e@),
            None => spec_decode_event(s@, name@, i as int) is None,
        },
{
    if chars_eq_str(name, "Connected") {
        match dec_conn(s, i) {
            Some((id, client_id, port)) => Some(Event::Connected { id, client_id, port }),
            None => None,
        }
    } else if chars_eq_str(name, "Left") {
        match dec_two(s, i) {
            Some((id, client_id)) => Some(Event::Left { id, client_id }),
            None => None,
        }
    } else {
        None
    }
}

/// Parses one line of text (without its newline) as a message; rejects
/// anything but the canonical rendering of a message.
pub fn decode_peer_message(line: &str) -> (r: Option<PeerMessage>)
    ensures
        match r {
            Some(m) => spec_decode_message(line@) == Some(m@),
            None => spec_decode_message(line@) is None,
        },
{
    let s = chars_of(line);
    match expect_lit(&s, 0, "{\"peer_message\":\"PeerCommand\",\"command\":{\"") {
        Some(i) => match parse_jstring(&s, i) {
            Some((name, j)) => match decode_command(&s, &name, j) {
                Some(command) => Some(PeerMessage::PeerCommand { command }),
                None => None,
            },
            None => None,
        },
        None => match expect_lit(&s, 0, "{\"peer_message\":\"PeerEvent\",\"event\":{\"") {
            Some(i) => match parse_jstring(&s, i) {
                Some((name, j)) => match decode_event(&s, &name, j) {
                    Some(event) => Some(PeerMessage::PeerEvent { event }),
                    None => None,
                },
                None => None,
            },
            None => None,
        },
    }
}

/// Renders a message as one full wire frame: its text and the single
/// terminating newline.
pub fn encode_frame(m: &PeerMessage) -> (s: String)
    ensures
        s@ == spec_encode_message(m@) + seq!['\n'],
{
    let mut out = encode_peer_message(m);
    out.push('\n');
    let s = string_from_chars(out.as_slice());
    proof {
        assert(s@ =~= spec_encode_message(m@) + seq!['\n']);
    }
    s
}



/// The two envelope prefixes differ, so an event frame never matches the
/// command prefix.
proof fn lemma_pc_prefix_none(s: Seq<char>, rest: Seq<char>)
    requires
        s == "{\"peer_message\":\"PeerEvent\",\"event\":{\""@ + rest,
    ensures
        spec_lit(s, 0, "{\"peer_message\":\"PeerCommand\",\"command\":{\""@) is None,
{
    reveal_strlit("{\"peer_message\":\"PeerCommand\",\"command\":{\"");
    reveal_strlit("{\"peer_message\":\"PeerEvent\",\"event\":{\"");
    assert("{\"peer_message\":\"PeerCommand\",\"command\":{\""@.len() == 42);
    assert("{\"peer_message\":\"PeerEvent\",\"event\":{\""@.len() == 38);
    assert("{\"peer_message\":\"PeerCommand\",\"command\":{\""@[21] == 'C');
    assert("{\"peer_message\":\"PeerEvent\",\"event\":{\""@[21] == 'E');
    if "{\"peer_message\":\"PeerCommand\",\"command\":{\""@.len() <= s.len() {
        assert(s[21] == "{\"peer_message\":\"PeerEvent\",\"event\":{\""@[21]);
        assert(s.subrange(0, "{\"peer_message\":\"PeerCommand\",\"command\":{\""@.len() as int)[21] == s[21]);
    }
}

/// The command variant names are pairwise distinct.
proof fn lemma_cmd_names()
    ensures
        "Leave"@ != "Connect"@,
        "CreateNewFile"@ != "Connect"@,
        "CreateNewFile"@ != "Leave"@,
        "CreateFolder"@ != "Connect"@,
        "CreateFolder"@ != "Leave"@,
        "CreateFolder"@ != "CreateNewFile"@,
        "ModifyFile"@ != "Connect"@,
        "ModifyFile"@ != "Leave"@,
        "ModifyFile"@ != "CreateNewFile"@,
        "ModifyFile"@ != "CreateFolder"@,
        "DataRequestCommand"@ != "Connect"@,
        "DataRequestCommand"@ != "Leave"@,
        "DataRequestCommand"@ != "CreateNewFile"@,
        "DataRequestCommand"@ != "CreateFolder"@,
        "DataRequestCommand"@ != "ModifyFile"@,
        "WriteDataCommand"@ != "Connect"@,
        "WriteDataCommand"@ != "Leave"@,
        "WriteDataCommand"@ != "CreateNewFile"@,
        "WriteDataCommand"@ != "CreateFolder"@,
        "WriteDataCommand"@ != "ModifyFile"@,
        "WriteDataCommand"@ != "DataRequestCommand"@,
        "Test"@ != "Connect"@,
        "Test"@ != "Leave"@,
        "Test"@ != "CreateNewFile"@,
        "Test"@ != "CreateFolder"@,
        "Test"@ != "ModifyFile"@,
        "Test"@ != "DataRequestCommand"@,
        "Test"@ != "WriteDataCommand"@,
{
    reveal_strlit("Connect");
    reveal_strlit("Leave");
    reveal_strlit("CreateNewFile");
    reveal_strlit("CreateFolder");
    reveal_strlit("ModifyFile");
    reveal_strlit("DataRequestCommand");
    reveal_strlit("WriteDataCommand");
    reveal_strlit("Test");
    assert("Connect"@.len() == 7);
    assert("Leave"@.len() == 5);
    assert("CreateNewFile"@.len() == 13);
    assert("CreateFolder"@.len() == 12);
    assert("ModifyFile"@.len() == 10);
    assert("DataRequestCommand"@.len() == 18);
    assert("WriteDataCommand"@.len() == 16);
    assert("Test"@.len() == 4);
}

/// The event variant names are distinct.
proof fn lemma_evt_names()
    ensures
        "Left"@ != "Connected"@,
{
    reveal_strlit("Connected");
    reveal_strlit("Left");
    assert("Connected"@.len() == 9);
    assert("Left"@.len() == 4);
}




/// Assembles a decoded command from the envelope facts.
proof fn rt_cmd_conclude(s: Seq<char>, name: Seq<char>, command: CommandV, p0: int, p1: int)
    requires
        spec_lit(s, 0, "{\"peer_message\":\"PeerCommand\",\"command\":{\""@) == Some(p0),
        spec_parse_jstring(s, p0) == Some((name, p1)),
        spec_decode_command(s, name, p1) == Some(command),
    ensures
        spec_decode_message(s) == Some(PeerMessageV::PeerCommand { command }),
{
}

/// Assembles a decoded event from the envelope facts.
proof fn rt_evt_conclude(s: Seq<char>, name: Seq<char>, event: EventV, p0: int, p1: int)
    requires
        spec_lit(s, 0, "{\"peer_message\":\"PeerCommand\",\"command\":{\""@) is None,
        spec_lit(s, 0, "{\"peer_message\":\"PeerEvent\",\"event\":{\""@) == Some(p0),
        spec_parse_jstring(s, p0) == Some((name, p1)),
        spec_decode_event(s, name, p1) == Some(event),
    ensures
        spec_decode_message(s) == Some(PeerMessageV::PeerEvent { event }),
{
}

proof fn rt_dispatch_connect(s: Seq<char>, id: Seq<char>, client_id: Seq<char>, port: i32, p1: int)
    requires
        spec_dec_conn(s, p1) == Some((id, client_id, port)),
    ensures
        spec_decode_command(s, "Connect"@, p1) == Some(CommandV::Connect { id, client_id, port }),
{
    lemma_cmd_names();
}

proof fn rt_dispatch_leave(s: Seq<char>, id: Seq<char>, client_id: Seq<char>, p1: int)
    requires
        spec_dec_two(s, p1) == Some((id, client_id)),
    ensures
        spec_decode_command(s, "Leave"@, p1) == Some(CommandV::Leave { id, client_id }),
{
    lemma_cmd_names();
}

proof fn rt_dispatch_createnewfile(s: Seq<char>, id: Seq<char>, peer_id: Seq<char>, file_path: Seq<char>, sha: Seq<char>, p1: int)
    requires
        spec_dec_four(s, p1) == Some((id, peer_id, file_path, sha)),
    ensures
        spec_decode_command(s, "CreateNewFile"@, p1) == Some(CommandV::CreateNewFile { id, peer_id, file_path, sha }),
{
    lemma_cmd_names();
}

proof fn rt_dispatch_createfolder(s: Seq<char>, id: Seq<char>, peer_id: Seq<char>, folder_path: Seq<char>, p1: int)
    requires
        spec_dec_three(s, p1, ",\"folder_path\":\""@) == Some((id, peer_id, folder_path)),
    ensures
        spec_decode_command(s, "CreateFolder"@, p1) == Some(CommandV::CreateFolder { id, peer_id, folder_path }),
{
    lemma_cmd_names();
}

proof fn rt_dispatch_modifyfile(s: Seq<char>, id: Seq<char>, peer_id: Seq<char>, file_path: Seq<char>, p1: int)
    requires
        spec_dec_three(s, p1, ",\"file_path\":\""@) == Some((id, peer_id, file_path)),
    ensures
        spec_decode_command(s, "ModifyFile"@, p1) == Some(CommandV::ModifyFile { id, peer_id, file_path }),
{
    lemma_cmd_names();
}

proof fn rt_dispatch_datarequestcommand(s: Seq<char>, id: Seq<char>, peer_id: Seq<char>, file_path: Seq<char>, p1: int)
    requires
        spec_dec_three(s, p1, ",\"file_path\":\""@) == Some((id, peer_id, file_path)),
    ensures
        spec_decode_command(s, "DataRequestCommand"@, p1) == Some(CommandV::DataRequestCommand { id, peer_id, file_path }),
{
    lemma_cmd_names();
}

proof fn rt_dispatch_writedatacommand(s: Seq<char>, id: Seq<char>, peer_id: Seq<char>, file_path: Seq<char>, offset: u64, data: Seq<u8>, p1: int)
    requires
        spec_dec_write(s, p1) == Some((id, peer_id, file_path, offset, data)),
    ensures
        spec_decode_command(s, "WriteDataCommand"@, p1) == Some(CommandV::WriteDataCommand { id, peer_id, file_path, offset, data }),
{
    lemma_cmd_names();
}

proof fn rt_dispatch_test(s: Seq<char>, id: Seq<char>, peer_id: Seq<char>, message: Seq<char>, p1: int)
    requires
        spec_dec_three(s, p1, ",\"message\":\""@) == Some((id, peer_id, message)),
    ensures
        spec_decode_command(s, "Test"@, p1) == Some(CommandV::Test { id, peer_id, message }),
{
    lemma_cmd_names();
}

proof fn rt_dispatch_connected(s: Seq<char>, id: Seq<char>, client_id: Seq<char>, port: i32, p1: int)
    requires
        spec_dec_conn(s, p1) == Some((id, client_id, port)),
    ensures
        spec_decode_event(s, "Connected"@, p1) == Some(EventV::Connected { id, client_id, port }),
{
    lemma_evt_names();
}

proof fn rt_dispatch_left(s: Seq<char>, id: Seq<char>, client_id: Seq<char>, p1: int)
    requires
        spec_dec_two(s, p1) == Some((id, client_id)),
    ensures
        spec_decode_event(s, "Left"@, p1) == Some(EventV::Left { id, client_id }),
{
    lemma_evt_names();
}


/// Walks the command envelope: the prefix, then the variant name and its
/// closing quote.
proof fn rt_cmd_envelope(s: Seq<char>, name: Seq<char>, t1: Seq<char>)
    requires
        spec_escape(name) == name,
        s == "{\"peer_message\":\"PeerCommand\",\"command\":{\""@ + (name + (seq!['"'] + t1)),
    ensures
        spec_lit(s, 0, "{\"peer_message\":\"PeerCommand\",\"command\":{\""@) == Some(
            "{\"peer_message\":\"PeerCommand\",\"command\":{\""@.len() as int,
        ),
        spec_parse_jstring(s, "{\"peer_message\":\"PeerCommand\",\"command\":{\""@.len() as int)
            == Some(
            (
                name,
                ("{\"peer_message\":\"PeerCommand\",\"command\":{\""@.len() + name.len()
                    + 1) as int,
            ),
        ),
        0 <= "{\"peer_message\":\"PeerCommand\",\"command\":{\""@.len() + name.len() + 1
            <= s.len(),
        tail(s, ("{\"peer_message\":\"PeerCommand\",\"command\":{\""@.len() + name.len() + 1) as int) == t1,
{
    assert(tail(s, 0) =~= s);
    lemma_lit_step(
        s,
        0,
        "{\"peer_message\":\"PeerCommand\",\"command\":{\""@,
        name + (seq!['"'] + t1),
    );
    let p0: int = "{\"peer_message\":\"PeerCommand\",\"command\":{\""@.len() as int;
    lemma_jstr_step(s, p0, name, t1);
}

/// Walks the event envelope, showing first that the frame is no command.
proof fn rt_evt_envelope(s: Seq<char>, name: Seq<char>, t1: Seq<char>)
    requires
        spec_escape(name) == name,
        s == "{\"peer_message\":\"PeerEvent\",\"event\":{\""@ + (name + (seq!['"'] + t1)),
    ensures
        spec_lit(s, 0, "{\"peer_message\":\"PeerCommand\",\"command\":{\""@) is None,
        spec_lit(s, 0, "{\"peer_message\":\"PeerEvent\",\"event\":{\""@) == Some(
            "{\"peer_message\":\"PeerEvent\",\"event\":{\""@.len() as int,
        ),
        spec_parse_jstring(s, "{\"peer_message\":\"PeerEvent\",\"event\":{\""@.len() as int)
            == Some(
            (name, ("{\"peer_message\":\"PeerEvent\",\"event\":{\""@.len() + name.len() + 1) as int),
        ),
        0 <= "{\"peer_message\":\"PeerEvent\",\"event\":{\""@.len() + name.len() + 1
            <= s.len(),
        tail(
            s,
            ("{\"peer_message\":\"PeerEvent\",\"event\":{\""@.len() + name.len() + 1) as int,
        ) == t1,
{
    lemma_pc_prefix_none(s, name + (seq!['"'] + t1));
    assert(tail(s, 0) =~= s);
    lemma_lit_step(
        s,
        0,
        "{\"peer_message\":\"PeerEvent\",\"event\":{\""@,
        name + (seq!['"'] + t1),
    );
    let p0: int = "{\"peer_message\":\"PeerEvent\",\"event\":{\""@.len() as int;
    lemma_jstr_step(s, p0, name, t1);
}

#[verifier::rlimit(100)]
#[verifier::spinoff_prover]
proof fn rt_conn_fields(s: Seq<char>, id: Seq<char>, client_id: Seq<char>, port: i32, p1: int)
    requires
        0 <= p1 <= s.len(),
        tail(s, p1) == ":{\"id\":\""@ + (spec_escape(id) + (seq!['"'] + (",\"client_id\":\""@ + (spec_escape(client_id) + (seq!['"'] + (",\"port\":"@ + (spec_dec_i32(port as int) + ("}}}"@)))))))),
    ensures
        spec_dec_conn(s, p1) == Some((id, client_id, port)),
{
    let u8 = "}}}"@;
    let u7 = spec_dec_i32(port as int) + u8;
    let u6 = ",\"port\":"@ + u7;
    let u5 = seq!['"'] + u6;
    let u4 = spec_escape(client_id) + u5;
    let u3 = ",\"client_id\":\""@ + u4;
    let u2 = seq!['"'] + u3;
    let u1 = spec_escape(id) + u2;
    let u0 = ":{\"id\":\""@ + u1;
    reveal_strlit("}}}");
    lemma_lit_step(s, p1, ":{\"id\":\""@, u1);
    let q1: int = p1 + ":{\"id\":\""@.len();
    lemma_jstr_step(s, q1, id, u3);
    let q2: int = q1 + spec_escape(id).len() + 1;
    lemma_lit_step(s, q2, ",\"client_id\":\""@, u4);
    let q3: int = q2 + ",\"client_id\":\""@.len();
    lemma_jstr_step(s, q3, client_id, u6);
    let q4: int = q3 + spec_escape(client_id).len() + 1;
    lemma_lit_step(s, q4, ",\"port\":"@, u7);
    let q5: int = q4 + ",\"port\":"@.len();
    assert(u8.len() > 0 && !is_dec_digit(u8[0]));
    lemma_i32_step(s, q5, port, u8);
    let q6: int = q5 + spec_dec_i32(port as int).len();
    assert(u8 =~= "}}}"@ + Seq::<char>::empty());
    lemma_lit_step(s, q6, "}}}"@, Seq::<char>::empty());
    let q7: int = q6 + "}}}"@.len();
    assert(tail(s, q7).len() == 0);
    assert(q7 == s.len());
}

#[verifier::rlimit(100)]
#[verifier::spinoff_prover]
proof fn rt_two_fields(s: Seq<char>, id: Seq<char>, client_id: Seq<char>, p1: int)
    requires
        0 <= p1 <= s.len(),
        tail(s, p1) == ":{\"id\":\""@ + (spec_escape(id) + (seq!['"'] + (",\"client_id\":\""@ + (spec_escape(client_id) + (seq!['"'] + ("}}}"@)))))),
    ensures
        spec_dec_two(s, p1) == Some((id, client_id)),
{
    let u6 = "}}}"@;
    let u5 = seq!['"'] + u6;
    let u4 = spec_escape(client_id) + u5;
    let u3 = ",\"client_id\":\""@ + u4;
    let u2 = seq!['"'] + u3;
    let u1 = spec_escape(id) + u2;
    let u0 = ":{\"id\":\""@ + u1;
    
    lemma_lit_step(s, p1, ":{\"id\":\""@, u1);
    let q1: int = p1 + ":{\"id\":\""@.len();
    lemma_jstr_step(s, q1, id, u3);
    let q2: int = q1 + spec_escape(id).len() + 1;
    lemma_lit_step(s, q2, ",\"client_id\":\""@, u4);
    let q3: int = q2 + ",\"client_id\":\""@.len();
    lemma_jstr_step(s, q3, client_id, u6);
    let q4: int = q3 + spec_escape(client_id).len() + 1;
    assert(u6 =~= "}}}"@ + Seq::<char>::empty());
    lemma_lit_step(s, q4, "}}}"@, Seq::<char>::empty());
    let q5: int = q4 + "}}}"@.len();
    assert(tail(s, q5).len() == 0);
    assert(q5 == s.len());
}

#[verifier::rlimit(100)]
#[verifier::spinoff_prover]
proof fn rt_three_fields(s: Seq<char>, id: Seq<char>, peer_id: Seq<char>, x: Seq<char>, lit3: Seq<char>, p1: int)
    requires
        0 <= p1 <= s.len(),
        tail(s, p1) == ":{\"id\":\""@ + (spec_escape(id) + (seq!['"'] + (",\"peer_id\":\""@ + (spec_escape(peer_id) + (seq!['"'] + (lit3 + (spec_escape(x) + (seq!['"'] + ("}}}"@))))))))),
    ensures
        spec_dec_three(s, p1, lit3) == Some((id, peer_id, x)),
{
    let u9 = "}}}"@;
    let u8 = seq!['"'] + u9;
    let u7 = spec_escape(x) + u8;
    let u6 = lit3 + u7;
    let u5 = seq!['"'] + u6;
    let u4 = spec_escape(peer_id) + u5;
    let u3 = ",\"peer_id\":\""@ + u4;
    let u2 = seq!['"'] + u3;
    let u1 = spec_escape(id) + u2;
    let u0 = ":{\"id\":\""@ + u1;
    
    lemma_lit_step(s, p1, ":{\"id\":\""@, u1);
    let q1: int = p1 + ":{\"id\":\""@.len();
    lemma_jstr_step(s, q1, id, u3);
    let q2: int = q1 + spec_escape(id).len() + 1;
    lemma_lit_step(s, q2, ",\"peer_id\":\""@, u4);
    let q3: int = q2 + ",\"peer_id\":\""@.len();
    lemma_jstr_step(s, q3, peer_id, u6);
    let q4: int = q3 + spec_escape(peer_id).len() + 1;
    lemma_lit_step(s, q4, lit3, u7);
    let q5: int = q4 + lit3.len();
    lemma_jstr_step(s, q5, x, u9);
    let q6: int = q5 + spec_escape(x).len() + 1;
    assert(u9 =~= "}}}"@ + Seq::<char>::empty());
    lemma_lit_step(s, q6, "}}}"@, Seq::<char>::empty());
    let q7: int = q6 + "}}}"@.len();
    assert(tail(s, q7).len() == 0);
    assert(q7 == s.len());
}

#[verifier::rlimit(100)]
#[verifier::spinoff_prover]
proof fn rt_four_fields(s: Seq<char>, id: Seq<char>, peer_id: Seq<char>, file_path: Seq<char>, sha: Seq<char>, p1: int)
    requires
        0 <= p1 <= s.len(),
        tail(s, p1) == ":{\"id\":\""@ + (spec_escape(id) + (seq!['"'] + (",\"peer_id\":\""@ + (spec_escape(peer_id) + (seq!['"'] + (",\"file_path\":\""@ + (spec_escape(file_path) + (seq!['"'] + (",\"sha\":\""@ + (spec_escape(sha) + (seq!['"'] + ("}}}"@)))))))))))),
    ensures
        spec_dec_four(s, p1) == Some((id, peer_id, file_path, sha)),
{
    let u12 = "}}}"@;
    let u11 = seq!['"'] + u12;
    let u10 = spec_escape(sha) + u11;
    let u9 = ",\"sha\":\""@ + u10;
    let u8 = seq!['"'] + u9;
    let u7 = spec_escape(file_path) + u8;
    let u6 = ",\"file_path\":\""@ + u7;
    let u5 = seq!['"'] + u6;
    let u4 = spec_escape(peer_id) + u5;
    let u3 = ",\"peer_id\":\""@ + u4;
    let u2 = seq!['"'] + u3;
    let u1 = spec_escape(id) + u2;
    let u0 = ":{\"id\":\""@ + u1;
    
    lemma_lit_step(s, p1, ":{\"id\":\""@, u1);
    let q1: int = p1 + ":{\"id\":\""@.len();
    lemma_jstr_step(s, q1, id, u3);
    let q2: int = q1 + spec_escape(id).len() + 1;
    lemma_lit_step(s, q2, ",\"peer_id\":\""@, u4);
    let q3: int = q2 + ",\"peer_id\":\""@.len();
    lemma_jstr_step(s, q3, peer_id, u6);
    let q4: int = q3 + spec_escape(peer_id).len() + 1;
    lemma_lit_step(s, q4, ",\"file_path\":\""@, u7);
    let q5: int = q4 + ",\"file_path\":\""@.len();
    lemma_jstr_step(s, q5, file_path, u9);
    let q6: int = q5 + spec_escape(file_path).len() + 1;
    lemma_lit_step(s, q6, ",\"sha\":\""@, u10);
    let q7: int = q6 + ",\"sha\":\""@.len();
    lemma_jstr_step(s, q7, sha, u12);
    let q8: int = q7 + spec_escape(sha).len() + 1;
    assert(u12 =~= "}}}"@ + Seq::<char>::empty());
    lemma_lit_step(s, q8, "}}}"@, Seq::<char>::empty());
    let q9: int = q8 + "}}}"@.len();
    assert(tail(s, q9).len() == 0);
    assert(q9 == s.len());
}

#[verifier::rlimit(100)]
#[verifier::spinoff_prover]
proof fn rt_connect(id: Seq<char>, client_id: Seq<char>, port: i32)
    ensures
        spec_decode_message(spec_encode_message(PeerMessageV::PeerCommand { command: CommandV::Connect { id, client_id, port } })) == Some(PeerMessageV::PeerCommand { command: CommandV::Connect { id, client_id, port } }),
{
    let t1 = ":{\"id\":\""@ + (spec_escape(id) + (seq!['"'] + (",\"client_id\":\""@ + (spec_escape(client_id) + (seq!['"'] + (",\"port\":"@ + (spec_dec_i32(port as int) + ("}}}"@))))))));
    let t0 = "Connect"@ + (seq!['"'] + t1);
    reveal_strlit("Connect");
        let s = spec_encode_message(PeerMessageV::PeerCommand { command: CommandV::Connect { id, client_id, port } });
    lemma_escape_plain("Connect"@);
    rt_cmd_envelope(s, "Connect"@, t1);
    let p0: int = "{\"peer_message\":\"PeerCommand\",\"command\":{\""@.len() as int;
    let p1: int = p0 + "Connect"@.len() + 1;
    rt_conn_fields(s, id, client_id, port, p1);
    rt_dispatch_connect(s, id, client_id, port, p1);
    rt_cmd_conclude(s, "Connect"@, CommandV::Connect { id, client_id, port }, p0, p1);
}

#[verifier::rlimit(100)]
#[verifier::spinoff_prover]
proof fn rt_leave(id: Seq<char>, client_id: Seq<char>)
    ensures
        spec_decode_message(spec_encode_message(PeerMessageV::PeerCommand { command: CommandV::Leave { id, client_id } })) == Some(PeerMessageV::PeerCommand { command: CommandV::Leave { id, client_id } }),
{
    let t1 = ":{\"id\":\""@ + (spec_escape(id) + (seq!['"'] + (",\"client_id\":\""@ + (spec_escape(client_id) + (seq!['"'] + ("}}}"@))))));
    let t0 = "Leave"@ + (seq!['"'] + t1);
    reveal_strlit("Leave");
        let s = spec_encode_message(PeerMessageV::PeerCommand { command: CommandV::Leave { id, client_id } });
    lemma_escape_plain("Leave"@);
    rt_cmd_envelope(s, "Leave"@, t1);
    let p0: int = "{\"peer_message\":\"PeerCommand\",\"command\":{\""@.len() as int;
    let p1: int = p0 + "Leave"@.len() + 1;
    rt_two_fields(s, id, client_id, p1);
    rt_dispatch_leave(s, id, client_id, p1);
    rt_cmd_conclude(s, "Leave"@, CommandV::Leave { id, client_id }, p0, p1);
}

#[verifier::rlimit(100)]
#[verifier::spinoff_prover]
proof fn rt_create_new_file(id: Seq<char>, peer_id: Seq<char>, file_path: Seq<char>, sha: Seq<char>)
    ensures
        spec_decode_message(spec_encode_message(PeerMessageV::PeerCommand { command: CommandV::CreateNewFile { id, peer_id, file_path, sha } })) == Some(PeerMessageV::PeerCommand { command: CommandV::CreateNewFile { id, peer_id, file_path, sha } }),
{
    let t1 = ":{\"id\":\""@ + (spec_escape(id) + (seq!['"'] + (",\"peer_id\":\""@ + (spec_escape(peer_id) + (seq!['"'] + (",\"file_path\":\""@ + (spec_escape(file_path) + (seq!['"'] + (",\"sha\":\""@ + (spec_escape(sha) + (seq!['"'] + ("}}}"@))))))))))));
    let t0 = "CreateNewFile"@ + (seq!['"'] + t1);
    reveal_strlit("CreateNewFile");
        let s = spec_encode_message(PeerMessageV::PeerCommand { command: CommandV::CreateNewFile { id, peer_id, file_path, sha } });
    lemma_escape_plain("CreateNewFile"@);
    rt_cmd_envelope(s, "CreateNewFile"@, t1);
    let p0: int = "{\"peer_message\":\"PeerCommand\",\"command\":{\""@.len() as int;
    let p1: int = p0 + "CreateNewFile"@.len() + 1;
    rt_four_fields(s, id, peer_id, file_path, sha, p1);
    rt_dispatch_createnewfile(s, id, peer_id, file_path, sha, p1);
    rt_cmd_conclude(s, "CreateNewFile"@, CommandV::CreateNewFile { id, peer_id, file_path, sha }, p0, p1);
}

#[verifier::rlimit(100)]
#[verifier::spinoff_prover]
proof fn rt_create_folder(id: Seq<char>, peer_id: Seq<char>, folder_path: Seq<char>)
    ensures
        spec_decode_message(spec_encode_message(PeerMessageV::PeerCommand { command: CommandV::CreateFolder { id, peer_id, folder_path } })) == Some(PeerMessageV::PeerCommand { command: CommandV::CreateFolder { id, peer_id, folder_path } }),
{
    let t1 = ":{\"id\":\""@ + (spec_escape(id) + (seq!['"'] + (",\"peer_id\":\""@ + (spec_escape(peer_id) + (seq!['"'] + (",\"folder_path\":\""@ + (spec_escape(folder_path) + (seq!['"'] + ("}}}"@)))))))));
    let t0 = "CreateFolder"@ + (seq!['"'] + t1);
    reveal_strlit("CreateFolder");
        let s = spec_encode_message(PeerMessageV::PeerCommand { command: CommandV::CreateFolder { id, peer_id, folder_path } });
    lemma_escape_plain("CreateFolder"@);
    rt_cmd_envelope(s, "CreateFolder"@, t1);
    let p0: int = "{\"peer_message\":\"PeerCommand\",\"command\":{\""@.len() as int;
    let p1: int = p0 + "CreateFolder"@.len() + 1;
    rt_three_fields(s, id, peer_id, folder_path, ",\"folder_path\":\""@, p1);
    rt_dispatch_createfolder(s, id, peer_id, folder_path, p1);
    rt_cmd_conclude(s, "CreateFolder"@, CommandV::CreateFolder { id, peer_id, folder_path }, p0, p1);
}

#[verifier::rlimit(100)]
#[verifier::spinoff_prover]
proof fn rt_modify_file(id: Seq<char>, peer_id: Seq<char>, file_path: Seq<char>)
    ensures
        spec_decode_message(spec_encode_message(PeerMessageV::PeerCommand { command: CommandV::ModifyFile { id, peer_id, file_path } })) == Some(PeerMessageV::PeerCommand { command: CommandV::ModifyFile { id, peer_id, file_path } }),
{
    let t1 = ":{\"id\":\""@ + (spec_escape(id) + (seq!['"'] + (",\"peer_id\":\""@ + (spec_escape(peer_id) + (seq!['"'] + (",\"file_path\":\""@ + (spec_escape(file_path) + (seq!['"'] + ("}}}"@)))))))));
    let t0 = "ModifyFile"@ + (seq!['"'] + t1);
    reveal_strlit("ModifyFile");
        let s = spec_encode_message(PeerMessageV::PeerCommand { command: CommandV::ModifyFile { id, peer_id, file_path } });
    lemma_escape_plain("ModifyFile"@);
    rt_cmd_envelope(s, "ModifyFile"@, t1);
    let p0: int = "{\"peer_message\":\"PeerCommand\",\"command\":{\""@.len() as int;
    let p1: int = p0 + "ModifyFile"@.len() + 1;
    rt_three_fields(s, id, peer_id, file_path, ",\"file_path\":\""@, p1);
    rt_dispatch_modifyfile(s, id, peer_id, file_path, p1);
    rt_cmd_conclude(s, "ModifyFile"@, CommandV::ModifyFile { id, peer_id, file_path }, p0, p1);
}

#[verifier::rlimit(100)]
#[verifier::spinoff_prover]
proof fn rt_data_request(id: Seq<char>, peer_id: Seq<char>, file_path: Seq<char>)
    ensures
        spec_decode_message(spec_encode_message(PeerMessageV::PeerCommand { command: CommandV::DataRequestCommand { id, peer_id, file_path } })) == Some(PeerMessageV::PeerCommand { command: CommandV::DataRequestCommand { id, peer_id, file_path } }),
{
    let t1 = ":{\"id\":\""@ + (spec_escape(id) + (seq!['"'] + (",\"peer_id\":\""@ + (spec_escape(peer_id) + (seq!['"'] + (",\"file_path\":\""@ + (spec_escape(file_path) + (seq!['"'] + ("}}}"@)))))))));
    let t0 = "DataRequestCommand"@ + (seq!['"'] + t1);
    reveal_strlit("DataRequestCommand");
        let s = spec_encode_message(PeerMessageV::PeerCommand { command: CommandV::DataRequestCommand { id, peer_id, file_path } });
    lemma_escape_plain("DataRequestCommand"@);
    rt_cmd_envelope(s, "DataRequestCommand"@, t1);
    let p0: int = "{\"peer_message\":\"PeerCommand\",\"command\":{\""@.len() as int;
    let p1: int = p0 + "DataRequestCommand"@.len() + 1;
    rt_three_fields(s, id, peer_id, file_path, ",\"file_path\":\""@, p1);
    rt_dispatch_datarequestcommand(s, id, peer_id, file_path, p1);
    rt_cmd_conclude(s, "DataRequestCommand"@, CommandV::DataRequestCommand { id, peer_id, file_path }, p0, p1);
}

#[verifier::rlimit(100)]
#[verifier::spinoff_prover]
proof fn rt_test(id: Seq<char>, peer_id: Seq<char>, message: Seq<char>)
    ensures
        spec_decode_message(spec_encode_message(PeerMessageV::PeerCommand { command: CommandV::Test { id, peer_id, message } })) == Some(PeerMessageV::PeerCommand { command: CommandV::Test { id, peer_id, message } }),
{
    let t1 = ":{\"id\":\""@ + (spec_escape(id) + (seq!['"'] + (",\"peer_id\":\""@ + (spec_escape(peer_id) + (seq!['"'] + (",\"message\":\""@ + (spec_escape(message) + (seq!['"'] + ("}}}"@)))))))));
    let t0 = "Test"@ + (seq!['"'] + t1);
    reveal_strlit("Test");
        let s = spec_encode_message(PeerMessageV::PeerCommand { command: CommandV::Test { id, peer_id, message } });
    lemma_escape_plain("Test"@);
    rt_cmd_envelope(s, "Test"@, t1);
    let p0: int = "{\"peer_message\":\"PeerCommand\",\"command\":{\""@.len() as int;
    let p1: int = p0 + "Test"@.len() + 1;
    rt_three_fields(s, id, peer_id, message, ",\"message\":\""@, p1);
    rt_dispatch_test(s, id, peer_id, message, p1);
    rt_cmd_conclude(s, "Test"@, CommandV::Test { id, peer_id, message }, p0, p1);
}

#[verifier::rlimit(100)]
#[verifier::spinoff_prover]
proof fn rt_connected(id: Seq<char>, client_id: Seq<char>, port: i32)
    ensures
        spec_decode_message(spec_encode_message(PeerMessageV::PeerEvent { event: EventV::Connected { id, client_id, port } })) == Some(PeerMessageV::PeerEvent { event: EventV::Connected { id, client_id, port } }),
{
    let t1 = ":{\"id\":\""@ + (spec_escape(id) + (seq!['"'] + (",\"client_id\":\""@ + (spec_escape(client_id) + (seq!['"'] + (",\"port\":"@ + (spec_dec_i32(port as int) + ("}}}"@))))))));
    let t0 = "Connected"@ + (seq!['"'] + t1);
    reveal_strlit("Connected");
        let s = spec_encode_message(PeerMessageV::PeerEvent { event: EventV::Connected { id, client_id, port } });
    lemma_escape_plain("Connected"@);
    rt_evt_envelope(s, "Connected"@, t1);
    let p0: int = "{\"peer_message\":\"PeerEvent\",\"event\":{\""@.len() as int;
    let p1: int = p0 + "Connected"@.len() + 1;
    rt_conn_fields(s, id, client_id, port, p1);
    rt_dispatch_connected(s, id, client_id, port, p1);
    rt_evt_conclude(s, "Connected"@, EventV::Connected { id, client_id, port }, p0, p1);
}

#[verifier::rlimit(100)]
#[verifier::spinoff_prover]
proof fn rt_left(id: Seq<char>, client_id: Seq<char>)
    ensures
        spec_decode_message(spec_encode_message(PeerMessageV::PeerEvent { event: EventV::Left { id, client_id } })) == Some(PeerMessageV::PeerEvent { event: EventV::Left { id, client_id } }),
{
    let t1 = ":{\"id\":\""@ + (spec_escape(id) + (seq!['"'] + (",\"client_id\":\""@ + (spec_escape(client_id) + (seq!['"'] + ("}}}"@))))));
    let t0 = "Left"@ + (seq!['"'] + t1);
    reveal_strlit("Left");
        let s = spec_encode_message(PeerMessageV::PeerEvent { event: EventV::Left { id, client_id } });
    lemma_escape_plain("Left"@);
    rt_evt_envelope(s, "Left"@, t1);
    let p0: int = "{\"peer_message\":\"PeerEvent\",\"event\":{\""@.len() as int;
    let p1: int = p0 + "Left"@.len() + 1;
    rt_two_fields(s, id, client_id, p1);
    rt_dispatch_left(s, id, client_id, p1);
    rt_evt_conclude(s, "Left"@, EventV::Left { id, client_id }, p0, p1);
}

#[verifier::rlimit(100)]
#[verifier::spinoff_prover]
proof fn nl_connect(id: Seq<char>, client_id: Seq<char>, port: i32)
    ensures
        no_nl(spec_encode_message(PeerMessageV::PeerCommand { command: CommandV::Connect { id, client_id, port } })),
{
    reveal_strlit(",\"client_id\":\"");
    reveal_strlit(",\"port\":");
    reveal_strlit(":{\"id\":\"");
    reveal_strlit("Connect");
    reveal_strlit("{\"peer_message\":\"PeerCommand\",\"command\":{\"");
    reveal_strlit("}}}");
    assert(no_nl(",\"client_id\":\""@));
    assert(no_nl(",\"port\":"@));
    assert(no_nl(":{\"id\":\""@));
    assert(no_nl("Connect"@));
    assert(no_nl("{\"peer_message\":\"PeerCommand\",\"command\":{\""@));
    assert(no_nl("}}}"@));
    assert(no_nl(seq!['"']));
    let s = spec_encode_message(PeerMessageV::PeerCommand { command: CommandV::Connect { id, client_id, port } });
    lemma_escape_clean(id);
    assert(no_nl(spec_escape(id)));
    lemma_escape_clean(client_id);
    assert(no_nl(spec_escape(client_id)));
    lemma_dec_i32_no_nl(port as int);
    assert(no_nl(spec_dec_i32(port as int)));
    let t10 = "}}}"@;
    let t9 = spec_dec_i32(port as int) + t10;
    let t8 = ",\"port\":"@ + t9;
    let t7 = seq!['"'] + t8;
    let t6 = spec_escape(client_id) + t7;
    let t5 = ",\"client_id\":\""@ + t6;
    let t4 = seq!['"'] + t5;
    let t3 = spec_escape(id) + t4;
    let t2 = ":{\"id\":\""@ + t3;
    let t1 = seq!['"'] + t2;
    let t0 = "Connect"@ + t1;
    assert(no_nl(t10));
    lemma_concat_no_nl(spec_dec_i32(port as int), t10);
    lemma_concat_no_nl(",\"port\":"@, t9);
    lemma_concat_no_nl(seq!['"'], t8);
    lemma_concat_no_nl(spec_escape(client_id), t7);
    lemma_concat_no_nl(",\"client_id\":\""@, t6);
    lemma_concat_no_nl(seq!['"'], t5);
    lemma_concat_no_nl(spec_escape(id), t4);
    lemma_concat_no_nl(":{\"id\":\""@, t3);
    lemma_concat_no_nl(seq!['"'], t2);
    lemma_concat_no_nl("Connect"@, t1);
    lemma_concat_no_nl("{\"peer_message\":\"PeerCommand\",\"command\":{\""@, t0);
    assert(no_nl(s));
}


#[verifier::rlimit(100)]
#[verifier::spinoff_prover]
proof fn nl_leave(id: Seq<char>, client_id: Seq<char>)
    ensures
        no_nl(spec_encode_message(PeerMessageV::PeerCommand { command: CommandV::Leave { id, client_id } })),
{
    reveal_strlit(",\"client_id\":\"");
    reveal_strlit(":{\"id\":\"");
    reveal_strlit("Leave");
    reveal_strlit("{\"peer_message\":\"PeerCommand\",\"command\":{\"");
    reveal_strlit("}}}");
    assert(no_nl(",\"client_id\":\""@));
    assert(no_nl(":{\"id\":\""@));
    assert(no_nl("Leave"@));
    assert(no_nl("{\"peer_message\":\"PeerCommand\",\"command\":{\""@));
    assert(no_nl("}}}"@));
    assert(no_nl(seq!['"']));
    let s = spec_encode_message(PeerMessageV::PeerCommand { command: CommandV::Leave { id, client_id } });
    lemma_escape_clean(id);
    assert(no_nl(spec_escape(id)));
    lemma_escape_clean(client_id);
    assert(no_nl(spec_escape(client_id)));
    let t8 = "}}}"@;
    let t7 = seq!['"'] + t8;
    let t6 = spec_escape(client_id) + t7;
    let t5 = ",\"client_id\":\""@ + t6;
    let t4 = seq!['"'] + t5;
    let t3 = spec_escape(id) + t4;
    let t2 = ":{\"id\":\""@ + t3;
    let t1 = seq!['"'] + t2;
    let t0 = "Leave"@ + t1;
    assert(no_nl(t8));
    lemma_concat_no_nl(seq!['"'], t8);
    lemma_concat_no_nl(spec_escape(client_id), t7);
    lemma_concat_no_nl(",\"client_id\":\""@, t6);
    lemma_concat_no_nl(seq!['"'], t5);
    lemma_concat_no_nl(spec_escape(id), t4);
    lemma_concat_no_nl(":{\"id\":\""@, t3);
    lemma_concat_no_nl(seq!['"'], t2);
    lemma_concat_no_nl("Leave"@, t1);
    lemma_concat_no_nl("{\"peer_message\":\"PeerCommand\",\"command\":{\""@, t0);
    assert(no_nl(s));
}


#[verifier::rlimit(100)]
#[verifier::spinoff_prover]
proof fn nl_create_new_file(id: Seq<char>, peer_id: Seq<char>, file_path: Seq<char>, sha: Seq<char>)
    ensures
        no_nl(spec_encode_message(PeerMessageV::PeerCommand { command: CommandV::CreateNewFile { id, peer_id, file_path, sha } })),
{
    reveal_strlit(",\"file_path\":\"");
    reveal_strlit(",\"peer_id\":\"");
    reveal_strlit(",\"sha\":\"");
    reveal_strlit(":{\"id\":\"");
    reveal_strlit("CreateNewFile");
    reveal_strlit("{\"peer_message\":\"PeerCommand\",\"command\":{\"");
    reveal_strlit("}}}");
    assert(no_nl(",\"file_path\":\""@));
    assert(no_nl(",\"peer_id\":\""@));
    assert(no_nl(",\"sha\":\""@));
    assert(no_nl(":{\"id\":\""@));
    assert(no_nl("CreateNewFile"@));
    assert(no_nl("{\"peer_message\":\"PeerCommand\",\"command\":{\""@));
    assert(no_nl("}}}"@));
    assert(no_nl(seq!['"']));
    let s = spec_encode_message(PeerMessageV::PeerCommand { command: CommandV::CreateNewFile { id, peer_id, file_path, sha } });
    lemma_escape_clean(id);
    assert(no_nl(spec_escape(id)));
    lemma_escape_clean(peer_id);
    assert(no_nl(spec_escape(peer_id)));
    lemma_escape_clean(file_path);
    assert(no_nl(spec_escape(file_path)));
    lemma_escape_clean(sha);
    assert(no_nl(spec_escape(sha)));
    let t14 = "}}}"@;
    let t13 = seq!['"'] + t14;
    let t12 = spec_escape(sha) + t13;
    let t11 = ",\"sha\":\""@ + t12;
    let t10 = seq!['"'] + t11;
    let t9 = spec_escape(file_path) + t10;
    let t8 = ",\"file_path\":\""@ + t9;
    let t7 = seq!['"'] + t8;
    let t6 = spec_escape(peer_id) + t7;
    let t5 = ",\"peer_id\":\""@ + t6;
    let t4 = seq!['"'] + t5;
    let t3 = spec_escape(id) + t4;
    let t2 = ":{\"id\":\""@ + t3;
    let t1 = seq!['"'] + t2;
    let t0 = "CreateNewFile"@ + t1;
    assert(no_nl(t14));
    lemma_concat_no_nl(seq!['"'], t14);
    lemma_concat_no_nl(spec_escape(sha), t13);
    lemma_concat_no_nl(",\"sha\":\""@, t12);
    lemma_concat_no_nl(seq!['"'], t11);
    lemma_concat_no_nl(spec_escape(file_path), t10);
    lemma_concat_no_nl(",\"file_path\":\""@, t9);
    lemma_concat_no_nl(seq!['"'], t8);
    lemma_concat_no_nl(spec_escape(peer_id), t7);
    lemma_concat_no_nl(",\"peer_id\":\""@, t6);
    lemma_concat_no_nl(seq!['"'], t5);
    lemma_concat_no_nl(spec_escape(id), t4);
    lemma_concat_no_nl(":{\"id\":\""@, t3);
    lemma_concat_no_nl(seq!['"'], t2);
    lemma_concat_no_nl("CreateNewFile"@, t1);
    lemma_concat_no_nl("{\"peer_message\":\"PeerCommand\",\"command\":{\""@, t0);
    assert(no_nl(s));
}


#[verifier::rlimit(100)]
#[verifier::spinoff_prover]
proof fn nl_create_folder(id: Seq<char>, peer_id: Seq<char>, folder_path: Seq<char>)
    ensures
        no_nl(spec_encode_message(PeerMessageV::PeerCommand { command: CommandV::CreateFolder { id, peer_id, folder_path } })),
{
    reveal_strlit(",\"folder_path\":\"");
    reveal_strlit(",\"peer_id\":\"");
    reveal_strlit(":{\"id\":\"");
    reveal_strlit("CreateFolder");
    reveal_strlit("{\"peer_message\":\"PeerCommand\",\"command\":{\"");
    reveal_strlit("}}}");
    assert(no_nl(",\"folder_path\":\""@));
    assert(no_nl(",\"peer_id\":\""@));
    assert(no_nl(":{\"id\":\""@));
    assert(no_nl("CreateFolder"@));
    assert(no_nl("{\"peer_message\":\"PeerCommand\",\"command\":{\""@));
    assert(no_nl("}}}"@));
    assert(no_nl(seq!['"']));
    let s = spec_encode_message(PeerMessageV::PeerCommand { command: CommandV::CreateFolder { id, peer_id, folder_path } });
    lemma_escape_clean(id);
    assert(no_nl(spec_escape(id)));
    lemma_escape_clean(peer_id);
    assert(no_nl(spec_escape(peer_id)));
    lemma_escape_clean(folder_path);
    assert(no_nl(spec_escape(folder_path)));
    let t11 = "}}}"@;
    let t10 = seq!['"'] + t11;
    let t9 = spec_escape(folder_path) + t10;
    let t8 = ",\"folder_path\":\""@ + t9;
    let t7 = seq!['"'] + t8;
    let t6 = spec_escape(peer_id) + t7;
    let t5 = ",\"peer_id\":\""@ + t6;
    let t4 = seq!['"'] + t5;
    let t3 = spec_escape(id) + t4;
    let t2 = ":{\"id\":\""@ + t3;
    let t1 = seq!['"'] + t2;
    let t0 = "CreateFolder"@ + t1;
    assert(no_nl(t11));
    lemma_concat_no_nl(seq!['"'], t11);
    lemma_concat_no_nl(spec_escape(folder_path), t10);
    lemma_concat_no_nl(",\"folder_path\":\""@, t9);
    lemma_concat_no_nl(seq!['"'], t8);
    lemma_concat_no_nl(spec_escape(peer_id), t7);
    lemma_concat_no_nl(",\"peer_id\":\""@, t6);
    lemma_concat_no_nl(seq!['"'], t5);
    lemma_concat_no_nl(spec_escape(id), t4);
    lemma_concat_no_nl(":{\"id\":\""@, t3);
    lemma_concat_no_nl(seq!['"'], t2);
    lemma_concat_no_nl("CreateFolder"@, t1);
    lemma_concat_no_nl("{\"peer_message\":\"PeerCommand\",\"command\":{\""@, t0);
    assert(no_nl(s));
}


#[verifier::rlimit(100)]
#[verifier::spinoff_prover]
proof fn nl_modify_file(id: Seq<char>, peer_id: Seq<char>, file_path: Seq<char>)
    ensures
        no_nl(spec_encode_message(PeerMessageV::PeerCommand { command: CommandV::ModifyFile { id, peer_id, file_path } })),
{
    reveal_strlit(",\"file_path\":\"");
    reveal_strlit(",\"peer_id\":\"");
    reveal_strlit(":{\"id\":\"");
    reveal_strlit("ModifyFile");
    reveal_strlit("{\"peer_message\":\"PeerCommand\",\"command\":{\"");
    reveal_strlit("}}}");
    assert(no_nl(",\"file_path\":\""@));
    assert(no_nl(",\"peer_id\":\""@));
    assert(no_nl(":{\"id\":\""@));
    assert(no_nl("ModifyFile"@));
    assert(no_nl("{\"peer_message\":\"PeerCommand\",\"command\":{\""@));
    assert(no_nl("}}}"@));
    assert(no_nl(seq!['"']));
    let s = spec_encode_message(PeerMessageV::PeerCommand { command: CommandV::ModifyFile { id, peer_id, file_path } });
    lemma_escape_clean(id);
    assert(no_nl(spec_escape(id)));
    lemma_escape_clean(peer_id);
    assert(no_nl(spec_escape(peer_id)));
    lemma_escape_clean(file_path);
    assert(no_nl(spec_escape(file_path)));
    let t11 = "}}}"@;
    let t10 = seq!['"'] + t11;
    let t9 = spec_escape(file_path) + t10;
    let t8 = ",\"file_path\":\""@ + t9;
    let t7 = seq!['"'] + t8;
    let t6 = spec_escape(peer_id) + t7;
    let t5 = ",\"peer_id\":\""@ + t6;
    let t4 = seq!['"'] + t5;
    let t3 = spec_escape(id) + t4;
    let t2 = ":{\"id\":\""@ + t3;
    let t1 = seq!['"'] + t2;
    let t0 = "ModifyFile"@ + t1;
    assert(no_nl(t11));
    lemma_concat_no_nl(seq!['"'], t11);
    lemma_concat_no_nl(spec_escape(file_path), t10);
    lemma_concat_no_nl(",\"file_path\":\""@, t9);
    lemma_concat_no_nl(seq!['"'], t8);
    lemma_concat_no_nl(spec_escape(peer_id), t7);
    lemma_concat_no_nl(",\"peer_id\":\""@, t6);
    lemma_concat_no_nl(seq!['"'], t5);
    lemma_concat_no_nl(spec_escape(id), t4);
    lemma_concat_no_nl(":{\"id\":\""@, t3);
    lemma_concat_no_nl(seq!['"'], t2);
    lemma_concat_no_nl("ModifyFile"@, t1);
    lemma_concat_no_nl("{\"peer_message\":\"PeerCommand\",\"command\":{\""@, t0);
    assert(no_nl(s));
}


#[verifier::rlimit(100)]
#[verifier::spinoff_prover]
proof fn nl_data_request(id: Seq<char>, peer_id: Seq<char>, file_path: Seq<char>)
    ensures
        no_nl(spec_encode_message(PeerMessageV::PeerCommand { command: CommandV::DataRequestCommand { id, peer_id, file_path } })),
{
    reveal_strlit(",\"file_path\":\"");
    reveal_strlit(",\"peer_id\":\"");
    reveal_strlit(":{\"id\":\"");
    reveal_strlit("DataRequestCommand");
    reveal_strlit("{\"peer_message\":\"PeerCommand\",\"command\":{\"");
    reveal_strlit("}}}");
    assert(no_nl(",\"file_path\":\""@));
    assert(no_nl(",\"peer_id\":\""@));
    assert(no_nl(":{\"id\":\""@));
    assert(no_nl("DataRequestCommand"@));
    assert(no_nl("{\"peer_message\":\"PeerCommand\",\"command\":{\""@));
    assert(no_nl("}}}"@));
    assert(no_nl(seq!['"']));
    let s = spec_encode_message(PeerMessageV::PeerCommand { command: CommandV::DataRequestCommand { id, peer_id, file_path } });
    lemma_escape_clean(id);
    assert(no_nl(spec_escape(id)));
    lemma_escape_clean(peer_id);
    assert(no_nl(spec_escape(peer_id)));
    lemma_escape_clean(file_path);
    assert(no_nl(spec_escape(file_path)));
    let t11 = "}}}"@;
    let t10 = seq!['"'] + t11;
    let t9 = spec_escape(file_path) + t10;
    let t8 = ",\"file_path\":\""@ + t9;
    let t7 = seq!['"'] + t8;
    let t6 = spec_escape(peer_id) + t7;
    let t5 = ",\"peer_id\":\""@ + t6;
    let t4 = seq!['"'] + t5;
    let t3 = spec_escape(id) + t4;
    let t2 = ":{\"id\":\""@ + t3;
    let t1 = seq!['"'] + t2;
    let t0 = "DataRequestCommand"@ + t1;
    assert(no_nl(t11));
    lemma_concat_no_nl(seq!['"'], t11);
    lemma_concat_no_nl(spec_escape(file_path), t10);
    lemma_concat_no_nl(",\"file_path\":\""@, t9);
    lemma_concat_no_nl(seq!['"'], t8);
    lemma_concat_no_nl(spec_escape(peer_id), t7);
    lemma_concat_no_nl(",\"peer_id\":\""@, t6);
    lemma_concat_no_nl(seq!['"'], t5);
    lemma_concat_no_nl(spec_escape(id), t4);
    lemma_concat_no_nl(":{\"id\":\""@, t3);
    lemma_concat_no_nl(seq!['"'], t2);
    lemma_concat_no_nl("DataRequestCommand"@, t1);
    lemma_concat_no_nl("{\"peer_message\":\"PeerCommand\",\"command\":{\""@, t0);
    assert(no_nl(s));
}

#[verifier::rlimit(100)]
#[verifier::spinoff_prover]
proof fn rt_write_fields(
    s: Seq<char>,
    id: Seq<char>,
    peer_id: Seq<char>,
    file_path: Seq<char>,
    offset: u64,
    data: Seq<u8>,
    p1: int,
)
    requires
        0 <= p1 <= s.len(),
        tail(s, p1) == ":{\"id\":\""@ + (spec_escape(id) + (seq!['"'] + (",\"peer_id\":\""@ + (
        spec_escape(peer_id) + (seq!['"'] + (",\"file_path\":\""@ + (spec_escape(file_path) + (
        seq!['"'] + (",\"offset\":"@ + (spec_dec_nat(offset as nat) + (",\"data\":\""@ + (
        spec_b64(data) + "\"}}}"@)))))))))))),
    ensures
        spec_dec_write(s, p1) == Some((id, peer_id, file_path, offset, data)),
{
    let t14 = "\"}}}"@;
    let t13 = spec_b64(data) + t14;
    let t12 = ",\"data\":\""@ + t13;
    let t11 = spec_dec_nat(offset as nat) + t12;
    let t10 = ",\"offset\":"@ + t11;
    let t9 = seq!['"'] + t10;
    let t8 = spec_escape(file_path) + t9;
    let t7 = ",\"file_path\":\""@ + t8;
    let t6 = seq!['"'] + t7;
    let t5 = spec_escape(peer_id) + t6;
    let t4 = ",\"peer_id\":\""@ + t5;
    let t3 = seq!['"'] + t4;
    let t2 = spec_escape(id) + t3;
    let t1 = ":{\"id\":\""@ + t2;
    reveal_strlit(",\"data\":\"");
    reveal_strlit(",\"offset\":");
    reveal_strlit("\"}}}");
    lemma_lit_step(s, p1, ":{\"id\":\""@, t2);
    let p2: int = p1 + ":{\"id\":\""@.len();
    lemma_jstr_step(s, p2, id, t4);
    let p3: int = p2 + spec_escape(id).len() + 1;
    lemma_lit_step(s, p3, ",\"peer_id\":\""@, t5);
    let p4: int = p3 + ",\"peer_id\":\""@.len();
    lemma_jstr_step(s, p4, peer_id, t7);
    let p5: int = p4 + spec_escape(peer_id).len() + 1;
    lemma_lit_step(s, p5, ",\"file_path\":\""@, t8);
    let p6: int = p5 + ",\"file_path\":\""@.len();
    lemma_jstr_step(s, p6, file_path, t10);
    let p7: int = p6 + spec_escape(file_path).len() + 1;
    lemma_lit_step(s, p7, ",\"offset\":"@, t11);
    let p8: int = p7 + ",\"offset\":"@.len();
    assert(t12.len() > 0 && !is_dec_digit(t12[0]));
    lemma_u64_step(s, p8, offset, t12);
    let p9: int = p8 + spec_dec_nat(offset as nat).len();
    lemma_lit_step(s, p9, ",\"data\":\""@, t13);
    let p10: int = p9 + ",\"data\":\""@.len();
    assert(t14.len() > 0 && !is_b64_char(t14[0]));
    lemma_b64_step(s, p10, data, t14);
    let p11: int = p10 + spec_b64(data).len();
    assert(t14 =~= "\"}}}"@ + Seq::<char>::empty());
    lemma_lit_step(s, p11, "\"}}}"@, Seq::<char>::empty());
    let p12: int = p11 + "\"}}}"@.len();
    assert(tail(s, p12).len() == 0);
    assert(p12 == s.len());
}

#[verifier::rlimit(100)]
#[verifier::spinoff_prover]
proof fn rt_write_data(id: Seq<char>, peer_id: Seq<char>, file_path: Seq<char>, offset: u64, data: Seq<u8>)
    ensures
        spec_decode_message(spec_encode_message(PeerMessageV::PeerCommand { command: CommandV::WriteDataCommand { id, peer_id, file_path, offset, data } })) == Some(PeerMessageV::PeerCommand { command: CommandV::WriteDataCommand { id, peer_id, file_path, offset, data } }),
{
    let t1 = ":{\"id\":\""@ + (spec_escape(id) + (seq!['"'] + (",\"peer_id\":\""@ + (
    spec_escape(peer_id) + (seq!['"'] + (",\"file_path\":\""@ + (spec_escape(file_path) + (
    seq!['"'] + (",\"offset\":"@ + (spec_dec_nat(offset as nat) + (",\"data\":\""@ + (
    spec_b64(data) + "\"}}}"@))))))))))));
    let t0 = "WriteDataCommand"@ + (seq!['"'] + t1);
    reveal_strlit("WriteDataCommand");
        let s = spec_encode_message(PeerMessageV::PeerCommand { command: CommandV::WriteDataCommand { id, peer_id, file_path, offset, data } });
    lemma_escape_plain("WriteDataCommand"@);
    rt_cmd_envelope(s, "WriteDataCommand"@, t1);
    let p0: int = "{\"peer_message\":\"PeerCommand\",\"command\":{\""@.len() as int;
    let p1: int = p0 + "WriteDataCommand"@.len() + 1;
    rt_write_fields(s, id, peer_id, file_path, offset, data, p1);
    rt_dispatch_writedatacommand(s, id, peer_id, file_path, offset, data, p1);
    rt_cmd_conclude(s, "WriteDataCommand"@, CommandV::WriteDataCommand { id, peer_id, file_path, offset, data }, p0, p1);
}

#[verifier::rlimit(100)]
#[verifier::spinoff_prover]
proof fn nl_write_data(id: Seq<char>, peer_id: Seq<char>, file_path: Seq<char>, offset: u64, data: Seq<u8>)
    ensures
        no_nl(spec_encode_message(PeerMessageV::PeerCommand { command: CommandV::WriteDataCommand { id, peer_id, file_path, offset, data } })),
{
    reveal_strlit("\"}}}");
    reveal_strlit(",\"data\":\"");
    reveal_strlit(",\"file_path\":\"");
    reveal_strlit(",\"offset\":");
    reveal_strlit(",\"peer_id\":\"");
    reveal_strlit(":{\"id\":\"");
    reveal_strlit("WriteDataCommand");
    reveal_strlit("{\"peer_message\":\"PeerCommand\",\"command\":{\"");
    assert(no_nl("\"}}}"@));
    assert(no_nl(",\"data\":\""@));
    assert(no_nl(",\"file_path\":\""@));
    assert(no_nl(",\"offset\":"@));
    assert(no_nl(",\"peer_id\":\""@));
    assert(no_nl(":{\"id\":\""@));
    assert(no_nl("WriteDataCommand"@));
    assert(no_nl("{\"peer_message\":\"PeerCommand\",\"command\":{\""@));
    assert(no_nl(seq!['"']));
    let s = spec_encode_message(PeerMessageV::PeerCommand { command: CommandV::WriteDataCommand { id, peer_id, file_path, offset, data } });
    lemma_escape_clean(id);
    assert(no_nl(spec_escape(id)));
    lemma_escape_clean(peer_id);
    assert(no_nl(spec_escape(peer_id)));
    lemma_escape_clean(file_path);
    assert(no_nl(spec_escape(file_path)));
    lemma_dec_nat_no_nl(offset as nat);
    assert(no_nl(spec_dec_nat(offset as nat)));
    lemma_b64_no_nl(data);
    assert(no_nl(spec_b64(data)));
    let t15 = "\"}}}"@;
    let t14 = spec_b64(data) + t15;
    let t13 = ",\"data\":\""@ + t14;
    let t12 = spec_dec_nat(offset as nat) + t13;
    let t11 = ",\"offset\":"@ + t12;
    let t10 = seq!['"'] + t11;
    let t9 = spec_escape(file_path) + t10;
    let t8 = ",\"file_path\":\""@ + t9;
    let t7 = seq!['"'] + t8;
    let t6 = spec_escape(peer_id) + t7;
    let t5 = ",\"peer_id\":\""@ + t6;
    let t4 = seq!['"'] + t5;
    let t3 = spec_escape(id) + t4;
    let t2 = ":{\"id\":\""@ + t3;
    let t1 = seq!['"'] + t2;
    let t0 = "WriteDataCommand"@ + t1;
    assert(no_nl(t15));
    lemma_concat_no_nl(spec_b64(data), t15);
    lemma_concat_no_nl(",\"data\":\""@, t14);
    lemma_concat_no_nl(spec_dec_nat(offset as nat), t13);
    lemma_concat_no_nl(",\"offset\":"@, t12);
    lemma_concat_no_nl(seq!['"'], t11);
    lemma_concat_no_nl(spec_escape(file_path), t10);
    lemma_concat_no_nl(",\"file_path\":\""@, t9);
    lemma_concat_no_nl(seq!['"'], t8);
    lemma_concat_no_nl(spec_escape(peer_id), t7);
    lemma_concat_no_nl(",\"peer_id\":\""@, t6);
    lemma_concat_no_nl(seq!['"'], t5);
    lemma_concat_no_nl(spec_escape(id), t4);
    lemma_concat_no_nl(":{\"id\":\""@, t3);
    lemma_concat_no_nl(seq!['"'], t2);
    lemma_concat_no_nl("WriteDataCommand"@, t1);
    lemma_concat_no_nl("{\"peer_message\":\"PeerCommand\",\"command\":{\""@, t0);
    assert(no_nl(s));
}


#[verifier::rlimit(100)]
#[verifier::spinoff_prover]
proof fn nl_test(id: Seq<char>, peer_id: Seq<char>, message: Seq<char>)
    ensures
        no_nl(spec_encode_message(PeerMessageV::PeerCommand { command: CommandV::Test { id, peer_id, message } })),
{
    reveal_strlit(",\"message\":\"");
    reveal_strlit(",\"peer_id\":\"");
    reveal_strlit(":{\"id\":\"");
    reveal_strlit("Test");
    reveal_strlit("{\"peer_message\":\"PeerCommand\",\"command\":{\"");
    reveal_strlit("}}}");
    assert(no_nl(",\"message\":\""@));
    assert(no_nl(",\"peer_id\":\""@));
    assert(no_nl(":{\"id\":\""@));
    assert(no_nl("Test"@));
    assert(no_nl("{\"peer_message\":\"PeerCommand\",\"command\":{\""@));
    assert(no_nl("}}}"@));
    assert(no_nl(seq!['"']));
    let s = spec_encode_message(PeerMessageV::PeerCommand { command: CommandV::Test { id, peer_id, message } });
    lemma_escape_clean(id);
    assert(no_nl(spec_escape(id)));
    lemma_escape_clean(peer_id);
    assert(no_nl(spec_escape(peer_id)));
    lemma_escape_clean(message);
    assert(no_nl(spec_escape(message)));
    let t11 = "}}}"@;
    let t10 = seq!['"'] + t11;
    let t9 = spec_escape(message) + t10;
    let t8 = ",\"message\":\""@ + t9;
    let t7 = seq!['"'] + t8;
    let t6 = spec_escape(peer_id) + t7;
    let t5 = ",\"peer_id\":\""@ + t6;
    let t4 = seq!['"'] + t5;
    let t3 = spec_escape(id) + t4;
    let t2 = ":{\"id\":\""@ + t3;
    let t1 = seq!['"'] + t2;
    let t0 = "Test"@ + t1;
    assert(no_nl(t11));
    lemma_concat_no_nl(seq!['"'], t11);
    lemma_concat_no_nl(spec_escape(message), t10);
    lemma_concat_no_nl(",\"message\":\""@, t9);
    lemma_concat_no_nl(seq!['"'], t8);
    lemma_concat_no_nl(spec_escape(peer_id), t7);
    lemma_concat_no_nl(",\"peer_id\":\""@, t6);
    lemma_concat_no_nl(seq!['"'], t5);
    lemma_concat_no_nl(spec_escape(id), t4);
    lemma_concat_no_nl(":{\"id\":\""@, t3);
    lemma_concat_no_nl(seq!['"'], t2);
    lemma_concat_no_nl("Test"@, t1);
    lemma_concat_no_nl("{\"peer_message\":\"PeerCommand\",\"command\":{\""@, t0);
    assert(no_nl(s));
}


#[verifier::rlimit(100)]
#[verifier::spinoff_prover]
proof fn nl_connected(id: Seq<char>, client_id: Seq<char>, port: i32)
    ensures
        no_nl(spec_encode_message(PeerMessageV::PeerEvent { event: EventV::Connected { id, client_id, port } })),
{
    reveal_strlit(",\"client_id\":\"");
    reveal_strlit(",\"port\":");
    reveal_strlit(":{\"id\":\"");
    reveal_strlit("Connected");
    reveal_strlit("{\"peer_message\":\"PeerEvent\",\"event\":{\"");
    reveal_strlit("}}}");
    assert(no_nl(",\"client_id\":\""@));
    assert(no_nl(",\"port\":"@));
    assert(no_nl(":{\"id\":\""@));
    assert(no_nl("Connected"@));
    assert(no_nl("{\"peer_message\":\"PeerEvent\",\"event\":{\""@));
    assert(no_nl("}}}"@));
    assert(no_nl(seq!['"']));
    let s = spec_encode_message(PeerMessageV::PeerEvent { event: EventV::Connected { id, client_id, port } });
    lemma_escape_clean(id);
    assert(no_nl(spec_escape(id)));
    lemma_escape_clean(client_id);
    assert(no_nl(spec_escape(client_id)));
    lemma_dec_i32_no_nl(port as int);
    assert(no_nl(spec_dec_i32(port as int)));
    let t10 = "}}}"@;
    let t9 = spec_dec_i32(port as int) + t10;
    let t8 = ",\"port\":"@ + t9;
    let t7 = seq!['"'] + t8;
    let t6 = spec_escape(client_id) + t7;
    let t5 = ",\"client_id\":\""@ + t6;
    let t4 = seq!['"'] + t5;
    let t3 = spec_escape(id) + t4;
    let t2 = ":{\"id\":\""@ + t3;
    let t1 = seq!['"'] + t2;
    let t0 = "Connected"@ + t1;
    assert(no_nl(t10));
    lemma_concat_no_nl(spec_dec_i32(port as int), t10);
    lemma_concat_no_nl(",\"port\":"@, t9);
    lemma_concat_no_nl(seq!['"'], t8);
    lemma_concat_no_nl(spec_escape(client_id), t7);
    lemma_concat_no_nl(",\"client_id\":\""@, t6);
    lemma_concat_no_nl(seq!['"'], t5);
    lemma_concat_no_nl(spec_escape(id), t4);
    lemma_concat_no_nl(":{\"id\":\""@, t3);
    lemma_concat_no_nl(seq!['"'], t2);
    lemma_concat_no_nl("Connected"@, t1);
    lemma_concat_no_nl("{\"peer_message\":\"PeerEvent\",\"event\":{\""@, t0);
    assert(no_nl(s));
}


#[verifier::rlimit(100)]
#[verifier::spinoff_prover]
proof fn nl_left(id: Seq<char>, client_id: Seq<char>)
    ensures
        no_nl(spec_encode_message(PeerMessageV::PeerEvent { event: EventV::Left { id, client_id } })),
{
    reveal_strlit(",\"client_id\":\"");
    reveal_strlit(":{\"id\":\"");
    reveal_strlit("Left");
    reveal_strlit("{\"peer_message\":\"PeerEvent\",\"event\":{\"");
    reveal_strlit("}}}");
    assert(no_nl(",\"client_id\":\""@));
    assert(no_nl(":{\"id\":\""@));
    assert(no_nl("Left"@));
    assert(no_nl("{\"peer_message\":\"PeerEvent\",\"event\":{\""@));
    assert(no_nl("}}}"@));
    assert(no_nl(seq!['"']));
    let s = spec_encode_message(PeerMessageV::PeerEvent { event: EventV::Left { id, client_id } });
    lemma_escape_clean(id);
    assert(no_nl(spec_escape(id)));
    lemma_escape_clean(client_id);
    assert(no_nl(spec_escape(client_id)));
    let t8 = "}}}"@;
    let t7 = seq!['"'] + t8;
    let t6 = spec_escape(client_id) + t7;
    let t5 = ",\"client_id\":\""@ + t6;
    let t4 = seq!['"'] + t5;
    let t3 = spec_escape(id) + t4;
    let t2 = ":{\"id\":\""@ + t3;
    let t1 = seq!['"'] + t2;
    let t0 = "Left"@ + t1;
    assert(no_nl(t8));
    lemma_concat_no_nl(seq!['"'], t8);
    lemma_concat_no_nl(spec_escape(client_id), t7);
    lemma_concat_no_nl(",\"client_id\":\""@, t6);
    lemma_concat_no_nl(seq!['"'], t5);
    lemma_concat_no_nl(spec_escape(id), t4);
    lemma_concat_no_nl(":{\"id\":\""@, t3);
    lemma_concat_no_nl(seq!['"'], t2);
    lemma_concat_no_nl("Left"@, t1);
    lemma_concat_no_nl("{\"peer_message\":\"PeerEvent\",\"event\":{\""@, t0);
    assert(no_nl(s));
}

/// Decoding inverts encoding: the canonical rendering of any message
/// parses back to that message.
pub proof fn lemma_message_round_trip(m: PeerMessageV)
    ensures
        spec_decode_message(spec_encode_message(m)) == Some(m),
{
    match m {
        PeerMessageV::PeerCommand { command } => match command {
            CommandV::Connect { id, client_id, port } => rt_connect(id, client_id, port),
            CommandV::Leave { id, client_id } => rt_leave(id, client_id),
            CommandV::CreateNewFile { id, peer_id, file_path, sha } => rt_create_new_file(
                id,
                peer_id,
                file_path,
                sha,
            ),
            CommandV::CreateFolder { id, peer_id, folder_path } => rt_create_folder(
                id,
                peer_id,
                folder_path,
            ),
            CommandV::ModifyFile { id, peer_id, file_path } => rt_modify_file(
                id,
                peer_id,
                file_path,
            ),
            CommandV::DataRequestCommand { id, peer_id, file_path } => rt_data_request(
                id,
                peer_id,
                file_path,
            ),
            CommandV::WriteDataCommand { id, peer_id, file_path, offset, data } => rt_write_data(
                id,
                peer_id,
                file_path,
                offset,
                data,
            ),
            CommandV::Test { id, peer_id, message } => rt_test(id, peer_id, message),
        },
        PeerMessageV::PeerEvent { event } => match event {
            EventV::Connected { id, client_id, port } => rt_connected(id, client_id, port),
            EventV::Left { id, client_id } => rt_left(id, client_id),
        },
    }
}

/// A wire frame ends with exactly one newline: the terminator is the
/// frame's last character and no other character is a newline.
pub proof fn lemma_frame_single_newline(m: PeerMessageV)
    ensures
        (spec_encode_message(m) + seq!['\n']).last() == '\n',
        forall|k: int|
            0 <= k < spec_encode_message(m).len() ==> (spec_encode_message(m) + seq!['\n'])[k]
                != '\n',
{
    match m {
        PeerMessageV::PeerCommand { command } => match command {
            CommandV::Connect { id, client_id, port } => nl_connect(id, client_id, port),
            CommandV::Leave { id, client_id } => nl_leave(id, client_id),
            CommandV::CreateNewFile { id, peer_id, file_path, sha } => nl_create_new_file(
                id,
                peer_id,
                file_path,
                sha,
            ),
            CommandV::CreateFolder { id, peer_id, folder_path } => nl_create_folder(
                id,
                peer_id,
                folder_path,
            ),
            CommandV::ModifyFile { id, peer_id, file_path } => nl_modify_file(
                id,
                peer_id,
                file_path,
            ),
            CommandV::DataRequestCommand { id, peer_id, file_path } => nl_data_request(
                id,
                peer_id,
                file_path,
            ),
            CommandV::WriteDataCommand { id, peer_id, file_path, offset, data } => nl_write_data(
                id,
                peer_id,
                file_path,
                offset,
                data,
            ),
            CommandV::Test { id, peer_id, message } => nl_test(id, peer_id, message),
        },
        PeerMessageV::PeerEvent { event } => match event {
            EventV::Connected { id, client_id, port } => nl_connected(id, client_id, port),
            EventV::Left { id, client_id } => nl_left(id, client_id),
        },
    }
    let f = spec_encode_message(m) + seq!['\n'];
    assert(f.last() == '\n');
    assert forall|k: int| 0 <= k < spec_encode_message(m).len() implies f[k] != '\n' by {
        assert(f[k] == spec_encode_message(m)[k]);
    }
}

} // verus!
