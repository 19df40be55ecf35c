//! The rendezvous protocol: what a node sends the rendezvous server to
//! register, and the roster events it receives back, in the same
//! line-delimited rendering as the peer protocol.

use vstd::prelude::*;
use crate::chars::{append_str, string_from_chars, chars_eq_str};
use crate::json::{spec_escape, escape_into, spec_parse_jstring, parse_jstring};
use crate::num::{spec_dec_i32, spec_parse_i32, i32_to_dec, parse_i32};
use crate::codec::{
    spec_lit, expect_lit, tail, lemma_lit_step, lemma_jstr_step, lemma_i32_step, no_nl,
    lemma_concat_no_nl,
};
use crate::peer::spec_p_str;
use crate::json::{lemma_escape_plain, lemma_escape_clean};
use crate::num::{is_dec_digit, lemma_dec_i32_no_nl};

verus! {

/// A command the node sends to the rendezvous server.
pub enum ClientCommand {
    ConnectClient { id: String, client_id: String, port: i32 },
    LeaveClient { id: String, client_id: String },
}

/// An event the rendezvous server sends to the node.
pub enum ClientEvent {
    ClientConnected { id: String, client_id: String, peers: Vec<ConnectedPeer> },
    ClientLeft { id: String, client_id: String },
}

/// One peer in the roster the server announces.
pub struct ConnectedPeer {
    pub peer_id: String,
    pub address: String,
    pub port: i32,
}

/// Mathematical model of a [`ConnectedPeer`].
pub struct ConnectedPeerV {
    pub peer_id: Seq<char>,
    pub address: Seq<char>,
    pub port: i32,
}

/// Mathematical model of a [`ClientCommand`].
pub enum ClientCommandV {
    ConnectClient { id: Seq<char>, client_id: Seq<char>, port: i32 },
    LeaveClient { id: Seq<char>, client_id: Seq<char> },
}

/// Mathematical model of a [`ClientEvent`].
pub enum ClientEventV {
    ClientConnected { id: Seq<char>, client_id: Seq<char>, peers: Seq<ConnectedPeerV> },
    ClientLeft { id: Seq<char>, client_id: Seq<char> },
}

impl View for ConnectedPeer {
    type V = ConnectedPeerV;

    open spec fn view(&self) -> ConnectedPeerV {
        ConnectedPeerV { peer_id: self.peer_id@, address: self.address@, port: self.port }
    }
}

impl View for ClientCommand {
    type V = ClientCommandV;

    open spec fn view(&self) -> ClientCommandV {
        match self {
            ClientCommand::ConnectClient { id, client_id, port } => ClientCommandV::ConnectClient {
                id: id@,
                client_id: client_id@,
                port: *port,
            },
            ClientCommand::LeaveClient { id, client_id } => ClientCommandV::LeaveClient {
                id: id@,
                client_id: client_id@,
            },
        }
    }
}

impl View for ClientEvent {
    type V = ClientEventV;

    open spec fn view(&self) -> ClientEventV {
        match self {
            ClientEvent::ClientConnected { id, client_id, peers } => ClientEventV::ClientConnected {
                id: id@,
                client_id: client_id@,
                peers: peers@.map_values(|p: ConnectedPeer| p@),
            },
            ClientEvent::ClientLeft { id, client_id } => ClientEventV::ClientLeft {
                id: id@,
                client_id: client_id@,
            },
        }
    }
}

/// The rendering of one roster entry.
pub open spec fn spec_enc_peer_item(p: ConnectedPeerV) -> Seq<char> {
    "{\"peer_id\":\""@ + (spec_escape(p.peer_id) + (seq!['"'] + (",\"address\":\""@ + (spec_escape(
        p.address,
    ) + (seq!['"'] + (",\"port\":"@ + (spec_dec_i32(p.port as int) + "}"@)))))))
}

/// The rendering of a roster: entries separated by commas.
pub open spec fn spec_enc_peers(ps: Seq<ConnectedPeerV>) -> Seq<char>
    decreases ps.len(),
{
    if ps.len() == 0 {
        Seq::<char>::empty()
    } else if ps.len() == 1 {
        spec_enc_peer_item(ps[0])
    } else {
        spec_enc_peer_item(ps[0]) + (","@ + spec_enc_peers(ps.skip(1)))
    }
}

/// The one-line rendering of a command to the rendezvous server, without
/// the newline.
pub open spec fn spec_encode_client_command(c: ClientCommandV) -> Seq<char> {
    match c {
        ClientCommandV::ConnectClient { id, client_id, port } => "{\""@ + ("ConnectClient"@ + (
        seq!['"'] + (":{\"id\":\""@ + (spec_escape(id) + (seq!['"'] + (",\"client_id\":\""@ + (
        spec_escape(client_id) + (seq!['"'] + (",\"port\":"@ + (spec_dec_i32(port as int)
            + "}}"@)))))))))),
        ClientCommandV::LeaveClient { id, client_id } => "{\""@ + ("LeaveClient"@ + (seq!['"'] + (
        ":{\"id\":\""@ + (spec_escape(id) + (seq!['"'] + (",\"client_id\":\""@ + (spec_escape(
            client_id,
        ) + (seq!['"'] + "}}"@)))))))),
    }
}

/// The one-line rendering of a rendezvous event, without the newline.
pub open spec fn spec_encode_client_event(e: ClientEventV) -> Seq<char> {
    match e {
        ClientEventV::ClientConnected { id, client_id, peers } => "{\""@ + ("ClientConnected"@ + (
        seq!['"'] + (":{\"id\":\""@ + (spec_escape(id) + (seq!['"'] + (",\"client_id\":\""@ + (
        spec_escape(client_id) + (seq!['"'] + (",\"peers\":["@ + (spec_enc_peers(peers)
            + "]}}"@)))))))))),
        ClientEventV::ClientLeft { id, client_id } => "{\""@ + ("ClientLeft"@ + (seq!['"'] + (
        ":{\"id\":\""@ + (spec_escape(id) + (seq!['"'] + (",\"client_id\":\""@ + (spec_escape(
            client_id,
        ) + (seq!['"'] + "}}"@)))))))),
    }
}

/// Parses one roster entry.
pub open spec fn spec_parse_peer_item(s: Seq<char>, i: int) -> Option<(ConnectedPeerV, int)> {
    match spec_lit(s, i, "{\"peer_id\":\""@) {
        Some(j0) => match spec_parse_jstring(s, j0) {
            Some((peer_id, j1)) => match spec_p_str(s, j1, ",\"address\":\""@) {
                Some((address, j2)) => match spec_lit(s, j2, ",\"port\":"@) {
                    Some(j3) => match spec_parse_i32(s, j3) {
                        Some((port, j4)) => match spec_lit(s, j4, "}"@) {
                            Some(j5) => Some((ConnectedPeerV { peer_id, address, port }, j5)),
                            None => None,
                        },
                        None => None,
                    },
                    None => None,
                },
                None => None,
            },
            None => None,
        },
        None => None,
    }
}

/// Parses roster entries up to and including the closing bracket.
pub open spec fn spec_parse_peers(s: Seq<char>, i: int) -> Option<(Seq<ConnectedPeerV>, int)>
    decreases s.len() - i,
{
    if i < 0 || i >= s.len() {
        None
    } else if s[i] == ']' {
        Some((Seq::<ConnectedPeerV>::empty(), i + 1))
    } else {
        match spec_parse_peer_item(s, i) {
            Some((p, j)) => if i <= j && j < s.len() && s[j] == ',' {
                match spec_parse_peers(s, j + 1) {
                    Some((rest, k)) => Some((seq![p] + rest, k)),
                    None => None,
                }
            } else if j < s.len() && s[j] == ']' {
                Some((seq![p], j + 1))
            } else {
                None
            },
            None => None,
        }
    }
}

/// Parses a command frame; only the canonical rendering is accepted.
pub open spec fn spec_decode_client_command(s: Seq<char>) -> Option<ClientCommandV> {
    match spec_lit(s, 0, "{\""@) {
        Some(i) => match spec_parse_jstring(s, i) {
            Some((name, j)) => if name == "ConnectClient"@ {
                match spec_rv_conn(s, j) {
                    Some((id, client_id, port)) => Some(
                        ClientCommandV::ConnectClient { id, client_id, port },
                    ),
                    None => None,
                }
            } else if name == "LeaveClient"@ {
                match spec_rv_two(s, j) {
                    Some((id, client_id)) => Some(ClientCommandV::LeaveClient { id, client_id }),
                    None => None,
                }
            } else {
                None
            },
            None => None,
        },
        None => None,
    }
}

/// Parses an event frame; only the canonical rendering is accepted.
pub open spec fn spec_decode_client_event(s: Seq<char>) -> Option<ClientEventV> {
    match spec_lit(s, 0, "{\""@) {
        Some(i) => match spec_parse_jstring(s, i) {
            Some((name, j)) => if name == "ClientConnected"@ {
                match spec_rv_roster(s, j) {
                    Some((id, client_id, peers)) => Some(
                        ClientEventV::ClientConnected { id, client_id, peers },
                    ),
                    None => None,
                }
            } else if name == "ClientLeft"@ {
                match spec_rv_two(s, j) {
                    Some((id, client_id)) => Some(ClientEventV::ClientLeft { id, client_id }),
                    None => None,
                }
            } else {
                None
            },
            None => None,
        },
        None => None,
    }
}

/// The field shape of a registration: an id, a client id and a port,
/// closing the frame.
pub open spec fn spec_rv_conn(s: Seq<char>, i: int) -> Option<(Seq<char>, Seq<char>, i32)> {
    match spec_p_str(s, i, ":{\"id\":\""@) {
        Some((id, i1)) => match spec_p_str(s, i1, ",\"client_id\":\""@) {
            Some((client_id, i2)) => match spec_lit(s, i2, ",\"port\":"@) {
                Some(i3) => match spec_parse_i32(s, i3) {
                    Some((port, i4)) => match spec_lit(s, i4, "}}"@) {
                        Some(i5) => if i5 == s.len() {
                            Some((id, client_id, port))
                        } else {
                            None
                        },
                        None => None,
                    },
                    None => None,
                },
                None => None,
            },
            None => None,
        },
        None => None,
    }
}

/// The field shape of a leave: an id and a client id, closing the frame.
pub open spec fn spec_rv_two(s: Seq<char>, i: int) -> Option<(Seq<char>, Seq<char>)> {
    match spec_p_str(s, i, ":{\"id\":\""@) {
        Some((id, i1)) => match spec_p_str(s, i1, ",\"client_id\":\""@) {
            Some((client_id, i2)) => match spec_lit(s, i2, "}}"@) {
                Some(i3) => if i3 == s.len() {
                    Some((id, client_id))
                } else {
                    None
                },
                None => None,
            },
            None => None,
        },
        None => None,
    }
}

/// The field shape of a roster event: an id, a client id and the peers,
/// closing the frame.
pub open spec fn spec_rv_roster(s: Seq<char>, i: int) -> Option<
    (Seq<char>, Seq<char>, Seq<ConnectedPeerV>),
> {
    match spec_p_str(s, i, ":{\"id\":\""@) {
        Some((id, i1)) => match spec_p_str(s, i1, ",\"client_id\":\""@) {
            Some((client_id, i2)) => match spec_lit(s, i2, ",\"peers\":["@) {
                Some(i3) => match spec_parse_peers(s, i3) {
                    Some((peers, i4)) => match spec_lit(s, i4, "}}"@) {
                        Some(i5) => if i5 == s.len() {
                            Some((id, client_id, peers))
                        } else {
                            None
                        },
                        None => None,
                    },
                    None => None,
                },
                None => None,
            },
            None => None,
        },
        None => None,
    }
}

/// Renders a command as its one-line text, without the newline.
#[verifier::rlimit(100)]
pub fn encode_client_command(c: &ClientCommand) -> (out: Vec<char>)
    ensures
        out@ == spec_encode_client_command(c@),
{
    let mut out: Vec<char> = Vec::new();
    match c {
        ClientCommand::ConnectClient { id, client_id, port } => {
            append_str(&mut out, "{\"");
            append_str(&mut out, "ConnectClient");
            out.push('"');
            append_str(&mut out, ":{\"id\":\"");
            escape_into(id.as_str(), &mut out);
            out.push('"');
            append_str(&mut out, ",\"client_id\":\"");
            escape_into(client_id.as_str(), &mut out);
            out.push('"');
            append_str(&mut out, ",\"port\":");
            let mut digits = i32_to_dec(*port);
            out.append(&mut digits);
            append_str(&mut out, "}}");
            proof {
                assert(out@ =~= spec_encode_client_command(c@));
            }
        },
        ClientCommand::LeaveClient { id, client_id } => {
            append_str(&mut out, "{\"");
            append_str(&mut out, "LeaveClient");
            out.push('"');
            append_str(&mut out, ":{\"id\":\"");
            escape_into(id.as_str(), &mut out);
            out.push('"');
            append_str(&mut out, ",\"client_id\":\"");
            escape_into(client_id.as_str(), &mut out);
            out.push('"');
            append_str(&mut out, "}}");
            proof {
                assert(out@ =~= spec_encode_client_command(c@));
            }
        },
    }
    out
}

/// Renders a command as one full wire frame with its single newline.
pub fn encode_client_command_frame(c: &ClientCommand) -> (s: String)
    ensures
        s@ == spec_encode_client_command(c@) + seq!['\n'],
{
    let mut out = encode_client_command(c);
    out.push('\n');
    let s = string_from_chars(out.as_slice());
    proof {
        assert(s@ =~= spec_encode_client_command(c@) + seq!['\n']);
    }
    s
}

/// Renders one roster entry into `out`.
#[verifier::rlimit(100)]
fn encode_peer_item(p: &ConnectedPeer, out: &mut Vec<char>)
    ensures
        final(out)@ == old(out)@ + spec_enc_peer_item(p@),
{
    append_str(out, "{\"peer_id\":\"");
    escape_into(p.peer_id.as_str(), out);
    out.push('"');
    append_str(out, ",\"address\":\"");
    escape_into(p.address.as_str(), out);
    out.push('"');
    append_str(out, ",\"port\":");
    let mut digits = i32_to_dec(p.port);
    out.append(&mut digits);
    append_str(out, "}");
    proof {
        assert(out@ =~= old(out)@ + spec_enc_peer_item(p@));
    }
}

/// Renders a roster into `out`, entries separated by commas.
fn encode_peers(peers: &Vec<ConnectedPeer>, from: usize, out: &mut Vec<char>)
    requires
        from <= peers@.len(),
    ensures
        final(out)@ == old(out)@ + spec_enc_peers(
            peers@.map_values(|p: ConnectedPeer| p@).skip(from as int),
        ),
    decreases peers@.len() - from,
{
    let ghost views = peers@.map_values(|p: ConnectedPeer| p@);
    if from == peers.len() {
        proof {
            assert(views.skip(from as int) =~= Seq::<ConnectedPeerV>::empty());
            assert(out@ =~= old(out)@ + spec_enc_peers(views.skip(from as int)));
        }
        return ;
    }
    encode_peer_item(&peers[from], out);
    proof {
        assert(views.skip(from as int)[0] == peers@[from as int]@);
    }
    if from + 1 == peers.len() {
        proof {
            assert(views.skip(from as int).len() == 1);
            assert(out@ =~= old(out)@ + spec_enc_peers(views.skip(from as int)));
        }
        return ;
    }
    append_str(out, ",");
    encode_peers(peers, from + 1, out);
    proof {
        assert(views.skip(from as int).skip(1) =~= views.skip(from as int + 1));
        assert(views.skip(from as int).len() >= 2);
        assert(out@ =~= old(out)@ + spec_enc_peers(views.skip(from as int)));
    }
}

/// Renders an event as its one-line text, without the newline.
#[verifier::rlimit(100)]
pub fn encode_client_event(e: &ClientEvent) -> (out: Vec<char>)
    ensures
        out@ == spec_encode_client_event(e@),
{
    let mut out: Vec<char> = Vec::new();
    match e {
        ClientEvent::ClientConnected { id, client_id, peers } => {
            append_str(&mut out, "{\"");
            append_str(&mut out, "ClientConnected");
            out.push('"');
            append_str(&mut out, ":{\"id\":\"");
            escape_into(id.as_str(), &mut out);
            out.push('"');
            append_str(&mut out, ",\"client_id\":\"");
            escape_into(client_id.as_str(), &mut out);
            out.push('"');
            append_str(&mut out, ",\"peers\":[");
            encode_peers(peers, 0, &mut out);
            proof {
                assert(peers@.map_values(|p: ConnectedPeer| p@).skip(0) =~= peers@.map_values(
                    |p: ConnectedPeer| p@,
                ));
            }
            append_str(&mut out, "]}}");
            proof {
                assert(out@ =~= spec_encode_client_event(e@));
            }
        },
        ClientEvent::ClientLeft { id, client_id } => {
            append_str(&mut out, "{\"");
            append_str(&mut out, "ClientLeft");
            out.push('"');
            append_str(&mut out, ":{\"id\":\"");
            escape_into(id.as_str(), &mut out);
            out.push('"');
            append_str(&mut out, ",\"client_id\":\"");
            escape_into(client_id.as_str(), &mut out);
            out.push('"');
            append_str(&mut out, "}}");
            proof {
                assert(out@ =~= spec_encode_client_event(e@));
            }
        },
    }
    out
}

/// Renders an event as one full wire frame with its single newline.
pub fn encode_client_event_frame(e: &ClientEvent) -> (s: String)
    ensures
        s@ == spec_encode_client_event(e@) + seq!['\n'],
{
    let mut out = encode_client_event(e);
    out.push('\n');
    let s = string_from_chars(out.as_slice());
    proof {
        assert(s@ =~= spec_encode_client_event(e@) + seq!['\n']);
    }
    s
}

/// Executable twin of [`spec_parse_peer_item`].
fn parse_peer_item(s: &Vec<char>, i: usize) -> (r: Option<(ConnectedPeer, usize)>)
    requires
        i <= s@.len(),
    ensures
        match r {
            Some((p, j)) => spec_parse_peer_item(s@, i as int) == Some((p@, j as int)) && i <= j
                <= s@.len(),
            None => spec_parse_peer_item(s@, i as int) is None,
        },
{
    match expect_lit(s, i, "{\"peer_id\":\"") {
        Some(j0) => match parse_jstring(s, j0) {
            Some((peer_id, j1)) => match expect_lit(s, j1, ",\"address\":\"") {
                Some(j1b) => match parse_jstring(s, j1b) {
                    Some((address, j2)) => match expect_lit(s, j2, ",\"port\":") {
                        Some(j3) => match parse_i32(s, j3) {
                            Some((port, j4)) => match expect_lit(s, j4, "}") {
                                Some(j5) => Some(
                                    (
                                        ConnectedPeer {
                                            peer_id: string_from_chars(peer_id.as_slice()),
                                            address: string_from_chars(address.as_slice()),
                                            port,
                                        },
                                        j5,
                                    ),
                                ),
                                None => None,
                            },
                            None => None,
                        },
                        None => None,
                    },
                    None => None,
                },
                None => None,
            },
            None => None,
        },
        None => None,
    }
}

/// Executable twin of [`spec_parse_peers`].
fn parse_peers(s: &Vec<char>, i: usize) -> (r: Option<(Vec<ConnectedPeer>, usize)>)
    requires
        i <= s@.len(),
    ensures
        match r {
            Some((ps, j)) => spec_parse_peers(s@, i as int) == Some(
                (ps@.map_values(|p: ConnectedPeer| p@), j as int),
            ) && i <= j <= s@.len(),
            None => spec_parse_peers(s@, i as int) is None,
        },
    decreases s@.len() - i,
{
    if i == s.len() {
        return None;
    }
    if s[i] == ']' {
        let ps: Vec<ConnectedPeer> = Vec::new();
        proof {
            assert(ps@.map_values(|p: ConnectedPeer| p@) =~= Seq::<ConnectedPeerV>::empty());
        }
        return Some((ps, i + 1));
    }
    match parse_peer_item(s, i) {
        Some((p, j)) => {
            if j < s.len() && s[j] == ',' {
                match parse_peers(s, j + 1) {
                    Some((rest, k)) => {
                        let mut ps: Vec<ConnectedPeer> = Vec::new();
                        ps.push(p);
                        let mut rest = rest;
                        let ghost first = ps@;
                        ps.append(&mut rest);
                        proof {
                            assert(ps@.map_values(|q: ConnectedPeer| q@) =~= seq![first[0]@]
                                + ps@.skip(1).map_values(|q: ConnectedPeer| q@));
                        }
                        Some((ps, k))
                    },
                    None => None,
                }
            } else if j < s.len() && s[j] == ']' {
                let mut ps: Vec<ConnectedPeer> = Vec::new();
                ps.push(p);
                proof {
                    assert(ps@.map_values(|q: ConnectedPeer| q@) =~= seq![ps@[0]@]);
                }
                Some((ps, j + 1))
            } else {
                None
            }
        },
        None => None,
    }
}

/// Parses one line of text (without its newline) as a command to the
/// rendezvous server.
pub fn decode_client_command(line: &str) -> (r: Option<ClientCommand>)
    ensures
        match r {
            Some(c) => spec_decode_client_command(line@) == Some(c@),
            None => spec_decode_client_command(line@) is None,
        },
{
    let s = crate::chars::chars_of(line);
    match expect_lit(&s, 0, "{\"") {
        Some(i) => match parse_jstring(&s, i) {
            Some((name, j)) => {
                if chars_eq_str(&name, "ConnectClient") {
                    match rv_conn(&s, j) {
                        Some((id, client_id, port)) => Some(
                            ClientCommand::ConnectClient { id, client_id, port },
                        ),
                        None => None,
                    }
                } else if chars_eq_str(&name, "LeaveClient") {
                    match rv_two(&s, j) {
                        Some((id, client_id)) => Some(ClientCommand::LeaveClient { id, client_id }),
                        None => None,
                    }
                } else {
                    None
                }
            },
            None => None,
        },
        None => None,
    }
}

/// Parses one line of text (without its newline) as a rendezvous event.
pub fn decode_client_event(line: &str) -> (r: Option<ClientEvent>)
    ensures
        match r {
            Some(e) => spec_decode_client_event(line@) == Some(e@),
            None => spec_decode_client_event(line@) is None,
        },
{
    let s = crate::chars::chars_of(line);
    match expect_lit(&s, 0, "{\"") {
        Some(i) => match parse_jstring(&s, i) {
            Some((name, j)) => {
                if chars_eq_str(&name, "ClientConnected") {
                    match rv_roster(&s, j) {
                        Some((id, client_id, peers)) => Some(
                            ClientEvent::ClientConnected { id, client_id, peers },
                        ),
                        None => None,
                    }
                } else if chars_eq_str(&name, "ClientLeft") {
                    match rv_two(&s, j) {
                        Some((id, client_id)) => Some(ClientEvent::ClientLeft { id, client_id }),
                        None => None,
                    }
                } else {
                    None
                }
            },
            None => None,
        },
        None => None,
    }
}

/// Executable twin of [`spec_rv_conn`].
fn rv_conn(s: &Vec<char>, i: usize) -> (r: Option<(String, String, i32)>)
    requires
        i <= s@.len(),
    ensures
        match r {
            Some((id, client_id, port)) => spec_rv_conn(s@, i as int) == Some(
                (id@, client_id@, port),
            ),
            None => spec_rv_conn(s@, i as int) is None,
        },
{
    match p_str_local(s, i, ":{\"id\":\"") {
        Some((id, i1)) => match p_str_local(s, i1, ",\"client_id\":\"") {
            Some((client_id, i2)) => match expect_lit(s, i2, ",\"port\":") {
                Some(i3) => match parse_i32(s, i3) {
                    Some((port, i4)) => match expect_lit(s, i4, "}}") {
                        Some(i5) => if i5 == s.len() {
                            Some((id, client_id, port))
                        } else {
                            None
                        },
                        None => None,
                    },
                    None => None,
                },
                None => None,
            },
            None => None,
        },
        None => None,
    }
}

/// Executable twin of [`spec_rv_two`].
fn rv_two(s: &Vec<char>, i: usize) -> (r: Option<(String, String)>)
    requires
        i <= s@.len(),
    ensures
        match r {
            Some((id, client_id)) => spec_rv_two(s@, i as int) == Some((id@, client_id@)),
            None => spec_rv_two(s@, i as int) is None,
        },
{
    match p_str_local(s, i, ":{\"id\":\"") {
        Some((id, i1)) => match p_str_local(s, i1, ",\"client_id\":\"") {
            Some((client_id, i2)) => match expect_lit(s, i2, "}}") {
                Some(i3) => if i3 == s.len() {
                    Some((id, client_id))
                } else {
                    None
                },
                None => None,
            },
            None => None,
        },
        None => None,
    }
}

/// Executable twin of [`spec_rv_roster`].
fn rv_roster(s: &Vec<char>, i: usize) -> (r: Option<(String, String, Vec<ConnectedPeer>)>)
    requires
        i <= s@.len(),
    ensures
        match r {
            Some((id, client_id, peers)) => spec_rv_roster(s@, i as int) == Some(
                (id@, client_id@, peers@.map_values(|p: ConnectedPeer| p@)),
            ),
            None => spec_rv_roster(s@, i as int) is None,
        },
{
    match p_str_local(s, i, ":{\"id\":\"") {
        Some((id, i1)) => match p_str_local(s, i1, ",\"client_id\":\"") {
            Some((client_id, i2)) => match expect_lit(s, i2, ",\"peers\":[") {
                Some(i3) => match parse_peers(s, i3) {
                    Some((peers, i4)) => match expect_lit(s, i4, "}}") {
                        Some(i5) => if i5 == s.len() {
                            Some((id, client_id, peers))
                        } else {
                            None
                        },
                        None => None,
                    },
                    None => None,
                },
                None => None,
            },
            None => None,
        },
        None => None,
    }
}

/// Consumes one rendered roster entry at the cursor.
#[verifier::rlimit(100)]
proof fn lemma_item_step(s: Seq<char>, i: int, p: ConnectedPeerV, rest: Seq<char>)
    requires
        0 <= i <= s.len(),
        tail(s, i) == spec_enc_peer_item(p) + rest,
    ensures
        spec_parse_peer_item(s, i) == Some((p, i + spec_enc_peer_item(p).len())),
        0 <= i + spec_enc_peer_item(p).len() <= s.len(),
        tail(s, i + spec_enc_peer_item(p).len()) == rest,
{
    reveal_strlit("}");
    reveal_strlit(",\"port\":");
    assert(tail(s, i) =~= "{\"peer_id\":\""@ + (spec_escape(p.peer_id) + (seq!['"'] + (
    ",\"address\":\""@ + (spec_escape(p.address) + (seq!['"'] + (",\"port\":"@ + (spec_dec_i32(
        p.port as int,
    ) + ("}"@ + rest)))))))));
    let u7 = "}"@ + rest;
    let u6 = spec_dec_i32(p.port as int) + u7;
    lemma_lit_step(s, i, "{\"peer_id\":\""@, spec_escape(p.peer_id) + (seq!['"'] + (
    ",\"address\":\""@ + (spec_escape(p.address) + (seq!['"'] + (",\"port\":"@ + u6))))));
    let q0: int = i + "{\"peer_id\":\""@.len();
    lemma_jstr_step(s, q0, p.peer_id, ",\"address\":\""@ + (spec_escape(p.address) + (seq!['"'] + (
    ",\"port\":"@ + u6))));
    let q1: int = q0 + spec_escape(p.peer_id).len() + 1;
    lemma_lit_step(s, q1, ",\"address\":\""@, spec_escape(p.address) + (seq!['"'] + (",\"port\":"@
        + u6)));
    let q2: int = q1 + ",\"address\":\""@.len();
    lemma_jstr_step(s, q2, p.address, ",\"port\":"@ + u6);
    let q3: int = q2 + spec_escape(p.address).len() + 1;
    lemma_lit_step(s, q3, ",\"port\":"@, u6);
    let q4: int = q3 + ",\"port\":"@.len();
    assert(u7.len() > 0 && !is_dec_digit(u7[0])) by {
        assert(u7[0] == '}');
    }
    lemma_u7_is_brace();
    lemma_i32_step(s, q4, p.port, u7);
    let q5: int = q4 + spec_dec_i32(p.port as int).len();
    lemma_lit_step(s, q5, "}"@, rest);
    let q6: int = q5 + "}"@.len();
    assert(spec_parse_peer_item(s, i) == Some((ConnectedPeerV { peer_id: p.peer_id, address: p.address, port: p.port }, q6)));
    assert(ConnectedPeerV { peer_id: p.peer_id, address: p.address, port: p.port } == p);
    assert(q6 == i + spec_enc_peer_item(p).len());
}

/// The closing brace is not a digit.
proof fn lemma_u7_is_brace()
    ensures
        !is_dec_digit('}'),
{
}

/// Consumes a rendered roster and the closing bracket at the cursor.
#[verifier::rlimit(100)]
proof fn lemma_peers_step(s: Seq<char>, i: int, ps: Seq<ConnectedPeerV>, rest: Seq<char>)
    requires
        0 <= i <= s.len(),
        tail(s, i) == spec_enc_peers(ps) + (seq![']'] + rest),
    ensures
        spec_parse_peers(s, i) == Some((ps, i + spec_enc_peers(ps).len() + 1)),
        0 <= i + spec_enc_peers(ps).len() + 1 <= s.len(),
        tail(s, i + spec_enc_peers(ps).len() + 1) == rest,
    decreases ps.len(),
{
    reveal_strlit("{\"peer_id\":\"");
    reveal_strlit(",");
    if ps.len() == 0 {
        assert(tail(s, i) =~= Seq::<char>::empty() + (seq![']'] + rest));
        assert(tail(s, i)[0] == ']');
        assert(s[i] == ']') by {
            assert(tail(s, i)[0] == s[i]);
        }
        assert(tail(s, i) =~= seq![']'] + rest);
        lemma_lit_step(s, i, seq![']'], rest);
        assert(spec_parse_peers(s, i) == Some((Seq::<ConnectedPeerV>::empty(), i + 1)));
        assert(Seq::<ConnectedPeerV>::empty() =~= ps);
    } else {
        let item = spec_enc_peer_item(ps[0]);
        assert(item.len() >= "{\"peer_id\":\""@.len());
        assert(item[0] == "{\"peer_id\":\""@[0]);
        assert(item[0] == '{');
        assert(spec_enc_peers(ps).len() > 0 && spec_enc_peers(ps)[0] == item[0]) by {
            if ps.len() == 1 {
            } else {
                assert(spec_enc_peers(ps) == item + (","@ + spec_enc_peers(ps.skip(1))));
            }
        }
        assert(tail(s, i).len() == s.len() - i);
        assert(tail(s, i).len() > 0);
        assert(s[i] == '{') by {
            assert(s.subrange(i, s.len() as int)[0] == s[i]);
            assert(tail(s, i)[0] == spec_enc_peers(ps)[0]);
        }
        assert(s[i] != ']');
        if ps.len() == 1 {
            lemma_item_step(s, i, ps[0], seq![']'] + rest);
            let j = i + spec_enc_peer_item(ps[0]).len();
            assert(s[j] == ']') by {
                assert(tail(s, j)[0] == s[j]);
            }
            lemma_lit_step(s, j, seq![']'], rest);
            assert(seq![ps[0]] =~= ps);
        } else {
            assert(tail(s, i) =~= spec_enc_peer_item(ps[0]) + (","@ + (spec_enc_peers(ps.skip(1))
                + (seq![']'] + rest))));
            lemma_item_step(s, i, ps[0], ","@ + (spec_enc_peers(ps.skip(1)) + (seq![']'] + rest)));
            let j = i + spec_enc_peer_item(ps[0]).len();
            assert(s[j] == ',') by {
                assert(tail(s, j)[0] == s[j]);
                assert((","@ + (spec_enc_peers(ps.skip(1)) + (seq![']'] + rest)))[0] == ","@[0]);
            }
            assert(s[j] != ']');
            lemma_lit_step(s, j, ","@, spec_enc_peers(ps.skip(1)) + (seq![']'] + rest));
            lemma_peers_step(s, j + 1, ps.skip(1), rest);
            assert(seq![ps[0]] + ps.skip(1) =~= ps);
        }
    }
}

/// Walks the frame opening: the brace-quote prefix, then the variant
/// name and its closing quote.
proof fn rv_envelope(s: Seq<char>, name: Seq<char>, t1: Seq<char>)
    requires
        spec_escape(name) == name,
        s == "{\""@ + (name + (seq!['"'] + t1)),
    ensures
        spec_lit(s, 0, "{\""@) == Some("{\""@.len() as int),
        spec_parse_jstring(s, "{\""@.len() as int) == Some(
            (name, ("{\""@.len() + name.len() + 1) as int),
        ),
        0 <= "{\""@.len() + name.len() + 1 <= s.len(),
        tail(s, ("{\""@.len() + name.len() + 1) as int) == t1,
{
    assert(tail(s, 0) =~= s);
    lemma_lit_step(s, 0, "{\""@, name + (seq!['"'] + t1));
    lemma_jstr_step(s, "{\""@.len() as int, name, t1);
}

/// The rendezvous variant names are pairwise distinct.
proof fn lemma_rv_names()
    ensures
        "LeaveClient"@ != "ConnectClient"@,
        "ClientLeft"@ != "ClientConnected"@,
{
    reveal_strlit("ConnectClient");
    reveal_strlit("LeaveClient");
    reveal_strlit("ClientConnected");
    reveal_strlit("ClientLeft");
    assert("ConnectClient"@.len() == 13);
    assert("LeaveClient"@.len() == 11);
    assert("ClientConnected"@.len() == 15);
    assert("ClientLeft"@.len() == 10);
}

/// Consumes the registration fields and the end of the frame.
#[verifier::rlimit(100)]
#[verifier::spinoff_prover]
proof fn rt_rv_conn_fields(s: Seq<char>, id: Seq<char>, client_id: Seq<char>, port: i32, p1: int)
    requires
        0 <= p1 <= s.len(),
        tail(s, p1) == ":{\"id\":\""@ + (spec_escape(id) + (seq!['"'] + (",\"client_id\":\""@ + (
        spec_escape(client_id) + (seq!['"'] + (",\"port\":"@ + (spec_dec_i32(port as int)
            + "}}"@))))))),
    ensures
        spec_rv_conn(s, p1) == Some((id, client_id, port)),
{
    let u8 = "}}"@;
    let u7 = spec_dec_i32(port as int) + u8;
    reveal_strlit("}}");
    lemma_lit_step(s, p1, ":{\"id\":\""@, spec_escape(id) + (seq!['"'] + (",\"client_id\":\""@ + (
    spec_escape(client_id) + (seq!['"'] + (",\"port\":"@ + u7))))));
    let q1: int = p1 + ":{\"id\":\""@.len();
    lemma_jstr_step(s, q1, id, ",\"client_id\":\""@ + (spec_escape(client_id) + (seq!['"'] + (
    ",\"port\":"@ + u7))));
    let q2: int = q1 + spec_escape(id).len() + 1;
    lemma_lit_step(s, q2, ",\"client_id\":\""@, spec_escape(client_id) + (seq!['"'] + (
    ",\"port\":"@ + u7)));
    let q3: int = q2 + ",\"client_id\":\""@.len();
    lemma_jstr_step(s, q3, client_id, ",\"port\":"@ + u7);
    let q4: int = q3 + spec_escape(client_id).len() + 1;
    lemma_lit_step(s, q4, ",\"port\":"@, u7);
    let q5: int = q4 + ",\"port\":"@.len();
    assert(u8.len() > 0 && !is_dec_digit(u8[0]));
    lemma_i32_step(s, q5, port, u8);
    let q6: int = q5 + spec_dec_i32(port as int).len();
    assert(u8 =~= "}}"@ + Seq::<char>::empty());
    lemma_lit_step(s, q6, "}}"@, Seq::<char>::empty());
    let q7: int = q6 + "}}"@.len();
    assert(tail(s, q7).len() == 0);
    assert(q7 == s.len());
}

/// Consumes the leave fields and the end of the frame.
#[verifier::rlimit(100)]
#[verifier::spinoff_prover]
proof fn rt_rv_two_fields(s: Seq<char>, id: Seq<char>, client_id: Seq<char>, p1: int)
    requires
        0 <= p1 <= s.len(),
        tail(s, p1) == ":{\"id\":\""@ + (spec_escape(id) + (seq!['"'] + (",\"client_id\":\""@ + (
        spec_escape(client_id) + (seq!['"'] + "}}"@))))),
    ensures
        spec_rv_two(s, p1) == Some((id, client_id)),
{
    reveal_strlit("}}");
    lemma_lit_step(s, p1, ":{\"id\":\""@, spec_escape(id) + (seq!['"'] + (",\"client_id\":\""@ + (
    spec_escape(client_id) + (seq!['"'] + "}}"@)))));
    let q1: int = p1 + ":{\"id\":\""@.len();
    lemma_jstr_step(s, q1, id, ",\"client_id\":\""@ + (spec_escape(client_id) + (seq!['"']
        + "}}"@)));
    let q2: int = q1 + spec_escape(id).len() + 1;
    lemma_lit_step(s, q2, ",\"client_id\":\""@, spec_escape(client_id) + (seq!['"'] + "}}"@));
    let q3: int = q2 + ",\"client_id\":\""@.len();
    lemma_jstr_step(s, q3, client_id, "}}"@);
    let q4: int = q3 + spec_escape(client_id).len() + 1;
    assert(tail(s, q4) =~= "}}"@ + Seq::<char>::empty());
    lemma_lit_step(s, q4, "}}"@, Seq::<char>::empty());
    let q5: int = q4 + "}}"@.len();
    assert(tail(s, q5).len() == 0);
    assert(q5 == s.len());
}

/// Consumes the roster fields and the end of the frame.
#[verifier::rlimit(100)]
#[verifier::spinoff_prover]
proof fn rt_rv_roster_fields(
    s: Seq<char>,
    id: Seq<char>,
    client_id: Seq<char>,
    ps: Seq<ConnectedPeerV>,
    p1: int,
)
    requires
        0 <= p1 <= s.len(),
        tail(s, p1) == ":{\"id\":\""@ + (spec_escape(id) + (seq!['"'] + (",\"client_id\":\""@ + (
        spec_escape(client_id) + (seq!['"'] + (",\"peers\":["@ + (spec_enc_peers(ps)
            + "]}}"@))))))),
    ensures
        spec_rv_roster(s, p1) == Some((id, client_id, ps)),
{
    reveal_strlit("]}}");
    reveal_strlit("}}");
    let u8 = spec_enc_peers(ps) + "]}}"@;
    lemma_lit_step(s, p1, ":{\"id\":\""@, spec_escape(id) + (seq!['"'] + (",\"client_id\":\""@ + (
    spec_escape(client_id) + (seq!['"'] + (",\"peers\":["@ + u8))))));
    let q1: int = p1 + ":{\"id\":\""@.len();
    lemma_jstr_step(s, q1, id, ",\"client_id\":\""@ + (spec_escape(client_id) + (seq!['"'] + (
    ",\"peers\":["@ + u8))));
    let q2: int = q1 + spec_escape(id).len() + 1;
    lemma_lit_step(s, q2, ",\"client_id\":\""@, spec_escape(client_id) + (seq!['"'] + (
    ",\"peers\":["@ + u8)));
    let q3: int = q2 + ",\"client_id\":\""@.len();
    lemma_jstr_step(s, q3, client_id, ",\"peers\":["@ + u8);
    let q4: int = q3 + spec_escape(client_id).len() + 1;
    lemma_lit_step(s, q4, ",\"peers\":["@, u8);
    let q5: int = q4 + ",\"peers\":["@.len();
    assert(tail(s, q5) =~= spec_enc_peers(ps) + (seq![']'] + "}}"@)) by {
        assert("]}}"@ =~= seq![']'] + "}}"@);
    }
    lemma_peers_step(s, q5, ps, "}}"@);
    let q6: int = q5 + spec_enc_peers(ps).len() + 1;
    assert(tail(s, q6) =~= "}}"@ + Seq::<char>::empty());
    lemma_lit_step(s, q6, "}}"@, Seq::<char>::empty());
    let q7: int = q6 + "}}"@.len();
    assert(tail(s, q7).len() == 0);
    assert(q7 == s.len());
}

/// Decoding inverts encoding for a registration command.
#[verifier::rlimit(100)]
#[verifier::spinoff_prover]
proof fn rt_cc_connect(id: Seq<char>, client_id: Seq<char>, port: i32)
    ensures
        spec_decode_client_command(
            spec_encode_client_command(ClientCommandV::ConnectClient { id, client_id, port }),
        ) == Some(ClientCommandV::ConnectClient { id, client_id, port }),
{
    lemma_rv_names();
    let t1 = ":{\"id\":\""@ + (spec_escape(id) + (seq!['"'] + (",\"client_id\":\""@ + (
    spec_escape(client_id) + (seq!['"'] + (",\"port\":"@ + (spec_dec_i32(port as int)
        + "}}"@)))))));
    let t0 = "ConnectClient"@ + (seq!['"'] + t1);
    reveal_strlit("ConnectClient");
    let s = spec_encode_client_command(ClientCommandV::ConnectClient { id, client_id, port });
    lemma_escape_plain("ConnectClient"@);
    rv_envelope(s, "ConnectClient"@, t1);
    let p0: int = "{\""@.len() as int;
    let p1: int = p0 + "ConnectClient"@.len() + 1;
    rt_rv_conn_fields(s, id, client_id, port, p1);
}

/// Decoding inverts encoding for a leave command.
#[verifier::rlimit(100)]
#[verifier::spinoff_prover]
proof fn rt_cc_leave(id: Seq<char>, client_id: Seq<char>)
    ensures
        spec_decode_client_command(
            spec_encode_client_command(ClientCommandV::LeaveClient { id, client_id }),
        ) == Some(ClientCommandV::LeaveClient { id, client_id }),
{
    lemma_rv_names();
    let t1 = ":{\"id\":\""@ + (spec_escape(id) + (seq!['"'] + (",\"client_id\":\""@ + (
    spec_escape(client_id) + (seq!['"'] + "}}"@)))));
    let t0 = "LeaveClient"@ + (seq!['"'] + t1);
    reveal_strlit("LeaveClient");
    let s = spec_encode_client_command(ClientCommandV::LeaveClient { id, client_id });
    lemma_escape_plain("LeaveClient"@);
    rv_envelope(s, "LeaveClient"@, t1);
    let p0: int = "{\""@.len() as int;
    let p1: int = p0 + "LeaveClient"@.len() + 1;
    rt_rv_two_fields(s, id, client_id, p1);
}

/// Decoding inverts encoding for rendezvous commands.
pub proof fn lemma_client_command_round_trip(c: ClientCommandV)
    ensures
        spec_decode_client_command(spec_encode_client_command(c)) == Some(c),
{
    match c {
        ClientCommandV::ConnectClient { id, client_id, port } => rt_cc_connect(
            id,
            client_id,
            port,
        ),
        ClientCommandV::LeaveClient { id, client_id } => rt_cc_leave(id, client_id),
    }
}

/// Decoding inverts encoding for a roster event.
#[verifier::rlimit(100)]
#[verifier::spinoff_prover]
proof fn rt_ce_connected(id: Seq<char>, client_id: Seq<char>, peers: Seq<ConnectedPeerV>)
    ensures
        spec_decode_client_event(
            spec_encode_client_event(ClientEventV::ClientConnected { id, client_id, peers }),
        ) == Some(ClientEventV::ClientConnected { id, client_id, peers }),
{
    lemma_rv_names();
    let t1 = ":{\"id\":\""@ + (spec_escape(id) + (seq!['"'] + (",\"client_id\":\""@ + (
    spec_escape(client_id) + (seq!['"'] + (",\"peers\":["@ + (spec_enc_peers(peers)
        + "]}}"@)))))));
    let t0 = "ClientConnected"@ + (seq!['"'] + t1);
    reveal_strlit("ClientConnected");
    let s = spec_encode_client_event(ClientEventV::ClientConnected { id, client_id, peers });
    lemma_escape_plain("ClientConnected"@);
    rv_envelope(s, "ClientConnected"@, t1);
    let p0: int = "{\""@.len() as int;
    let p1: int = p0 + "ClientConnected"@.len() + 1;
    rt_rv_roster_fields(s, id, client_id, peers, p1);
}

/// Decoding inverts encoding for a peer leave event.
#[verifier::rlimit(100)]
#[verifier::spinoff_prover]
proof fn rt_ce_left(id: Seq<char>, client_id: Seq<char>)
    ensures
        spec_decode_client_event(
            spec_encode_client_event(ClientEventV::ClientLeft { id, client_id }),
        ) == Some(ClientEventV::ClientLeft { id, client_id }),
{
    lemma_rv_names();
    let t1 = ":{\"id\":\""@ + (spec_escape(id) + (seq!['"'] + (",\"client_id\":\""@ + (
    spec_escape(client_id) + (seq!['"'] + "}}"@)))));
    let t0 = "ClientLeft"@ + (seq!['"'] + t1);
    reveal_strlit("ClientLeft");
    let s = spec_encode_client_event(ClientEventV::ClientLeft { id, client_id });
    lemma_escape_plain("ClientLeft"@);
    rv_envelope(s, "ClientLeft"@, t1);
    let p0: int = "{\""@.len() as int;
    let p1: int = p0 + "ClientLeft"@.len() + 1;
    rt_rv_two_fields(s, id, client_id, p1);
}

/// Decoding inverts encoding for rendezvous events.
pub proof fn lemma_client_event_round_trip(e: ClientEventV)
    ensures
        spec_decode_client_event(spec_encode_client_event(e)) == Some(e),
{
    match e {
        ClientEventV::ClientConnected { id, client_id, peers } => rt_ce_connected(
            id,
            client_id,
            peers,
        ),
        ClientEventV::ClientLeft { id, client_id } => rt_ce_left(id, client_id),
    }
}

/// A rendered roster entry holds no newline.
#[verifier::rlimit(100)]
#[verifier::spinoff_prover]
proof fn nl_peer_item(p: ConnectedPeerV)
    ensures
        no_nl(spec_enc_peer_item(p)),
{
    reveal_strlit("{\"peer_id\":\"");
    reveal_strlit(",\"address\":\"");
    reveal_strlit(",\"port\":");
    reveal_strlit("}");
    assert(no_nl("{\"peer_id\":\""@));
    assert(no_nl(",\"address\":\""@));
    assert(no_nl(",\"port\":"@));
    assert(no_nl("}"@));
    assert(no_nl(seq!['"']));
    lemma_escape_clean(p.peer_id);
    assert(no_nl(spec_escape(p.peer_id)));
    lemma_escape_clean(p.address);
    assert(no_nl(spec_escape(p.address)));
    lemma_dec_i32_no_nl(p.port as int);
    assert(no_nl(spec_dec_i32(p.port as int)));
    let u7 = "}"@;
    let u6 = spec_dec_i32(p.port as int) + u7;
    let u5 = ",\"port\":"@ + u6;
    let u4 = seq!['"'] + u5;
    let u3 = spec_escape(p.address) + u4;
    let u2 = ",\"address\":\""@ + u3;
    let u1 = seq!['"'] + u2;
    let u0 = spec_escape(p.peer_id) + u1;
    lemma_concat_no_nl(spec_dec_i32(p.port as int), u7);
    lemma_concat_no_nl(",\"port\":"@, u6);
    lemma_concat_no_nl(seq!['"'], u5);
    lemma_concat_no_nl(spec_escape(p.address), u4);
    lemma_concat_no_nl(",\"address\":\""@, u3);
    lemma_concat_no_nl(seq!['"'], u2);
    lemma_concat_no_nl(spec_escape(p.peer_id), u1);
    lemma_concat_no_nl("{\"peer_id\":\""@, u0);
    assert(no_nl(spec_enc_peer_item(p)));
}

/// A rendered roster holds no newline.
proof fn nl_peers(ps: Seq<ConnectedPeerV>)
    ensures
        no_nl(spec_enc_peers(ps)),
    decreases ps.len(),
{
    reveal_strlit(",");
    if ps.len() == 0 {
    } else if ps.len() == 1 {
        nl_peer_item(ps[0]);
    } else {
        nl_peer_item(ps[0]);
        nl_peers(ps.skip(1));
        assert(no_nl(","@));
        lemma_concat_no_nl(","@, spec_enc_peers(ps.skip(1)));
        lemma_concat_no_nl(spec_enc_peer_item(ps[0]), ","@ + spec_enc_peers(ps.skip(1)));
    }
}

/// The common fields of every rendezvous frame hold no newline.
#[verifier::rlimit(100)]
#[verifier::spinoff_prover]
proof fn nl_rv_common(name: Seq<char>, id: Seq<char>, client_id: Seq<char>, rest: Seq<char>)
    requires
        no_nl(name),
        no_nl(rest),
    ensures
        no_nl(
            "{\""@ + (name + (seq!['"'] + (":{\"id\":\""@ + (spec_escape(id) + (seq!['"'] + (
            ",\"client_id\":\""@ + (spec_escape(client_id) + (seq!['"'] + rest)))))))),
        ),
{
    reveal_strlit("{\"");
    reveal_strlit(":{\"id\":\"");
    reveal_strlit(",\"client_id\":\"");
    assert(no_nl("{\""@));
    assert(no_nl(":{\"id\":\""@));
    assert(no_nl(",\"client_id\":\""@));
    assert(no_nl(seq!['"']));
    lemma_escape_clean(id);
    assert(no_nl(spec_escape(id)));
    lemma_escape_clean(client_id);
    assert(no_nl(spec_escape(client_id)));
    let u7 = seq!['"'] + rest;
    let u6 = spec_escape(client_id) + u7;
    let u5 = ",\"client_id\":\""@ + u6;
    let u4 = seq!['"'] + u5;
    let u3 = spec_escape(id) + u4;
    let u2 = ":{\"id\":\""@ + u3;
    let u1 = seq!['"'] + u2;
    let u0 = name + u1;
    lemma_concat_no_nl(seq!['"'], rest);
    lemma_concat_no_nl(spec_escape(client_id), u7);
    lemma_concat_no_nl(",\"client_id\":\""@, u6);
    lemma_concat_no_nl(seq!['"'], u5);
    lemma_concat_no_nl(spec_escape(id), u4);
    lemma_concat_no_nl(":{\"id\":\""@, u3);
    lemma_concat_no_nl(seq!['"'], u2);
    lemma_concat_no_nl(name, u1);
    lemma_concat_no_nl("{\""@, u0);
}

/// A rendezvous command frame ends with exactly one newline.
pub proof fn lemma_client_command_single_newline(c: ClientCommandV)
    ensures
        (spec_encode_client_command(c) + seq!['\n']).last() == '\n',
        forall|k: int|
            0 <= k < spec_encode_client_command(c).len() ==> (spec_encode_client_command(c)
                + seq!['\n'])[k] != '\n',
{
    reveal_strlit("}}");
    reveal_strlit(",\"port\":");
    assert(no_nl("}}"@));
    assert(no_nl(",\"port\":"@));
    match c {
        ClientCommandV::ConnectClient { id, client_id, port } => {
            reveal_strlit("ConnectClient");
            assert(no_nl("ConnectClient"@));
            lemma_dec_i32_no_nl(port as int);
            assert(no_nl(spec_dec_i32(port as int)));
            lemma_concat_no_nl(spec_dec_i32(port as int), "}}"@);
            lemma_concat_no_nl(",\"port\":"@, spec_dec_i32(port as int) + "}}"@);
            nl_rv_common(
                "ConnectClient"@,
                id,
                client_id,
                ",\"port\":"@ + (spec_dec_i32(port as int) + "}}"@),
            );
        },
        ClientCommandV::LeaveClient { id, client_id } => {
            reveal_strlit("LeaveClient");
            assert(no_nl("LeaveClient"@));
            nl_rv_common("LeaveClient"@, id, client_id, "}}"@);
        },
    }
    let f = spec_encode_client_command(c) + seq!['\n'];
    assert(f.last() == '\n');
    assert forall|k: int| 0 <= k < spec_encode_client_command(c).len() implies f[k] != '\n' by {
        assert(f[k] == spec_encode_client_command(c)[k]);
    }
}

/// A rendezvous event frame ends with exactly one newline.
pub proof fn lemma_client_event_single_newline(e: ClientEventV)
    ensures
        (spec_encode_client_event(e) + seq!['\n']).last() == '\n',
        forall|k: int|
            0 <= k < spec_encode_client_event(e).len() ==> (spec_encode_client_event(e)
                + seq!['\n'])[k] != '\n',
{
    reveal_strlit("}}");
    reveal_strlit(",\"peers\":[");
    reveal_strlit("]}}");
    assert(no_nl("}}"@));
    assert(no_nl(",\"peers\":["@));
    assert(no_nl("]}}"@));
    match e {
        ClientEventV::ClientConnected { id, client_id, peers } => {
            reveal_strlit("ClientConnected");
            assert(no_nl("ClientConnected"@));
            nl_peers(peers);
            lemma_concat_no_nl(spec_enc_peers(peers), "]}}"@);
            lemma_concat_no_nl(",\"peers\":["@, spec_enc_peers(peers) + "]}}"@);
            nl_rv_common(
                "ClientConnected"@,
                id,
                client_id,
                ",\"peers\":["@ + (spec_enc_peers(peers) + "]}}"@),
            );
        },
        ClientEventV::ClientLeft { id, client_id } => {
            reveal_strlit("ClientLeft");
            assert(no_nl("ClientLeft"@));
            nl_rv_common("ClientLeft"@, id, client_id, "}}"@);
        },
    }
    let f = spec_encode_client_event(e) + seq!['\n'];
    assert(f.last() == '\n');
    assert forall|k: int| 0 <= k < spec_encode_client_event(e).len() implies f[k] != '\n' by {
        assert(f[k] == spec_encode_client_event(e)[k]);
    }
}

/// Matches `lit` and then an escaped string value; see
/// [`crate::peer::spec_p_str`].
fn p_str_local(s: &Vec<char>, i: usize, lit: &str) -> (r: Option<(String, usize)>)
    requires
        i <= s@.len(),
    ensures
        match r {
            Some((x, j)) => spec_p_str(s@, i as int, lit@) == Some((x@, j as int)) && i <= j
                <= s@.len(),
            None => spec_p_str(s@, i as int, lit@) is None,
        },
{
    match expect_lit(s, i, lit) {
        Some(j) => match parse_jstring(s, j) {
            Some((content, k)) => Some((string_from_chars(content.as_slice()), k)),
            None => None,
        },
        None => None,
    }
}

} // verus!
