//! The broker: the single consumer of the node's internal event bus. It
//! owns the peer registry and the in-flight set, decides what every
//! internal event means, and says exactly which frames go to which
//! peers. The event loop around it performs the sends and the store
//! calls and feeds their results back in.

use vstd::prelude::*;
use crate::peer::{Command, CommandV};
use crate::store::{CreateOutcome, StoreError, spec_chunk_at, chunk_file};
use crate::ids::sha_hex_of;
use crate::chars::str_eq;
use crate::CHUNK_SIZE;

verus! {

/// A peer as the broker records it; the peer's send channel is held by
/// the event loop, keyed by the same identifier.
pub struct Peer {
    pub peer_id: String,
    pub address: String,
    pub port: i32,
}

/// Mathematical model of a [`Peer`].
pub struct PeerV {
    pub peer_id: Seq<char>,
    pub address: Seq<char>,
    pub port: i32,
}

impl View for Peer {
    type V = PeerV;

    open spec fn view(&self) -> PeerV {
        PeerV { peer_id: self.peer_id@, address: self.address@, port: self.port }
    }
}

/// An event that crossed from this node towards its peers.
pub enum InternalToExternal {
    FileCreated { id: String, file: String, sha: String },
    FolderCreated { id: String, folder: String, sha: String },
    FileModified { id: String, file: String, sha: String },
    FolderModified { id: String, folder: String, sha: String },
    FileDeleted { id: String, folder: String, sha: String },
    FolderDeleted { id: String, file: String, sha: String },
    RequestData { id: String, file: String, peer_id: String, sha: String },
}

/// A command a peer sent that concerns this node's own store.
pub enum ExternalToInternal {
    DataRequest { id: String, peer_id: String, file_path: String },
    DataWrite { id: String, peer_id: String, file_path: String, offset: u64, data: Vec<u8> },
    NewFileCreate { id: String, peer_id: String, file_path: String, sha: String },
}

/// One event on the internal bus.
pub enum InternalMessage {
    NewPeer { id: String, peer_id: String, address: String, port: i32 },
    LeavePeer { id: String, peer_id: String },
    InternalToExternal { message: InternalToExternal },
    ExternalToInternal { message: ExternalToInternal },
}

/// Mathematical model of an [`InternalToExternal`].
pub enum InternalToExternalV {
    FileCreated { id: Seq<char>, file: Seq<char>, sha: Seq<char> },
    FolderCreated { id: Seq<char>, folder: Seq<char>, sha: Seq<char> },
    FileModified { id: Seq<char>, file: Seq<char>, sha: Seq<char> },
    FolderModified { id: Seq<char>, folder: Seq<char>, sha: Seq<char> },
    FileDeleted { id: Seq<char>, folder: Seq<char>, sha: Seq<char> },
    FolderDeleted { id: Seq<char>, file: Seq<char>, sha: Seq<char> },
    RequestData { id: Seq<char>, file: Seq<char>, peer_id: Seq<char>, sha: Seq<char> },
}

/// Mathematical model of an [`ExternalToInternal`].
pub enum ExternalToInternalV {
    DataRequest { id: Seq<char>, peer_id: Seq<char>, file_path: Seq<char> },
    DataWrite { id: Seq<char>, peer_id: Seq<char>, file_path: Seq<char>, offset: u64, data: Seq<u8> },
    NewFileCreate { id: Seq<char>, peer_id: Seq<char>, file_path: Seq<char>, sha: Seq<char> },
}

/// Mathematical model of an [`InternalMessage`].
pub enum InternalMessageV {
    NewPeer { id: Seq<char>, peer_id: Seq<char>, address: Seq<char>, port: i32 },
    LeavePeer { id: Seq<char>, peer_id: Seq<char> },
    InternalToExternal { message: InternalToExternalV },
    ExternalToInternal { message: ExternalToInternalV },
}

impl View for InternalToExternal {
    type V = InternalToExternalV;

    open spec fn view(&self) -> InternalToExternalV {
        match self {
            InternalToExternal::FileCreated { id, file, sha } => InternalToExternalV::FileCreated {
                id: id@,
                file: file@,
                sha: sha@,
            },
            InternalToExternal::FolderCreated { id, folder, sha } => InternalToExternalV::FolderCreated {
                id: id@,
                folder: folder@,
                sha: sha@,
            },
            InternalToExternal::FileModified { id, file, sha } => InternalToExternalV::FileModified {
                id: id@,
                file: file@,
                sha: sha@,
            },
            InternalToExternal::FolderModified { id, folder, sha } => InternalToExternalV::FolderModified {
                id: id@,
                folder: folder@,
                sha: sha@,
            },
            InternalToExternal::FileDeleted { id, folder, sha } => InternalToExternalV::FileDeleted {
                id: id@,
                folder: folder@,
                sha: sha@,
            },
            InternalToExternal::FolderDeleted { id, file, sha } => InternalToExternalV::FolderDeleted {
                id: id@,
                file: file@,
                sha: sha@,
            },
            InternalToExternal::RequestData { id, file, peer_id, sha } => InternalToExternalV::RequestData {
                id: id@,
                file: file@,
                peer_id: peer_id@,
                sha: sha@,
            },
        }
    }
}

impl View for ExternalToInternal {
    type V = ExternalToInternalV;

    open spec fn view(&self) -> ExternalToInternalV {
        match self {
            ExternalToInternal::DataRequest { id, peer_id, file_path } => ExternalToInternalV::DataRequest {
                id: id@,
                peer_id: peer_id@,
                file_path: file_path@,
            },
            ExternalToInternal::DataWrite { id, peer_id, file_path, offset, data } => ExternalToInternalV::DataWrite {
                id: id@,
                peer_id: peer_id@,
                file_path: file_path@,
                offset: *offset,
                data: data@,
            },
            ExternalToInternal::NewFileCreate { id, peer_id, file_path, sha } => ExternalToInternalV::NewFileCreate {
                id: id@,
                peer_id: peer_id@,
                file_path: file_path@,
                sha: sha@,
            },
        }
    }
}

impl View for InternalMessage {
    type V = InternalMessageV;

    open spec fn view(&self) -> InternalMessageV {
        match self {
            InternalMessage::NewPeer { id, peer_id, address, port } => InternalMessageV::NewPeer {
                id: id@,
                peer_id: peer_id@,
                address: address@,
                port: *port,
            },
            InternalMessage::LeavePeer { id, peer_id } => InternalMessageV::LeavePeer {
                id: id@,
                peer_id: peer_id@,
            },
            InternalMessage::InternalToExternal { message } => InternalMessageV::InternalToExternal {
                message: message@,
            },
            InternalMessage::ExternalToInternal { message } => InternalMessageV::ExternalToInternal {
                message: message@,
            },
        }
    }
}

/// One frame to enqueue on one peer's send channel.
pub struct OutFrame {
    pub peer_id: String,
    pub command: Command,
}

/// What the store answered, for the event that needs it.
pub enum StoreReply {
    /// The contents of the requested file, or nothing if it could not
    /// be read.
    ForDataRequest { contents: Option<Vec<u8>> },
    /// A write needs no answer.
    ForDataWrite,
    /// What creating the announced file did.
    ForNewFileCreate { outcome: Result<CreateOutcome, StoreError> },
}

/// The reply variant fits the message variant.
pub open spec fn reply_matches(message: &ExternalToInternal, reply: &StoreReply) -> bool {
    match (message, reply) {
        (ExternalToInternal::DataRequest { .. }, StoreReply::ForDataRequest { .. }) => true,
        (ExternalToInternal::DataWrite { .. }, StoreReply::ForDataWrite) => true,
        (ExternalToInternal::NewFileCreate { .. }, StoreReply::ForNewFileCreate { .. }) => true,
        _ => false,
    }
}

/// The digest recorded in the in-flight set for a path: the first pair
/// whose path matches, if any.
pub open spec fn flight_lookup(entries: Seq<(String, String)>, p: Seq<char>) -> Option<Seq<char>>
    decreases entries.len(),
{
    if entries.len() == 0 {
        None
    } else if entries[0].0@ == p {
        Some(entries[0].1@)
    } else {
        flight_lookup(entries.skip(1), p)
    }
}

/// Paths in the in-flight set are distinct.
pub open spec fn flight_wf(entries: Seq<(String, String)>) -> bool {
    forall|i: int, j: int|
        0 <= i < j < entries.len() ==> (#[trigger] entries[i]).0@ != (#[trigger] entries[j]).0@
}

/// Peer identifiers in the registry are distinct: at most one record
/// exists per peer at any instant.
pub open spec fn peers_wf(peers: Seq<Peer>) -> bool {
    forall|i: int, j: int|
        0 <= i < j < peers.len() ==> (#[trigger] peers[i]).peer_id@ != (#[trigger] peers[j]).peer_id@
}

proof fn lemma_flight_at(entries: Seq<(String, String)>, i: int)
    requires
        flight_wf(entries),
        0 <= i < entries.len(),
    ensures
        flight_lookup(entries, entries[i].0@) == Some(entries[i].1@),
    decreases i,
{
    if i > 0 {
        assert(forall|a: int|
            0 <= a < entries.skip(1).len() ==> #[trigger] entries.skip(1)[a] == entries[a + 1]);
        lemma_flight_at(entries.skip(1), i - 1);
    }
}

proof fn lemma_flight_none(entries: Seq<(String, String)>, p: Seq<char>)
    requires
        forall|i: int| 0 <= i < entries.len() ==> (#[trigger] entries[i]).0@ != p,
    ensures
        flight_lookup(entries, p) is None,
    decreases entries.len(),
{
    if entries.len() > 0 {
        assert(forall|i: int|
            0 <= i < entries.skip(1).len() ==> #[trigger] entries.skip(1)[i] == entries[i + 1]);
        lemma_flight_none(entries.skip(1), p);
    }
}

proof fn lemma_flight_push(entries: Seq<(String, String)>, pair: (String, String), q: Seq<char>)
    requires
        flight_lookup(entries, pair.0@) is None,
    ensures
        flight_lookup(entries.push(pair), q) == if q == pair.0@ {
            Some(pair.1@)
        } else {
            flight_lookup(entries, q)
        },
    decreases entries.len(),
{
    if entries.len() == 0 {
        assert(entries.push(pair).len() == 1);
        assert(entries.push(pair)[0] == pair);
        assert(entries.push(pair).skip(1) =~= Seq::<(String, String)>::empty());
        if q == pair.0@ {
        } else {
            assert(flight_lookup(Seq::<(String, String)>::empty(), q) is None);
        }
    } else {
        assert(entries.push(pair)[0] == entries[0]);
        if entries[0].0@ == q {
            assert(q != pair.0@);
        } else {
            assert(entries.push(pair).skip(1) =~= entries.skip(1).push(pair));
            lemma_flight_push(entries.skip(1), pair, q);
        }
    }
}

proof fn lemma_flight_remove(entries: Seq<(String, String)>, i: int, q: Seq<char>)
    requires
        flight_wf(entries),
        0 <= i < entries.len(),
    ensures
        flight_lookup(entries.remove(i), q) == if q == entries[i].0@ {
            None
        } else {
            flight_lookup(entries, q)
        },
    decreases entries.len(),
{
    assert(forall|a: int|
        0 <= a < entries.skip(1).len() ==> #[trigger] entries.skip(1)[a] == entries[a + 1]);
    assert(flight_wf(entries.skip(1)));
    if i == 0 {
        assert(entries.remove(0) =~= entries.skip(1));
        if q == entries[0].0@ {
            assert(forall|a: int|
                0 <= a < entries.skip(1).len() ==> (#[trigger] entries.skip(1)[a]).0@ != q);
            lemma_flight_none(entries.skip(1), q);
        }
    } else {
        let rem = entries.remove(i);
        assert(rem[0] == entries[0]);
        assert(rem.skip(1) =~= entries.skip(1).remove(i - 1));
        if entries[0].0@ == q {
        } else {
            lemma_flight_remove(entries.skip(1), i - 1, q);
        }
    }
}

/// The broker's whole state: who is connected and which paths are in
/// flight.
pub struct Broker {
    pub my_peer_id: String,
    pub peers: Vec<Peer>,
    pub files_in_update: Vec<(String, String)>,
}

impl Broker {
    /// Registry identifiers distinct; in-flight paths distinct.
    pub open spec fn wf(&self) -> bool {
        peers_wf(self.peers@) && flight_wf(self.files_in_update@)
    }

    /// Whether a record for `id` exists.
    pub open spec fn has_peer(&self, id: Seq<char>) -> bool {
        exists|i: int| 0 <= i < self.peers@.len() && (#[trigger] self.peers@[i]).peer_id@ == id
    }

    /// The digest being transferred for `path`, if the path is in
    /// flight.
    pub open spec fn in_flight(&self, path: Seq<char>) -> Option<Seq<char>> {
        flight_lookup(self.files_in_update@, path)
    }

    pub fn new(my_peer_id: String) -> (r: Self)
        ensures
            r.wf(),
            r.my_peer_id@ == my_peer_id@,
            r.peers@.len() == 0,
            forall|p: Seq<char>| r.in_flight(p) is None,
    {
        let r = Broker { my_peer_id, peers: Vec::new(), files_in_update: Vec::new() };
        proof {
            assert forall|p: Seq<char>| r.in_flight(p) is None by {
                lemma_flight_none(r.files_in_update@, p);
            }
        }
        r
    }

    /// The index of the record for `id`, if any.
    fn find_peer(&self, id: &str) -> (r: Option<usize>)
        ensures
            match r {
                Some(i) => i < self.peers@.len() && self.peers@[i as int].peer_id@ == id@
                    && self.has_peer(id@),
                None => !self.has_peer(id@),
            },
    {
        let mut i: usize = 0;
        while i < self.peers.len()
            invariant
                i <= self.peers@.len(),
                forall|k: int| 0 <= k < i ==> (#[trigger] self.peers@[k]).peer_id@ != id@,
            decreases self.peers@.len() - i,
        {
            if str_eq(self.peers[i].peer_id.as_str(), id) {
                return Some(i);
            }
            i = i + 1;
        }
        None
    }

    /// The index of the in-flight entry for `path`, if any.
    fn find_flight(&self, path: &str) -> (r: Option<usize>)
        requires
            self.wf(),
        ensures
            match r {
                Some(i) => i < self.files_in_update@.len() && self.files_in_update@[i as int].0@
                    == path@ && self.in_flight(path@) == Some(
                    self.files_in_update@[i as int].1@,
                ),
                None => self.in_flight(path@) is None,
            },
    {
        let mut i: usize = 0;
        while i < self.files_in_update.len()
            invariant
                self.wf(),
                i <= self.files_in_update@.len(),
                forall|k: int|
                    0 <= k < i ==> (#[trigger] self.files_in_update@[k]).0@ != path@,
            decreases self.files_in_update@.len() - i,
        {
            if str_eq(self.files_in_update[i].0.as_str(), path) {
                proof {
                    lemma_flight_at(self.files_in_update@, i as int);
                }
                return Some(i);
            }
            i = i + 1;
        }
        proof {
            lemma_flight_none(self.files_in_update@, path@);
        }
        None
    }

    /// Records a new peer; a second record for a present identifier is
    /// silently ignored, first wins.
    pub fn handle_new_peer(&mut self, peer_id: String, address: String, port: i32) -> (added: bool)
        requires
            old(self).wf(),
        ensures
            final(self).wf(),
            added == !old(self).has_peer(peer_id@),
            !added ==> *final(self) == *old(self),
            added ==> {
                &&& final(self).peers@.len() == old(self).peers@.len() + 1
                &&& final(self).peers@.last().peer_id@ == peer_id@
                &&& final(self).peers@.last().address@ == address@
                &&& final(self).peers@.last().port == port
                &&& forall|k: int|
                    0 <= k < old(self).peers@.len() ==> final(self).peers@[k] == old(self).peers@[k]
            },
            final(self).has_peer(peer_id@),
            final(self).my_peer_id == old(self).my_peer_id,
            final(self).files_in_update == old(self).files_in_update,
    {
        match self.find_peer(peer_id.as_str()) {
            Some(i) => {
                proof {
                    assert(self.has_peer(peer_id@));
                }
                false
            },
            None => {
                let ghost pre = self.peers@;
                self.peers.push(Peer { peer_id, address, port });
                proof {
                    assert(forall|k: int|
                        0 <= k < pre.len() ==> #[trigger] self.peers@[k] == pre[k]);
                    assert(self.peers@.last().peer_id@ == self.peers@[pre.len() as int].peer_id@);
                    assert(peers_wf(self.peers@)) by {
                        assert forall|a: int, b: int|
                            0 <= a < b < self.peers@.len() implies (
                        #[trigger] self.peers@[a]).peer_id@ != (#[trigger] self.peers@[b]).peer_id@
                        by {
                            if b == pre.len() as int {
                                assert(pre[a].peer_id@ != self.peers@[b].peer_id@);
                            }
                        }
                    }
                }
                true
            },
        }
    }

    /// Forgets the record for `peer_id`; leaving twice, or leaving
    /// while unknown, does nothing.
    pub fn handle_peer_leave(&mut self, peer_id: &str)
        requires
            old(self).wf(),
        ensures
            final(self).wf(),
            !old(self).has_peer(peer_id@) ==> *final(self) == *old(self),
            old(self).has_peer(peer_id@) ==> exists|i: int|
                0 <= i < old(self).peers@.len() && (#[trigger] old(self).peers@[i]).peer_id@
                    == peer_id@ && final(self).peers@ == old(self).peers@.remove(i),
            !final(self).has_peer(peer_id@),
            final(self).my_peer_id == old(self).my_peer_id,
            final(self).files_in_update == old(self).files_in_update,
    {
        match self.find_peer(peer_id) {
            None => (),
            Some(i) => {
                let ghost pre = self.peers@;
                let _ = self.peers.remove(i);
                proof {
                    assert(self.peers@ == pre.remove(i as int));
                    assert(forall|a: int|
                        0 <= a < self.peers@.len() ==> #[trigger] self.peers@[a] == if a < i as int {
                            pre[a]
                        } else {
                            pre[a + 1]
                        });
                    assert(peers_wf(self.peers@));
                    assert(!self.has_peer(peer_id@)) by {
                        if self.has_peer(peer_id@) {
                            let w = choose|w: int|
                                0 <= w < self.peers@.len() && (#[trigger] self.peers@[w]).peer_id@
                                    == peer_id@;
                            if w < i as int {
                                assert(pre[w].peer_id@ == peer_id@ && pre[i as int].peer_id@
                                    == peer_id@);
                            } else {
                                assert(pre[w + 1].peer_id@ == peer_id@ && pre[i as int].peer_id@
                                    == peer_id@);
                            }
                        }
                    }
                }
            },
        }
    }
    /// Builds one announcement frame per connected peer, in registry
    /// order.
    fn fan_out_create_new_file(&self, id: &String, file: &String, sha: &String) -> (frames: Vec<
        OutFrame,
    >)
        ensures
            frames@.len() == self.peers@.len(),
            forall|k: int|
                0 <= k < frames@.len() ==> (#[trigger] frames@[k]).peer_id@
                    == self.peers@[k].peer_id@ && frames@[k].command@ == (CommandV::CreateNewFile {
                    id: id@,
                    peer_id: self.my_peer_id@,
                    file_path: file@,
                    sha: sha@,
                }),
    {
        let mut frames: Vec<OutFrame> = Vec::new();
        let mut i: usize = 0;
        while i < self.peers.len()
            invariant
                i <= self.peers@.len(),
                frames@.len() == i,
                forall|k: int|
                    0 <= k < i ==> (#[trigger] frames@[k]).peer_id@ == self.peers@[k].peer_id@
                        && frames@[k].command@ == (CommandV::CreateNewFile {
                        id: id@,
                        peer_id: self.my_peer_id@,
                        file_path: file@,
                        sha: sha@,
                    }),
            decreases self.peers@.len() - i,
        {
            frames.push(
                OutFrame {
                    peer_id: self.peers[i].peer_id.clone(),
                    command: Command::CreateNewFile {
                        id: id.clone(),
                        peer_id: self.my_peer_id.clone(),
                        file_path: file.clone(),
                        sha: sha.clone(),
                    },
                },
            );
            i = i + 1;
        }
        frames
    }

    /// Builds one folder announcement per connected peer, in registry
    /// order.
    fn fan_out_create_folder(&self, id: &String, folder: &String) -> (frames: Vec<OutFrame>)
        ensures
            frames@.len() == self.peers@.len(),
            forall|k: int|
                0 <= k < frames@.len() ==> (#[trigger] frames@[k]).peer_id@
                    == self.peers@[k].peer_id@ && frames@[k].command@ == (CommandV::CreateFolder {
                    id: id@,
                    peer_id: self.my_peer_id@,
                    folder_path: folder@,
                }),
    {
        let mut frames: Vec<OutFrame> = Vec::new();
        let mut i: usize = 0;
        while i < self.peers.len()
            invariant
                i <= self.peers@.len(),
                frames@.len() == i,
                forall|k: int|
                    0 <= k < i ==> (#[trigger] frames@[k]).peer_id@ == self.peers@[k].peer_id@
                        && frames@[k].command@ == (CommandV::CreateFolder {
                        id: id@,
                        peer_id: self.my_peer_id@,
                        folder_path: folder@,
                    }),
            decreases self.peers@.len() - i,
        {
            frames.push(
                OutFrame {
                    peer_id: self.peers[i].peer_id.clone(),
                    command: Command::CreateFolder {
                        id: id.clone(),
                        peer_id: self.my_peer_id.clone(),
                        folder_path: folder.clone(),
                    },
                },
            );
            i = i + 1;
        }
        frames
    }

    /// Builds one modification announcement per connected peer, in
    /// registry order.
    fn fan_out_modify_file(&self, id: &String, file: &String) -> (frames: Vec<OutFrame>)
        ensures
            frames@.len() == self.peers@.len(),
            forall|k: int|
                0 <= k < frames@.len() ==> (#[trigger] frames@[k]).peer_id@
                    == self.peers@[k].peer_id@ && frames@[k].command@ == (CommandV::ModifyFile {
                    id: id@,
                    peer_id: self.my_peer_id@,
                    file_path: file@,
                }),
    {
        let mut frames: Vec<OutFrame> = Vec::new();
        let mut i: usize = 0;
        while i < self.peers.len()
            invariant
                i <= self.peers@.len(),
                frames@.len() == i,
                forall|k: int|
                    0 <= k < i ==> (#[trigger] frames@[k]).peer_id@ == self.peers@[k].peer_id@
                        && frames@[k].command@ == (CommandV::ModifyFile {
                        id: id@,
                        peer_id: self.my_peer_id@,
                        file_path: file@,
                    }),
            decreases self.peers@.len() - i,
        {
            frames.push(
                OutFrame {
                    peer_id: self.peers[i].peer_id.clone(),
                    command: Command::ModifyFile {
                        id: id.clone(),
                        peer_id: self.my_peer_id.clone(),
                        file_path: file.clone(),
                    },
                },
            );
            i = i + 1;
        }
        frames
    }

    /// One request frame for the named target peer, or nothing when it
    /// is unknown.
    fn request_to(&self, target: &String, id: &String, file_path: &String) -> (frames: Vec<
        OutFrame,
    >)
        ensures
            self.has_peer(target@) ==> frames@.len() == 1 && frames@[0].peer_id@ == target@
                && frames@[0].command@ == (CommandV::DataRequestCommand {
                id: id@,
                peer_id: self.my_peer_id@,
                file_path: file_path@,
            }),
            !self.has_peer(target@) ==> frames@.len() == 0,
    {
        let mut frames: Vec<OutFrame> = Vec::new();
        match self.find_peer(target.as_str()) {
            None => frames,
            Some(_) => {
                frames.push(
                    OutFrame {
                        peer_id: target.clone(),
                        command: Command::DataRequestCommand {
                            id: id.clone(),
                            peer_id: self.my_peer_id.clone(),
                            file_path: file_path.clone(),
                        },
                    },
                );
                frames
            },
        }
    }

    /// Records `path` as in flight with `sha`, replacing any earlier
    /// digest for it.
    fn set_in_flight(&mut self, path: &String, sha: &String)
        requires
            old(self).wf(),
        ensures
            final(self).wf(),
            final(self).in_flight(path@) == Some(sha@),
            forall|q: Seq<char>| q != path@ ==> final(self).in_flight(q) == old(self).in_flight(q),
            final(self).peers@ == old(self).peers@,
            final(self).my_peer_id == old(self).my_peer_id,
    {
        let mut i: usize = 0;
        let mut found: Option<usize> = None;
        while i < self.files_in_update.len()
            invariant
                *self == *old(self),
                old(self).wf(),
                i <= self.files_in_update@.len(),
                match found {
                    Some(f) => f < i && self.files_in_update@[f as int].0@ == path@,
                    None => forall|k: int|
                        0 <= k < i ==> (#[trigger] self.files_in_update@[k]).0@ != path@,
                },
            decreases self.files_in_update@.len() - i,
        {
            if found.is_none() && str_eq(self.files_in_update[i].0.as_str(), path.as_str()) {
                found = Some(i);
            }
            i = i + 1;
        }
        let ghost pre = self.files_in_update@;
        match found {
            Some(f) => {
                let _ = self.files_in_update.remove(f);
                proof {
                    assert forall|q: Seq<char>|
                        flight_lookup(self.files_in_update@, q) == (if q == pre[f as int].0@ {
                            None::<Seq<char>>
                        } else {
                            flight_lookup(pre, q)
                        }) by {
                        lemma_flight_remove(pre, f as int, q);
                    }
                    assert(flight_wf(self.files_in_update@)) by {
                        assert(forall|a: int|
                            0 <= a < self.files_in_update@.len()
                                ==> #[trigger] self.files_in_update@[a] == if a < f as int {
                                pre[a]
                            } else {
                                pre[a + 1]
                            });
                    }
                }
            },
            None => {
                proof {
                    lemma_flight_none(pre, path@);
                }
            },
        }
        let ghost mid = self.files_in_update@;
        let pair = (path.clone(), sha.clone());
        self.files_in_update.push(pair);
        proof {
            assert forall|q: Seq<char>|
                flight_lookup(self.files_in_update@, q) == (if q == path@ {
                    Some(sha@)
                } else {
                    flight_lookup(mid, q)
                }) by {
                lemma_flight_push(mid, pair, q);
            }
            assert(flight_wf(self.files_in_update@)) by {
                assert(forall|a: int|
                    0 <= a < mid.len() ==> #[trigger] self.files_in_update@[a] == mid[a]);
                assert(self.files_in_update@[mid.len() as int] == pair);
                assert forall|a: int, b: int|
                    0 <= a < b < self.files_in_update@.len() implies (
                #[trigger] self.files_in_update@[a]).0@ != (#[trigger] self.files_in_update@[b]).0@
                by {
                    if b == mid.len() as int {
                        lemma_flight_at(mid, a);
                    }
                }
            }
        }
    }

    /// Handles one event on its way out to the peers: what frames to
    /// send, and how the in-flight set changes. A file event for a path
    /// in flight is this node's own echo and is dropped until the path
    /// is cleared.
    pub fn handle_internal_to_external(&mut self, message: InternalToExternal) -> (frames: Vec<
        OutFrame,
    >)
        requires
            old(self).wf(),
        ensures
            final(self).wf(),
            final(self).peers@ == old(self).peers@,
            final(self).my_peer_id == old(self).my_peer_id,
            match message {
                InternalToExternal::FileCreated { id, file, sha } => {
                    if old(self).in_flight(file@) is Some {
                        frames@.len() == 0 && *final(self) == *old(self)
                    } else {
                        &&& frames@.len() == old(self).peers@.len()
                        &&& forall|k: int|
                            0 <= k < frames@.len() ==> (#[trigger] frames@[k]).peer_id@ == old(
                                self,
                            ).peers@[k].peer_id@ && frames@[k].command@ == (CommandV::CreateNewFile {
                                id: id@,
                                peer_id: old(self).my_peer_id@,
                                file_path: file@,
                                sha: sha@,
                            })
                        &&& final(self).in_flight(file@) == Some(sha@)
                        &&& forall|q: Seq<char>|
                            q != file@ ==> final(self).in_flight(q) == old(self).in_flight(q)
                    }
                },
                InternalToExternal::FolderCreated { id, folder, sha } => {
                    &&& *final(self) == *old(self)
                    &&& frames@.len() == old(self).peers@.len()
                    &&& forall|k: int|
                        0 <= k < frames@.len() ==> (#[trigger] frames@[k]).peer_id@ == old(
                            self,
                        ).peers@[k].peer_id@ && frames@[k].command@ == (CommandV::CreateFolder {
                            id: id@,
                            peer_id: old(self).my_peer_id@,
                            folder_path: folder@,
                        })
                },
                InternalToExternal::FileModified { id, file, sha } => {
                    &&& *final(self) == *old(self)
                    &&& if old(self).in_flight(file@) is Some {
                        frames@.len() == 0
                    } else {
                        frames@.len() == old(self).peers@.len() && forall|k: int|
                            0 <= k < frames@.len() ==> (#[trigger] frames@[k]).peer_id@ == old(
                                self,
                            ).peers@[k].peer_id@ && frames@[k].command@ == (CommandV::ModifyFile {
                                id: id@,
                                peer_id: old(self).my_peer_id@,
                                file_path: file@,
                            })
                    }
                },
                InternalToExternal::FolderModified { .. } => frames@.len() == 0 && *final(self)
                    == *old(self),
                InternalToExternal::FileDeleted { .. } => frames@.len() == 0 && *final(self)
                    == *old(self),
                InternalToExternal::FolderDeleted { .. } => frames@.len() == 0 && *final(self)
                    == *old(self),
                InternalToExternal::RequestData { id, file, peer_id, sha } => {
                    &&& *final(self) == *old(self)
                    &&& (old(self).has_peer(peer_id@) ==> frames@.len() == 1 && frames@[0].peer_id@
                        == peer_id@ && frames@[0].command@ == (CommandV::DataRequestCommand {
                        id: id@,
                        peer_id: old(self).my_peer_id@,
                        file_path: file@,
                    }))
                    &&& (!old(self).has_peer(peer_id@) ==> frames@.len() == 0)
                },
            },
    {
        match message {
            InternalToExternal::FileCreated { id, file, sha } => {
                if self.find_flight(file.as_str()).is_some() {
                    return Vec::new();
                }
                let frames = self.fan_out_create_new_file(&id, &file, &sha);
                self.set_in_flight(&file, &sha);
                frames
            },
            InternalToExternal::FolderCreated { id, folder, sha: _ } => self.fan_out_create_folder(
                &id,
                &folder,
            ),
            InternalToExternal::FileModified { id, file, sha: _ } => {
                if self.find_flight(file.as_str()).is_some() {
                    return Vec::new();
                }
                self.fan_out_modify_file(&id, &file)
            },
            InternalToExternal::FolderModified { .. } => Vec::new(),
            InternalToExternal::FileDeleted { .. } => Vec::new(),
            InternalToExternal::FolderDeleted { .. } => Vec::new(),
            InternalToExternal::RequestData { id, file, peer_id, sha: _ } => self.request_to(
                &peer_id,
                &id,
                &file,
            ),
        }
    }

    /// Handles one command a peer sent, given what the store answered:
    /// a data request streams the file back in chunk order; an announced
    /// file that was created is pulled and marked in flight, while one
    /// skipped for an identical digest asks for nothing.
    pub fn handle_external_to_internal(
        &mut self,
        message: ExternalToInternal,
        reply: StoreReply,
    ) -> (frames: Vec<OutFrame>)
        requires
            old(self).wf(),
            reply_matches(&message, &reply),
        ensures
            final(self).wf(),
            final(self).peers@ == old(self).peers@,
            final(self).my_peer_id == old(self).my_peer_id,
            match message {
                ExternalToInternal::DataRequest { id, peer_id, file_path } => {
                    &&& *final(self) == *old(self)
                    &&& match reply {
                        StoreReply::ForDataRequest { contents: None } => frames@.len() == 0,
                        StoreReply::ForDataRequest { contents: Some(c) } => {
                            if old(self).has_peer(peer_id@) {
                                &&& frames@.len() == crate::spec_chunk_count(c@.len())
                                &&& forall|k: int|
                                    0 <= k < frames@.len() ==> (#[trigger] frames@[k]).peer_id@
                                        == peer_id@ && frames@[k].command@
                                        == (CommandV::WriteDataCommand {
                                        id: id@,
                                        peer_id: old(self).my_peer_id@,
                                        file_path: file_path@,
                                        offset: (CHUNK_SIZE as int * k) as u64,
                                        data: spec_chunk_at(c@, k),
                                    })
                            } else {
                                frames@.len() == 0
                            }
                        },
                        _ => false,
                    }
                },
                ExternalToInternal::DataWrite { .. } => frames@.len() == 0 && *final(self) == *old(
                    self,
                ),
                ExternalToInternal::NewFileCreate { id, peer_id, file_path, sha } => match reply {
                    StoreReply::ForNewFileCreate { outcome } => match outcome {
                        Err(_) => frames@.len() == 0 && *final(self) == *old(self),
                        Ok(CreateOutcome::SkippedSameHash) => frames@.len() == 0 && *final(self)
                            == *old(self),
                        Ok(CreateOutcome::Created) => {
                            &&& (old(self).has_peer(peer_id@) ==> frames@.len() == 1
                                && frames@[0].peer_id@ == peer_id@ && frames@[0].command@
                                == (CommandV::DataRequestCommand {
                                id: id@,
                                peer_id: old(self).my_peer_id@,
                                file_path: file_path@,
                            }))
                            &&& (!old(self).has_peer(peer_id@) ==> frames@.len() == 0)
                            &&& if sha@ == sha_hex_of(Seq::<u8>::empty()) {
                                final(self).files_in_update == old(self).files_in_update
                            } else {
                                final(self).in_flight(file_path@) == Some(sha@) && forall|
                                    q: Seq<char>,
                                |
                                    q != file_path@ ==> final(self).in_flight(q) == old(
                                        self,
                                    ).in_flight(q)
                            }
                        },
                    },
                    _ => false,
                },
            },
    {
        match message {
            ExternalToInternal::DataRequest { id, peer_id, file_path } => {
                match reply {
                    StoreReply::ForDataRequest { contents: None } => Vec::new(),
                    StoreReply::ForDataRequest { contents: Some(c) } => {
                        if self.find_peer(peer_id.as_str()).is_none() {
                            return Vec::new();
                        }
                        let mut chunks = chunk_file(&c);
                        let ghost all = chunks@;
                        let mut frames: Vec<OutFrame> = Vec::new();
                        let ghost total = all.len();
                        while chunks.len() > 0
                            invariant
                                *self == *old(self),
                                total == all.len(),
                                frames@.len() + chunks@.len() == total,
                                forall|j: int|
                                    0 <= j < chunks@.len() ==> #[trigger] chunks@[j] == all[frames@.len()
                                        + j],
                                forall|k: int|
                                    0 <= k < frames@.len() ==> (#[trigger] frames@[k]).peer_id@
                                        == peer_id@ && frames@[k].command@
                                        == (CommandV::WriteDataCommand {
                                        id: id@,
                                        peer_id: old(self).my_peer_id@,
                                        file_path: file_path@,
                                        offset: all[k].0,
                                        data: all[k].1@,
                                    }),
                            decreases chunks@.len(),
                        {
                            let (off, data) = chunks.remove(0);
                            frames.push(
                                OutFrame {
                                    peer_id: peer_id.clone(),
                                    command: Command::WriteDataCommand {
                                        id: id.clone(),
                                        peer_id: self.my_peer_id.clone(),
                                        file_path: file_path.clone(),
                                        offset: off,
                                        data,
                                    },
                                },
                            );
                        }
                        frames
                    },
                    _ => Vec::new(),
                }
            },
            ExternalToInternal::DataWrite { .. } => Vec::new(),
            ExternalToInternal::NewFileCreate { id, peer_id, file_path, sha } => {
                match reply {
                    StoreReply::ForNewFileCreate { outcome } => match outcome {
                        Err(_) => Vec::new(),
                        Ok(CreateOutcome::SkippedSameHash) => Vec::new(),
                        Ok(CreateOutcome::Created) => {
                            let frames = self.request_to(&peer_id, &id, &file_path);
                            let empty_bytes: Vec<u8> = Vec::new();
                            proof {
                                assert(empty_bytes@ =~= Seq::<u8>::empty());
                            }
                            let empty_sha = crate::ids::sha256_hex(empty_bytes.as_slice());
                            if !str_eq(sha.as_str(), empty_sha.as_str()) {
                                self.set_in_flight(&file_path, &sha);
                            }
                            frames
                        },
                    },
                    _ => Vec::new(),
                }
            },
        }
    }

    /// Clears a path from the in-flight set once the transferred bytes
    /// hash to the digest it was recorded with; any other digest leaves
    /// the entry in place.
    pub fn complete_transfer(&mut self, path: &str, digest: &str)
        requires
            old(self).wf(),
        ensures
            final(self).wf(),
            final(self).peers@ == old(self).peers@,
            final(self).my_peer_id == old(self).my_peer_id,
            if old(self).in_flight(path@) == Some(digest@) {
                final(self).in_flight(path@) is None && forall|q: Seq<char>|
                    q != path@ ==> final(self).in_flight(q) == old(self).in_flight(q)
            } else {
                *final(self) == *old(self)
            },
    {
        let mut i: usize = 0;
        while i < self.files_in_update.len()
            invariant
                *self == *old(self),
                old(self).wf(),
                i <= self.files_in_update@.len(),
                forall|k: int|
                    0 <= k < i ==> (#[trigger] self.files_in_update@[k]).0@ != path@,
            decreases self.files_in_update@.len() - i,
        {
            if str_eq(self.files_in_update[i].0.as_str(), path) {
                proof {
                    lemma_flight_at(self.files_in_update@, i as int);
                }
                if str_eq(self.files_in_update[i].1.as_str(), digest) {
                    let ghost pre = self.files_in_update@;
                    let _ = self.files_in_update.remove(i);
                    proof {
                        assert forall|q: Seq<char>|
                            flight_lookup(self.files_in_update@, q) == (if q == pre[i as int].0@ {
                                None::<Seq<char>>
                            } else {
                                flight_lookup(pre, q)
                            }) by {
                            lemma_flight_remove(pre, i as int, q);
                        }
                        assert(flight_wf(self.files_in_update@)) by {
                            assert(forall|a: int|
                                0 <= a < self.files_in_update@.len()
                                    ==> #[trigger] self.files_in_update@[a] == if a < i as int {
                                    pre[a]
                                } else {
                                    pre[a + 1]
                                });
                        }
                    }
                }
                return ;
            }
            i = i + 1;
        }
        proof {
            lemma_flight_none(self.files_in_update@, path@);
        }
    }
}

} // verus!
