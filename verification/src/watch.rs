//! Mapping of filesystem notifications to bus events.
//!
//! The subscription to raw notifications lives outside the library; it
//! resolves the affected path, computes the digest and hands the
//! normalized pieces in. Here the kind of the notification decides which
//! announcement, if any, goes on the bus.

use vstd::prelude::*;
use vstd::string::StrSliceExecFns;
use crate::broker::{InternalMessage, InternalMessageV, InternalToExternal, InternalToExternalV};

verus! {

/// The kind of a raw filesystem notification, as the watcher reports it.
#[derive(Debug, Clone, Copy, PartialEq, Eq, Structural)]
pub enum WatchKind {
    CreateFile,
    CreateFolder,
    CreateOther,
    ModifyData,
    ModifyName,
    ModifyMetadata,
    ModifyOther,
    RemoveFile,
    RemoveFolder,
    RemoveOther,
    Access,
    Other,
}

/// The bus event a notification becomes: creations and data
/// modifications are announced; renames, metadata changes, accesses and
/// unknown kinds are ignored.
pub open spec fn spec_watch_message(
    kind: WatchKind,
    event_id: Seq<char>,
    rel_path: Seq<char>,
    sha: Seq<char>,
) -> Option<InternalToExternalV> {
    match kind {
        WatchKind::CreateFile => Some(
            InternalToExternalV::FileCreated { id: event_id, file: rel_path, sha },
        ),
        WatchKind::CreateFolder => Some(
            InternalToExternalV::FolderCreated { id: event_id, folder: rel_path, sha },
        ),
        WatchKind::ModifyData => Some(
            InternalToExternalV::FileModified { id: event_id, file: rel_path, sha },
        ),
        WatchKind::RemoveFile => Some(
            InternalToExternalV::FileDeleted { id: event_id, folder: rel_path, sha },
        ),
        WatchKind::RemoveFolder => Some(
            InternalToExternalV::FolderDeleted { id: event_id, file: rel_path, sha },
        ),
        _ => None,
    }
}

/// Maps one normalized notification to the bus event it becomes.
pub fn handle_event(kind: WatchKind, event_id: String, rel_path: String, sha: String) -> (r: Option<
    InternalMessage,
>)
    ensures
        match r {
            Some(m) => spec_watch_message(kind, event_id@, rel_path@, sha@) is Some && m@
                == (InternalMessageV::InternalToExternal {
                message: spec_watch_message(kind, event_id@, rel_path@, sha@).unwrap(),
            }),
            None => spec_watch_message(kind, event_id@, rel_path@, sha@) is None,
        },
{
    match kind {
        WatchKind::CreateFile => Some(
            InternalMessage::InternalToExternal {
                message: InternalToExternal::FileCreated { id: event_id, file: rel_path, sha },
            },
        ),
        WatchKind::CreateFolder => Some(
            InternalMessage::InternalToExternal {
                message: InternalToExternal::FolderCreated { id: event_id, folder: rel_path, sha },
            },
        ),
        WatchKind::ModifyData => Some(
            InternalMessage::InternalToExternal {
                message: InternalToExternal::FileModified { id: event_id, file: rel_path, sha },
            },
        ),
        WatchKind::RemoveFile => Some(
            InternalMessage::InternalToExternal {
                message: InternalToExternal::FileDeleted { id: event_id, folder: rel_path, sha },
            },
        ),
        WatchKind::RemoveFolder => Some(
            InternalMessage::InternalToExternal {
                message: InternalToExternal::FolderDeleted { id: event_id, file: rel_path, sha },
            },
        ),
        _ => None,
    }
}

/// The path under the root: the remainder after the root prefix and its
/// separator, empty for the root itself, nothing when the path does not
/// lie under the root.
pub open spec fn spec_relative_path(root: Seq<char>, path: Seq<char>) -> Option<Seq<char>> {
    if path == root {
        Some(Seq::<char>::empty())
    } else if path.len() > root.len() && path.take(root.len() as int) == root && path[root.len() as int]
        == '/' {
        Some(path.skip(root.len() as int + 1))
    } else {
        None
    }
}

/// Strips the root prefix from an absolute path.
pub fn get_relative_path(root: &str, path: &str) -> (r: Option<String>)
    ensures
        match r {
            Some(rel) => spec_relative_path(root@, path@) == Some(rel@),
            None => spec_relative_path(root@, path@) is None,
        },
{
    let rn = root.unicode_len();
    let pn = path.unicode_len();
    if pn < rn {
        proof {
            assert(path@ != root@);
            assert(spec_relative_path(root@, path@) is None);
        }
        return None;
    }
    let mut i: usize = 0;
    while i < rn
        invariant
            i <= rn,
            rn == root@.len(),
            pn == path@.len(),
            rn <= pn,
            forall|k: int| 0 <= k < i ==> path@[k] == root@[k],
        decreases rn - i,
    {
        if path.get_char(i) != root.get_char(i) {
            proof {
                assert(path@[i as int] != root@[i as int]);
                assert(path@ != root@);
                if path@.len() > root@.len() && path@.take(root@.len() as int) == root@ {
                    assert(path@.take(root@.len() as int)[i as int] == path@[i as int]);
                }
            }
            return None;
        }
        i = i + 1;
    }
    if pn == rn {
        proof {
            assert(path@ =~= root@);
        }
        return Some(String::new());
    }
    proof {
        assert(path@.take(root@.len() as int) =~= root@);
        assert(path@ != root@) by {
            assert(path@.len() != root@.len());
        }
    }
    if path.get_char(rn) != '/' {
        return None;
    }
    let mut rest: Vec<char> = Vec::new();
    let mut j: usize = rn + 1;
    while j < pn
        invariant
            rn + 1 <= j <= pn,
            pn == path@.len(),
            rest@ == path@.subrange(rn as int + 1, j as int),
        decreases pn - j,
    {
        rest.push(path.get_char(j));
        proof {
            assert(rest@ =~= path@.subrange(rn as int + 1, j + 1));
        }
        j = j + 1;
    }
    proof {
        assert(path@.subrange(rn as int + 1, pn as int) =~= path@.skip(rn as int + 1));
    }
    Some(crate::chars::string_from_chars(rest.as_slice()))
}

} // verus!
