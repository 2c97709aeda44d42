//! The data model of the cache: object keys, object records, and the
//! events a watch stream delivers.

use vstd::prelude::*;

verus! {

/// Mathematical view of an [`ObjectKey`]: the three name components as
/// character sequences.
#[verifier::ext_equal]
pub struct KeyView {
    pub kind: Seq<char>,
    pub namespace: Seq<char>,
    pub name: Seq<char>,
}

/// Identifies one object of one kind. `namespace` is empty for
/// cluster-scoped kinds (nodes); keys are unique per kind.
pub struct ObjectKey {
    pub kind: String,
    pub namespace: String,
    pub name: String,
}

impl View for ObjectKey {
    type V = KeyView;

    open spec fn view(&self) -> KeyView {
        KeyView { kind: self.kind@, namespace: self.namespace@, name: self.name@ }
    }
}

impl Clone for ObjectKey {
    fn clone(&self) -> (r: Self)
        ensures
            r == *self,
    {
        ObjectKey {
            kind: self.kind.clone(),
            namespace: self.namespace.clone(),
            name: self.name.clone(),
        }
    }
}

/// Decides whether two keys name the same object.
pub fn key_eq(a: &ObjectKey, b: &ObjectKey) -> (r: bool)
    ensures
        r == (a@ == b@),
{
    let r = a.kind == b.kind && a.namespace == b.namespace && a.name == b.name;
    proof {
        if a@.kind == b@.kind && a@.namespace == b@.namespace && a@.name == b@.name {
            assert(a@ =~= b@);
        }
    }
    r
}

/// Mathematical view of an [`ObjectRecord`].
#[verifier::ext_equal]
pub struct RecordView {
    pub key: KeyView,
    pub resource_version: Seq<char>,
    pub payload: Seq<char>,
}

/// The latest known version of one object: its key, the server's
/// synchronization cursor at which this version was observed, and the
/// object body, opaque to the cache.
pub struct ObjectRecord {
    pub key: ObjectKey,
    pub resource_version: String,
    pub payload: String,
}

impl View for ObjectRecord {
    type V = RecordView;

    open spec fn view(&self) -> RecordView {
        RecordView {
            key: self.key@,
            resource_version: self.resource_version@,
            payload: self.payload@,
        }
    }
}

impl Clone for ObjectRecord {
    fn clone(&self) -> (r: Self)
        ensures
            r == *self,
    {
        ObjectRecord {
            key: self.key.clone(),
            resource_version: self.resource_version.clone(),
            payload: self.payload.clone(),
        }
    }
}

/// Why a watch stream reported an error, and whether the requested
/// starting cursor has been compacted away on the server (`is_gone`).
pub struct WatchError {
    pub reason: String,
    pub is_gone: bool,
}

/// Mathematical view of a [`WatchError`].
#[verifier::ext_equal]
pub struct WatchErrorView {
    pub reason: Seq<char>,
    pub is_gone: bool,
}

impl View for WatchError {
    type V = WatchErrorView;

    open spec fn view(&self) -> WatchErrorView {
        WatchErrorView { reason: self.reason@, is_gone: self.is_gone }
    }
}

/// Mathematical view of a [`WatchEvent`].
#[verifier::ext_equal]
pub enum EventView {
    Added(RecordView),
    Modified(RecordView),
    Deleted(KeyView),
    Bookmark(Seq<char>),
    Error(WatchErrorView),
}

/// One change delivered by the watch transport.
pub enum WatchEvent {
    /// A new object appeared; carries its full record.
    Added(ObjectRecord),
    /// An existing object changed; carries its full new record.
    Modified(ObjectRecord),
    /// The object under this key is gone from the server.
    Deleted(ObjectKey),
    /// The server advanced the synchronization cursor without any
    /// object changing.
    Bookmark(String),
    /// The stream failed; see [`WatchError`].
    Error(WatchError),
}

impl View for WatchEvent {
    type V = EventView;

    open spec fn view(&self) -> EventView {
        match self {
            WatchEvent::Added(r) => EventView::Added(r@),
            WatchEvent::Modified(r) => EventView::Modified(r@),
            WatchEvent::Deleted(k) => EventView::Deleted(k@),
            WatchEvent::Bookmark(v) => EventView::Bookmark(v@),
            WatchEvent::Error(e) => EventView::Error(e@),
        }
    }
}

} // verus!
