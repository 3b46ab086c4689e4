//! Decoded entities and their mathematical views.
use vstd::prelude::*;

verus! {

/// The errors of the block decoder.
#[derive(Debug, Clone, Copy, PartialEq, Eq, Structural)]
pub enum PbfError {
    /// A length-prefixed frame is truncated or malformed.
    Framing,
    /// A payload has no data, or a group has no populated variant.
    Format,
    /// A message does not parse, or its columns do not line up.
    Decode,
    /// A decoded number lies outside its valid range.
    Range,
    /// A string that must be present is not valid text.
    Encoding,
}

/// The kind of an object that a relation member refers to.
#[derive(Debug, Clone, Copy, PartialEq, Eq, Structural)]
pub enum ObjType {
    Node,
    Way,
    Relation,
}

pub type TagsView = Seq<(Seq<char>, Seq<char>)>;

pub open spec fn tags_view(t: Seq<(String, String)>) -> TagsView {
    t.map_values(|p: (String, String)| (p.0@, p.1@))
}

/// Editing metadata of an entity; timestamps are seconds since the epoch.
#[derive(Debug, Clone)]
pub struct Metadata {
    pub changeset_id: Option<i64>,
    pub uid: Option<i64>,
    pub user: Option<String>,
    pub version: Option<i64>,
    pub timestamp: Option<i64>,
    pub deleted: bool,
}

pub struct MetadataView {
    pub changeset_id: Option<i64>,
    pub uid: Option<i64>,
    pub user: Option<Seq<char>>,
    pub version: Option<i64>,
    pub timestamp: Option<i64>,
    pub deleted: bool,
}

impl View for Metadata {
    type V = MetadataView;

    open spec fn view(&self) -> MetadataView {
        MetadataView {
            changeset_id: self.changeset_id,
            uid: self.uid,
            user: match self.user {
                Some(u) => Some(u@),
                None => None,
            },
            version: self.version,
            timestamp: self.timestamp,
            deleted: self.deleted,
        }
    }
}

/// A point. Coordinates are in nanodegrees: `(offset + granularity * value)`.
#[derive(Debug, Clone)]
pub struct Node {
    pub id: i64,
    pub tags: Vec<(String, String)>,
    pub lat_lon: Option<(i64, i64)>,
    pub meta: Metadata,
}

/// A path through nodes, by their ids.
#[derive(Debug, Clone)]
pub struct Way {
    pub id: i64,
    pub tags: Vec<(String, String)>,
    pub nodes: Vec<i64>,
    pub meta: Metadata,
}

/// One member of a relation.
#[derive(Debug, Clone)]
pub struct Member {
    pub kind: ObjType,
    pub id: i64,
    pub role: String,
}

/// A relation between other objects.
#[derive(Debug, Clone)]
pub struct Relation {
    pub id: i64,
    pub tags: Vec<(String, String)>,
    pub members: Vec<Member>,
    pub meta: Metadata,
}

/// One decoded entity.
#[derive(Debug, Clone)]
pub enum Entity {
    Node(Node),
    Way(Way),
    Relation(Relation),
}

pub enum EntityView {
    Node { id: i64, tags: TagsView, lat_lon: Option<(i64, i64)>, meta: MetadataView },
    Way { id: i64, tags: TagsView, nodes: Seq<i64>, meta: MetadataView },
    Relation {
        id: i64,
        tags: TagsView,
        members: Seq<(ObjType, i64, Seq<char>)>,
        meta: MetadataView,
    },
}

pub open spec fn members_view(m: Seq<Member>) -> Seq<(ObjType, i64, Seq<char>)> {
    m.map_values(|x: Member| (x.kind, x.id, x.role@))
}

impl View for Entity {
    type V = EntityView;

    open spec fn view(&self) -> EntityView {
        match self {
            Entity::Node(n) => EntityView::Node {
                id: n.id,
                tags: tags_view(n.tags@),
                lat_lon: n.lat_lon,
                meta: n.meta@,
            },
            Entity::Way(w) => EntityView::Way {
                id: w.id,
                tags: tags_view(w.tags@),
                nodes: w.nodes@,
                meta: w.meta@,
            },
            Entity::Relation(r) => EntityView::Relation {
                id: r.id,
                tags: tags_view(r.tags@),
                members: members_view(r.members@),
                meta: r.meta@,
            },
        }
    }
}

pub open spec fn entities_view(v: Seq<Entity>) -> Seq<EntityView> {
    v.map_values(|e: Entity| e@)
}

impl Entity {
    pub fn id(&self) -> (r: i64)
        ensures
            r == match self@ {
                EntityView::Node { id, .. } => id,
                EntityView::Way { id, .. } => id,
                EntityView::Relation { id, .. } => id,
            },
    {
        match self {
            Entity::Node(n) => n.id,
            Entity::Way(w) => w.id,
            Entity::Relation(r) => r.id,
        }
    }
}

} // verus!
