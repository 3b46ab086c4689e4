//! Decoders for the entities of one primitive group.
use vstd::prelude::*;
use vstd::slice::slice_subrange;
use crate::delta::{
    delta_decode, running_sums, signed_column, sums_fit, twos_all, unzigzag_column, zigzag_all,
};
use crate::dense::{scale, scaled, BlockParams};
use crate::model::{
    members_view, tags_view, Entity, EntityView, Member, Metadata, MetadataView, Node, ObjType,
    PbfError, Relation, TagsView, Way,
};
use crate::strings::{resolve_in, StringTable, TableView};
use crate::wire::{
    column, decode_twos, decode_zigzag, fields_of, get_bytes, get_column, get_varint, last_bytes, last_varint,
    parse_fields, twos, zigzag,
};

verus! {

/// The tag pairs of `pairs` whose key and value both resolve, in order.
pub open spec fn resolve_pairs(t: TableView, pairs: Seq<(i64, i64)>) -> TagsView
    decreases pairs.len(),
{
    if pairs.len() == 0 {
        Seq::empty()
    } else {
        let front = resolve_pairs(t, pairs.drop_last());
        match (resolve_in(t, pairs.last().0 as int), resolve_in(t, pairs.last().1 as int)) {
            (Some(k), Some(v)) => front.push((k, v)),
            _ => front,
        }
    }
}

/// Key and value columns taken pairwise, up to the shorter one.
pub open spec fn zip_pairs(keys: Seq<i64>, vals: Seq<i64>) -> Seq<(i64, i64)> {
    let n = if keys.len() <= vals.len() {
        keys.len()
    } else {
        vals.len()
    };
    Seq::new(n, |i: int| (keys[i], vals[i]))
}

/// Resolves tag index pairs through the string table, dropping a pair when
/// either side is absent.
pub fn resolve_tags(t: &StringTable, pairs: &Vec<(i64, i64)>) -> (r: Vec<(String, String)>)
    ensures
        tags_view(r@) == resolve_pairs(t@, pairs@),
{
    let mut out: Vec<(String, String)> = Vec::new();
    let mut i: usize = 0;
    while i < pairs.len()
        invariant
            i <= pairs@.len(),
            tags_view(out@) == resolve_pairs(t@, pairs@.take(i as int)),
        decreases pairs@.len() - i,
    {
        assert(pairs@.take(i + 1).drop_last() =~= pairs@.take(i as int));
        let (k, v) = pairs[i];
        match (t.get(k), t.get(v)) {
            (Some(ks), Some(vs)) => {
                out.push((ks.clone(), vs.clone()));
                assert(tags_view(out@) =~= resolve_pairs(t@, pairs@.take(i + 1)));
            },
            _ => {},
        }
        i = i + 1;
    }
    assert(pairs@.take(i as int) =~= pairs@);
    out
}

/// Pairs two index columns up to the shorter one.
pub fn zip_columns(keys: &Vec<i64>, vals: &Vec<i64>) -> (r: Vec<(i64, i64)>)
    ensures
        r@ == zip_pairs(keys@, vals@),
{
    let n = if keys.len() <= vals.len() {
        keys.len()
    } else {
        vals.len()
    };
    let mut out: Vec<(i64, i64)> = Vec::new();
    let mut i: usize = 0;
    while i < n
        invariant
            i <= n,
            n <= keys@.len(),
            n <= vals@.len(),
            n == zip_pairs(keys@, vals@).len(),
            out@ =~= zip_pairs(keys@, vals@).take(i as int),
        decreases n - i,
    {
        out.push((keys[i], vals[i]));
        i = i + 1;
    }
    assert(zip_pairs(keys@, vals@).take(i as int) =~= zip_pairs(keys@, vals@));
    out
}

pub open spec fn opt_twos(o: Option<u64>) -> Option<i64> {
    match o {
        Some(v) => Some(twos(v) as i64),
        None => None,
    }
}

/// A user id lies in the non-negative range of `i32`.
pub open spec fn uid_in_range(u: int) -> bool {
    0 <= u <= i32::MAX
}

/// The metadata of an `Info` message held at `info` within `m`; without one,
/// every field is absent and the entity is visible.
pub open spec fn info_meta(t: TableView, m: Seq<u8>, info: Option<(usize, usize)>) -> Result<
    MetadataView,
    PbfError,
> {
    match info {
        None => Ok(
            MetadataView {
                changeset_id: None,
                uid: None,
                user: None,
                version: None,
                timestamp: None,
                deleted: false,
            },
        ),
        Some((a, b)) => if !(a <= b <= m.len()) {
            Err(PbfError::Decode)
        } else {
            match fields_of(m.subrange(a as int, b as int)) {
                None => Err(PbfError::Decode),
                Some(fs) => {
                    let uid = opt_twos(last_varint(fs, 4));
                    let sid = opt_twos(last_varint(fs, 5));
                    if uid matches Some(u) && !uid_in_range(u as int) {
                        Err(PbfError::Range)
                    } else if sid matches Some(x) && resolve_in(t, x as int) is None {
                        Err(PbfError::Encoding)
                    } else {
                        Ok(
                            MetadataView {
                                changeset_id: opt_twos(last_varint(fs, 3)),
                                uid,
                                user: match sid {
                                    Some(x) => resolve_in(t, x as int),
                                    None => None,
                                },
                                version: opt_twos(last_varint(fs, 1)),
                                timestamp: opt_twos(last_varint(fs, 2)),
                                deleted: last_varint(fs, 6) == Some(0u64),
                            },
                        )
                    }
                },
            }
        },
    }
}

fn opt_signed(o: Option<u64>) -> (r: Option<i64>)
    ensures
        r == opt_twos(o),
{
    match o {
        Some(v) => Some(decode_twos(v)),
        None => None,
    }
}

/// Decodes the `Info` message at `info` within `m`.
pub fn decode_info(t: &StringTable, m: &[u8], info: Option<(usize, usize)>) -> (r: Result<
    Metadata,
    PbfError,
>)
    ensures
        match info_meta(t@, m@, info) {
            Ok(v) => r is Ok && r->Ok_0@ == v,
            Err(e) => r == Err::<Metadata, PbfError>(e),
        },
{
    let (a, b) = match info {
        None => {
            return Ok(
                Metadata {
                    changeset_id: None,
                    uid: None,
                    user: None,
                    version: None,
                    timestamp: None,
                    deleted: false,
                },
            );
        },
        Some(p) => p,
    };
    if !(a <= b && b <= m.len()) {
        return Err(PbfError::Decode);
    }
    let im = slice_subrange(m, a, b);
    let fs = match parse_fields(im) {
        None => {
            return Err(PbfError::Decode);
        },
        Some(fs) => fs,
    };
    let uid = opt_signed(get_varint(&fs, 4));
    let sid = opt_signed(get_varint(&fs, 5));
    if let Some(u) = uid {
        if u < 0 || u > 0x7fff_ffff {
            return Err(PbfError::Range);
        }
    }
    let user = match sid {
        Some(x) => match t.get(x) {
            Some(u) => Some(u.clone()),
            None => {
                return Err(PbfError::Encoding);
            },
        },
        None => None,
    };
    let vis = get_varint(&fs, 6);
    Ok(
        Metadata {
            changeset_id: opt_signed(get_varint(&fs, 3)),
            uid,
            user,
            version: opt_signed(get_varint(&fs, 1)),
            timestamp: opt_signed(get_varint(&fs, 2)),
            deleted: vis == Some(0u64),
        },
    )
}

/// The way encoded by the message `m`.
pub open spec fn way_spec(t: TableView, m: Seq<u8>) -> Result<EntityView, PbfError> {
    match fields_of(m) {
        None => Err(PbfError::Decode),
        Some(fs) => match (last_varint(fs, 1), column(m, fs, 2), column(m, fs, 3), column(m, fs, 8)) {
            (Some(id), Some(k), Some(v), Some(refs)) => if !sums_fit(zigzag_all(refs)) {
                Err(PbfError::Range)
            } else {
                match info_meta(t, m, last_bytes(fs, 4)) {
                    Err(e) => Err(e),
                    Ok(meta) => Ok(
                        EntityView::Way {
                            id: twos(id) as i64,
                            tags: resolve_pairs(t, zip_pairs(twos_all(k), twos_all(v))),
                            nodes: running_sums(zigzag_all(refs)),
                            meta,
                        },
                    ),
                }
            },
            _ => Err(PbfError::Decode),
        },
    }
}

/// Decodes one `Way` message: absolute id, zipped tags, delta-coded node
/// references and metadata read as stored.
pub fn decode_way(t: &StringTable, m: &[u8]) -> (r: Result<Entity, PbfError>)
    ensures
        match way_spec(t@, m@) {
            Ok(v) => r is Ok && r->Ok_0@ == v,
            Err(e) => r == Err::<Entity, PbfError>(e),
        },
{
    let fs = match parse_fields(m) {
        None => {
            return Err(PbfError::Decode);
        },
        Some(fs) => fs,
    };
    let id = get_varint(&fs, 1);
    let k = get_column(m, &fs, 2);
    let v = get_column(m, &fs, 3);
    let refs = get_column(m, &fs, 8);
    let (id, k, v, refs) = match (id, k, v, refs) {
        (Some(id), Some(k), Some(v), Some(refs)) => (id, k, v, refs),
        _ => {
            return Err(PbfError::Decode);
        },
    };
    let nodes = match delta_decode(&unzigzag_column(&refs)) {
        None => {
            return Err(PbfError::Range);
        },
        Some(n) => n,
    };
    let meta = match decode_info(t, m, get_bytes(&fs, 4)) {
        Err(e) => {
            return Err(e);
        },
        Ok(meta) => meta,
    };
    let pairs = zip_columns(&signed_column(&k), &signed_column(&v));
    let tags = resolve_tags(t, &pairs);
    Ok(Entity::Way(Way { id: decode_twos(id), tags, nodes, meta }))
}

/// The member kinds of a column, or `None` when one is not a known kind.
pub open spec fn kinds_of(c: Seq<u64>) -> Option<Seq<ObjType>> {
    if forall|i: int| 0 <= i < c.len() ==> #[trigger] c[i] < 3 {
        Some(
            Seq::new(
                c.len(),
                |i: int|
                    if c[i] == 0 {
                        ObjType::Node
                    } else if c[i] == 1 {
                        ObjType::Way
                    } else {
                        ObjType::Relation
                    },
            ),
        )
    } else {
        None
    }
}

fn decode_kinds(c: &Vec<u64>) -> (r: Option<Vec<ObjType>>)
    ensures
        match kinds_of(c@) {
            Some(ks) => r is Some && r->0@ == ks,
            None => r is None,
        },
{
    let mut out: Vec<ObjType> = Vec::new();
    let mut i: usize = 0;
    while i < c.len()
        invariant
            i <= c@.len(),
            out@.len() == i,
            forall|j: int| 0 <= j < i ==> #[trigger] c@[j] < 3,
            forall|j: int|
                0 <= j < i ==> #[trigger] out@[j] == (if c@[j] == 0 {
                    ObjType::Node
                } else if c@[j] == 1 {
                    ObjType::Way
                } else {
                    ObjType::Relation
                }),
        decreases c@.len() - i,
    {
        let k = if c[i] == 0 {
            ObjType::Node
        } else if c[i] == 1 {
            ObjType::Way
        } else if c[i] == 2 {
            ObjType::Relation
        } else {
            return None;
        };
        out.push(k);
        i = i + 1;
    }
    proof {
        if let Some(ks) = kinds_of(c@) {
            assert(out@ =~= ks);
        }
    }
    Some(out)
}

/// The members built from the first `n` entries of the three columns; a
/// member whose role does not resolve is dropped.
pub open spec fn members_upto(
    t: TableView,
    kinds: Seq<ObjType>,
    ids: Seq<i64>,
    roles: Seq<i64>,
    n: int,
) -> Seq<(ObjType, i64, Seq<char>)>
    decreases n,
{
    if n <= 0 {
        Seq::empty()
    } else {
        let front = members_upto(t, kinds, ids, roles, n - 1);
        match resolve_in(t, roles[n - 1] as int) {
            Some(role) => front.push((kinds[n - 1], ids[n - 1], role)),
            None => front,
        }
    }
}

pub open spec fn min3(a: int, b: int, c: int) -> int {
    if a <= b && a <= c {
        a
    } else if b <= c {
        b
    } else {
        c
    }
}

/// The members of a relation: kinds, delta-decoded ids and roles, zipped.
pub open spec fn members_spec(
    t: TableView,
    kinds: Seq<ObjType>,
    ids: Seq<i64>,
    roles: Seq<i64>,
) -> Seq<(ObjType, i64, Seq<char>)> {
    members_upto(t, kinds, ids, roles, min3(kinds.len() as int, ids.len() as int, roles.len() as int))
}

fn build_members(t: &StringTable, kinds: &Vec<ObjType>, ids: &Vec<i64>, roles: &Vec<i64>) -> (r: Vec<
    Member,
>)
    ensures
        members_view(r@) == members_spec(t@, kinds@, ids@, roles@),
{
    let n = if kinds.len() <= ids.len() && kinds.len() <= roles.len() {
        kinds.len()
    } else if ids.len() <= roles.len() {
        ids.len()
    } else {
        roles.len()
    };
    let mut out: Vec<Member> = Vec::new();
    let mut i: usize = 0;
    while i < n
        invariant
            i <= n,
            n <= kinds@.len(),
            n <= ids@.len(),
            n <= roles@.len(),
            n == min3(kinds@.len() as int, ids@.len() as int, roles@.len() as int),
            members_view(out@) == members_upto(t@, kinds@, ids@, roles@, i as int),
        decreases n - i,
    {
        match t.get(roles[i]) {
            Some(role) => {
                out.push(Member { kind: kinds[i], id: ids[i], role: role.clone() });
                assert(members_view(out@) =~= members_upto(t@, kinds@, ids@, roles@, i + 1));
            },
            None => {},
        }
        i = i + 1;
    }
    out
}

/// The relation encoded by the message `m`.
pub open spec fn relation_spec(t: TableView, m: Seq<u8>) -> Result<EntityView, PbfError> {
    match fields_of(m) {
        None => Err(PbfError::Decode),
        Some(fs) => match (
            last_varint(fs, 1),
            column(m, fs, 2),
            column(m, fs, 3),
            column(m, fs, 8),
            column(m, fs, 9),
            column(m, fs, 10),
        ) {
            (Some(id), Some(k), Some(v), Some(roles), Some(memids), Some(types)) => match kinds_of(
                types,
            ) {
                None => Err(PbfError::Decode),
                Some(kinds) => if !sums_fit(zigzag_all(memids)) {
                    Err(PbfError::Range)
                } else {
                    match info_meta(t, m, last_bytes(fs, 4)) {
                        Err(e) => Err(e),
                        Ok(meta) => Ok(
                            EntityView::Relation {
                                id: twos(id) as i64,
                                tags: resolve_pairs(t, zip_pairs(twos_all(k), twos_all(v))),
                                members: members_spec(
                                    t,
                                    kinds,
                                    running_sums(zigzag_all(memids)),
                                    twos_all(roles),
                                ),
                                meta,
                            },
                        ),
                    }
                },
            },
            _ => Err(PbfError::Decode),
        },
    }
}

/// Decodes one `Relation` message: absolute id, zipped tags, members from
/// kinds, delta-coded ids and role strings, and metadata read as stored.
pub fn decode_relation(t: &StringTable, m: &[u8]) -> (r: Result<Entity, PbfError>)
    ensures
        match relation_spec(t@, m@) {
            Ok(v) => r is Ok && r->Ok_0@ == v,
            Err(e) => r == Err::<Entity, PbfError>(e),
        },
{
    let fs = match parse_fields(m) {
        None => {
            return Err(PbfError::Decode);
        },
        Some(fs) => fs,
    };
    let id = get_varint(&fs, 1);
    let k = get_column(m, &fs, 2);
    let v = get_column(m, &fs, 3);
    let roles = get_column(m, &fs, 8);
    let memids = get_column(m, &fs, 9);
    let types = get_column(m, &fs, 10);
    let (id, k, v, roles, memids, types) = match (id, k, v, roles, memids, types) {
        (Some(id), Some(k), Some(v), Some(roles), Some(memids), Some(types)) => (
            id,
            k,
            v,
            roles,
            memids,
            types,
        ),
        _ => {
            return Err(PbfError::Decode);
        },
    };
    let kinds = match decode_kinds(&types) {
        None => {
            return Err(PbfError::Decode);
        },
        Some(ks) => ks,
    };
    let ids = match delta_decode(&unzigzag_column(&memids)) {
        None => {
            return Err(PbfError::Range);
        },
        Some(n) => n,
    };
    let meta = match decode_info(t, m, get_bytes(&fs, 4)) {
        Err(e) => {
            return Err(e);
        },
        Ok(meta) => meta,
    };
    let pairs = zip_columns(&signed_column(&k), &signed_column(&v));
    let tags = resolve_tags(t, &pairs);
    let members = build_members(t, &kinds, &ids, &signed_column(&roles));
    Ok(Entity::Relation(Relation { id: decode_twos(id), tags, members, meta }))
}

/// The node encoded by the plain `Node` message `m`.
pub open spec fn node_spec(t: TableView, p: BlockParams, m: Seq<u8>) -> Result<EntityView, PbfError> {
    match fields_of(m) {
        None => Err(PbfError::Decode),
        Some(fs) => match (
            last_varint(fs, 1),
            column(m, fs, 2),
            column(m, fs, 3),
            last_varint(fs, 8),
            last_varint(fs, 9),
        ) {
            (Some(id), Some(k), Some(v), Some(lat), Some(lon)) => match (
                scaled(p.lat_offset, p.granularity, zigzag(lat) as i64),
                scaled(p.lon_offset, p.granularity, zigzag(lon) as i64),
            ) {
                (Some(la), Some(lo)) => match info_meta(t, m, last_bytes(fs, 4)) {
                    Err(e) => Err(e),
                    Ok(meta) => Ok(
                        EntityView::Node {
                            id: zigzag(id) as i64,
                            tags: resolve_pairs(t, zip_pairs(twos_all(k), twos_all(v))),
                            lat_lon: Some((la, lo)),
                            meta,
                        },
                    ),
                },
                _ => Err(PbfError::Range),
            },
            _ => Err(PbfError::Decode),
        },
    }
}

/// Decodes one plain `Node` message: id and coordinates are stored whole.
pub fn decode_node(t: &StringTable, p: BlockParams, m: &[u8]) -> (r: Result<Entity, PbfError>)
    ensures
        match node_spec(t@, p, m@) {
            Ok(v) => r is Ok && r->Ok_0@ == v,
            Err(e) => r == Err::<Entity, PbfError>(e),
        },
{
    let fs = match parse_fields(m) {
        None => {
            return Err(PbfError::Decode);
        },
        Some(fs) => fs,
    };
    let (id, k, v, lat, lon) = match (
        get_varint(&fs, 1),
        get_column(m, &fs, 2),
        get_column(m, &fs, 3),
        get_varint(&fs, 8),
        get_varint(&fs, 9),
    ) {
        (Some(id), Some(k), Some(v), Some(lat), Some(lon)) => (id, k, v, lat, lon),
        _ => {
            return Err(PbfError::Decode);
        },
    };
    let (la, lo) = match (
        scale(p.lat_offset, p.granularity, decode_zigzag(lat)),
        scale(p.lon_offset, p.granularity, decode_zigzag(lon)),
    ) {
        (Some(la), Some(lo)) => (la, lo),
        _ => {
            return Err(PbfError::Range);
        },
    };
    let meta = match decode_info(t, m, get_bytes(&fs, 4)) {
        Err(e) => {
            return Err(e);
        },
        Ok(meta) => meta,
    };
    let pairs = zip_columns(&signed_column(&k), &signed_column(&v));
    let tags = resolve_tags(t, &pairs);
    Ok(Entity::Node(Node { id: decode_zigzag(id), tags, lat_lon: Some((la, lo)), meta }))
}

} // verus!
