//! The dense-node encoding: parallel delta-coded columns and a flat,
//! zero-terminated tag stream.
use vstd::prelude::*;
use vstd::slice::slice_subrange;
use crate::decode::{resolve_pairs, resolve_tags, uid_in_range};
use crate::delta::{
    delta_decode, prefix_sum, running_sums, signed_column, sums_fit, twos_all, unzigzag_column, zigzag_all,
};
use crate::model::{Entity, EntityView, Metadata, MetadataView, Node, PbfError};
use crate::strings::{resolve_in, StringTable, TableView};
use crate::wire::{column, fields_of, get_bytes, get_column, last_bytes, parse_fields};

verus! {

/// The scaling parameters of a block. `date_granularity` is already in
/// seconds-scaled ticks (the stored milliseconds divided by 1000).
#[derive(Debug, Clone, Copy, PartialEq, Eq, Structural)]
pub struct BlockParams {
    pub granularity: i64,
    pub lat_offset: i64,
    pub lon_offset: i64,
    pub date_granularity: i64,
}

/// `offset + factor * value`, when it fits in an `i64`.
pub open spec fn scaled(offset: i64, factor: i64, value: i64) -> Option<i64> {
    let x = offset + factor * value;
    if i64::MIN <= x <= i64::MAX {
        Some(x as i64)
    } else {
        None
    }
}

/// Computes `offset + factor * value`; this turns an accumulated coordinate
/// into nanodegrees and an accumulated timestamp into seconds.
pub fn scale(offset: i64, factor: i64, value: i64) -> (r: Option<i64>)
    ensures
        r == scaled(offset, factor, value),
{
    let f = factor as i128;
    let v = value as i128;
    assert(-0x4000_0000_0000_0000_0000_0000_0000_0000 <= (f as int) * (v as int)
        <= 0x4000_0000_0000_0000_0000_0000_0000_0000) by (nonlinear_arith)
        requires
            -0x8000_0000_0000_0000 <= f <= 0x7fff_ffff_ffff_ffff,
            -0x8000_0000_0000_0000 <= v <= 0x7fff_ffff_ffff_ffff,
    ;
    let x: i128 = offset as i128 + f * v;
    if x < -0x8000_0000_0000_0000 || x > 0x7fff_ffff_ffff_ffff {
        None
    } else {
        Some(x as i64)
    }
}

/// The tag index pairs of one node, read from `p` up to its terminating zero,
/// and the position after that zero. `None` when the stream ends first.
pub open spec fn pairs_until_zero(kv: Seq<i64>, p: int) -> Option<(Seq<(i64, i64)>, int)>
    decreases kv.len() - p,
{
    if p < 0 || p >= kv.len() {
        None
    } else if kv[p] == 0 {
        Some((Seq::empty(), p + 1))
    } else if p + 1 >= kv.len() {
        None
    } else {
        match pairs_until_zero(kv, p + 2) {
            Some((rest, e)) => Some((seq![(kv[p], kv[p + 1])] + rest, e)),
            None => None,
        }
    }
}

/// The tag index pairs of `n` nodes read one after another from `p`.
pub open spec fn tags_from(kv: Seq<i64>, p: int, n: nat) -> Option<Seq<Seq<(i64, i64)>>>
    decreases n,
{
    if n == 0 {
        Some(Seq::empty())
    } else {
        match pairs_until_zero(kv, p) {
            None => None,
            Some((ps, e)) => match tags_from(kv, e, (n - 1) as nat) {
                Some(rest) => Some(seq![ps] + rest),
                None => None,
            },
        }
    }
}

/// The tag index pairs of `n` nodes: none at all when the stream is empty.
pub open spec fn node_tags(kv: Seq<i64>, n: nat) -> Option<Seq<Seq<(i64, i64)>>> {
    if kv.len() == 0 {
        Some(Seq::new(n, |i: int| Seq::<(i64, i64)>::empty()))
    } else {
        tags_from(kv, 0, n)
    }
}

proof fn lemma_pairs_bounds(kv: Seq<i64>, p: int)
    ensures
        pairs_until_zero(kv, p) matches Some((ps, e)) ==> p < e <= kv.len(),
    decreases kv.len() - p,
{
    if 0 <= p < kv.len() && kv[p] != 0 && p + 1 < kv.len() {
        lemma_pairs_bounds(kv, p + 2);
    }
}

/// Reads the tag index pairs of one node, from `p` to its terminating zero.
pub fn next_node_pairs(kv: &Vec<i64>, p: usize) -> (r: Option<(Vec<(i64, i64)>, usize)>)
    ensures
        match pairs_until_zero(kv@, p as int) {
            Some((ps, e)) => r matches Some((v, x)) && v@ == ps && x == e,
            None => r is None,
        },
{
    proof {
        lemma_pairs_bounds(kv@, p as int);
    }
    let mut acc: Vec<(i64, i64)> = Vec::new();
    let mut q: usize = p;
    loop
        invariant
            p <= q,
            pairs_until_zero(kv@, p as int) == (match pairs_until_zero(kv@, q as int) {
                Some((rest, e)) => Some((acc@ + rest, e)),
                None => None,
            }),
        decreases kv@.len() - q,
    {
        if q >= kv.len() {
            return None;
        }
        if kv[q] == 0 {
            assert(acc@ + Seq::<(i64, i64)>::empty() =~= acc@);
            return Some((acc, q + 1));
        }
        if q + 1 >= kv.len() {
            return None;
        }
        proof {
            if let Some((rest, e)) = pairs_until_zero(kv@, q + 2) {
                assert(acc@.push((kv@[q as int], kv@[q + 1])) + rest =~= acc@ + (seq![
                    (kv@[q as int], kv@[q + 1]),
                ] + rest));
            }
        }
        acc.push((kv[q], kv[q + 1]));
        q = q + 2;
    }
}

pub open spec fn nested_view(v: Seq<Vec<(i64, i64)>>) -> Seq<Seq<(i64, i64)>> {
    v.map_values(|x: Vec<(i64, i64)>| x@)
}

/// Splits the tag stream into the index pairs of each of `n` nodes.
pub fn split_node_tags(kv: &Vec<i64>, n: usize) -> (r: Option<Vec<Vec<(i64, i64)>>>)
    ensures
        match node_tags(kv@, n as nat) {
            Some(ts) => r is Some && nested_view(r->0@) == ts,
            None => r is None,
        },
{
    let mut acc: Vec<Vec<(i64, i64)>> = Vec::new();
    let mut i: usize = 0;
    if kv.len() == 0 {
        while i < n
            invariant
                i <= n,
                acc@.len() == i,
                forall|j: int| 0 <= j < i ==> (#[trigger] acc@[j])@ == Seq::<(i64, i64)>::empty(),
            decreases n - i,
        {
            let none: Vec<(i64, i64)> = Vec::new();
            acc.push(none);
            i = i + 1;
        }
        assert(nested_view(acc@) =~= Seq::new(n as nat, |j: int| Seq::<(i64, i64)>::empty()));
        return Some(acc);
    }
    let mut p: usize = 0;
    while i < n
        invariant
            i <= n,
            kv@.len() > 0,
            node_tags(kv@, n as nat) == (match tags_from(kv@, p as int, (n - i) as nat) {
                Some(rest) => Some(nested_view(acc@) + rest),
                None => None,
            }),
        decreases n - i,
    {
        match next_node_pairs(kv, p) {
            None => {
                return None;
            },
            Some((ps, e)) => {
                proof {
                    if let Some(rest) = tags_from(kv@, e as int, (n - i - 1) as nat) {
                        assert(nested_view(acc@.push(ps)) + rest =~= nested_view(acc@) + (seq![
                            ps@,
                        ] + rest));
                    }
                }
                acc.push(ps);
                p = e;
                i = i + 1;
            },
        }
    }
    assert(nested_view(acc@) + Seq::<Seq<(i64, i64)>>::empty() =~= nested_view(acc@));
    Some(acc)
}

/// The columns of a dense group after delta decoding: ids, coordinates and
/// the info columns hold absolute values; an info column is empty when the
/// group does not carry it.
pub struct DenseColsView {
    pub ids: Seq<i64>,
    pub lats: Seq<i64>,
    pub lons: Seq<i64>,
    pub versions: Seq<i64>,
    pub timestamps: Seq<i64>,
    pub changesets: Seq<i64>,
    pub uids: Seq<i64>,
    pub sids: Seq<i64>,
    pub visible: Seq<u64>,
    pub tags: Seq<Seq<(i64, i64)>>,
}

pub struct DenseCols {
    pub ids: Vec<i64>,
    pub lats: Vec<i64>,
    pub lons: Vec<i64>,
    pub versions: Vec<i64>,
    pub timestamps: Vec<i64>,
    pub changesets: Vec<i64>,
    pub uids: Vec<i64>,
    pub sids: Vec<i64>,
    pub visible: Vec<u64>,
    pub tags: Vec<Vec<(i64, i64)>>,
}

impl View for DenseCols {
    type V = DenseColsView;

    open spec fn view(&self) -> DenseColsView {
        DenseColsView {
            ids: self.ids@,
            lats: self.lats@,
            lons: self.lons@,
            versions: self.versions@,
            timestamps: self.timestamps@,
            changesets: self.changesets@,
            uids: self.uids@,
            sids: self.sids@,
            visible: self.visible@,
            tags: nested_view(self.tags@),
        }
    }
}

/// The raw info columns: version, timestamp, changeset, uid, user-name index, visible.
pub type InfoCols = (Seq<u64>, Seq<u64>, Seq<u64>, Seq<u64>, Seq<u64>, Seq<u64>);

/// The columns of the `DenseInfo` message at `info` within `m`; all empty
/// when there is none.
pub open spec fn info_columns(m: Seq<u8>, info: Option<(usize, usize)>) -> Option<InfoCols> {
    match info {
        None => Some(
            (Seq::empty(), Seq::empty(), Seq::empty(), Seq::empty(), Seq::empty(), Seq::empty()),
        ),
        Some((a, b)) => if !(a <= b <= m.len()) {
            None
        } else {
            let im = m.subrange(a as int, b as int);
            match fields_of(im) {
                None => None,
                Some(fs) => match (
                    column(im, fs, 1),
                    column(im, fs, 2),
                    column(im, fs, 3),
                    column(im, fs, 4),
                    column(im, fs, 5),
                    column(im, fs, 6),
                ) {
                    (Some(c1), Some(c2), Some(c3), Some(c4), Some(c5), Some(c6)) => Some(
                        (c1, c2, c3, c4, c5, c6),
                    ),
                    _ => None,
                },
            }
        },
    }
}

/// An info column is either absent or has one entry per node.
pub open spec fn fits(c: Seq<u64>, n: nat) -> bool {
    c.len() == 0 || c.len() == n
}

/// The decoded columns of the `DenseNodes` message `m`.
pub open spec fn dense_columns_spec(m: Seq<u8>) -> Result<DenseColsView, PbfError> {
    match fields_of(m) {
        None => Err(PbfError::Decode),
        Some(fs) => match (
            column(m, fs, 1),
            column(m, fs, 8),
            column(m, fs, 9),
            column(m, fs, 10),
            info_columns(m, last_bytes(fs, 5)),
        ) {
            (Some(ids), Some(lats), Some(lons), Some(kv), Some(info)) => {
                let n = ids.len();
                if !(lats.len() == n && lons.len() == n && fits(info.0, n) && fits(info.1, n)
                    && fits(info.2, n) && fits(info.3, n) && fits(info.4, n)) {
                    Err(PbfError::Decode)
                } else if !(sums_fit(zigzag_all(ids)) && sums_fit(zigzag_all(lats)) && sums_fit(
                    zigzag_all(lons),
                ) && sums_fit(zigzag_all(info.1)) && sums_fit(zigzag_all(info.2)) && sums_fit(
                    zigzag_all(info.3),
                ) && sums_fit(zigzag_all(info.4))) {
                    Err(PbfError::Range)
                } else {
                    match node_tags(twos_all(kv), n) {
                        None => Err(PbfError::Decode),
                        Some(tags) => Ok(
                            DenseColsView {
                                ids: running_sums(zigzag_all(ids)),
                                lats: running_sums(zigzag_all(lats)),
                                lons: running_sums(zigzag_all(lons)),
                                versions: twos_all(info.0),
                                timestamps: running_sums(zigzag_all(info.1)),
                                changesets: running_sums(zigzag_all(info.2)),
                                uids: running_sums(zigzag_all(info.3)),
                                sids: running_sums(zigzag_all(info.4)),
                                visible: info.5,
                                tags,
                            },
                        ),
                    }
                }
            },
            _ => Err(PbfError::Decode),
        },
    }
}

fn get_info_columns(m: &[u8], info: Option<(usize, usize)>) -> (r: Option<
    (Vec<u64>, Vec<u64>, Vec<u64>, Vec<u64>, Vec<u64>, Vec<u64>),
>)
    ensures
        match info_columns(m@, info) {
            Some(c) => r matches Some((c1, c2, c3, c4, c5, c6)) && c == (
                c1@,
                c2@,
                c3@,
                c4@,
                c5@,
                c6@,
            ),
            None => r is None,
        },
{
    match info {
        None => Some((Vec::new(), Vec::new(), Vec::new(), Vec::new(), Vec::new(), Vec::new())),
        Some((a, b)) => {
            if !(a <= b && b <= m.len()) {
                return None;
            }
            let im = slice_subrange(m, a, b);
            let fs = match parse_fields(im) {
                None => {
                    return None;
                },
                Some(fs) => fs,
            };
            match (
                get_column(im, &fs, 1),
                get_column(im, &fs, 2),
                get_column(im, &fs, 3),
                get_column(im, &fs, 4),
                get_column(im, &fs, 5),
                get_column(im, &fs, 6),
            ) {
                (Some(c1), Some(c2), Some(c3), Some(c4), Some(c5), Some(c6)) => Some(
                    (c1, c2, c3, c4, c5, c6),
                ),
                _ => None,
            }
        },
    }
}

fn delta_of(c: &Vec<u64>) -> (r: Option<Vec<i64>>)
    ensures
        r is Some <==> sums_fit(zigzag_all(c@)),
        r matches Some(a) ==> a@ == running_sums(zigzag_all(c@)),
{
    delta_decode(&unzigzag_column(c))
}

/// Parses a `DenseNodes` message and delta-decodes its columns.
pub fn dense_columns(m: &[u8]) -> (r: Result<DenseCols, PbfError>)
    ensures
        match dense_columns_spec(m@) {
            Ok(v) => r is Ok && r->Ok_0@ == v,
            Err(e) => r == Err::<DenseCols, PbfError>(e),
        },
{
    let fs = match parse_fields(m) {
        None => {
            return Err(PbfError::Decode);
        },
        Some(fs) => fs,
    };
    let (ids, lats, lons, kv, info) = match (
        get_column(m, &fs, 1),
        get_column(m, &fs, 8),
        get_column(m, &fs, 9),
        get_column(m, &fs, 10),
        get_info_columns(m, get_bytes(&fs, 5)),
    ) {
        (Some(ids), Some(lats), Some(lons), Some(kv), Some(info)) => (ids, lats, lons, kv, info),
        _ => {
            return Err(PbfError::Decode);
        },
    };
    let (c1, c2, c3, c4, c5, c6) = info;
    let n = ids.len();
    if !(lats.len() == n && lons.len() == n && (c1.len() == 0 || c1.len() == n) && (c2.len() == 0
        || c2.len() == n) && (c3.len() == 0 || c3.len() == n) && (c4.len() == 0 || c4.len() == n)
        && (c5.len() == 0 || c5.len() == n)) {
        return Err(PbfError::Decode);
    }
    let (ids, lats, lons, timestamps, changesets, uids, sids) = match (
        delta_of(&ids),
        delta_of(&lats),
        delta_of(&lons),
        delta_of(&c2),
        delta_of(&c3),
        delta_of(&c4),
        delta_of(&c5),
    ) {
        (Some(a), Some(b), Some(c), Some(d), Some(e), Some(f), Some(g)) => (a, b, c, d, e, f, g),
        _ => {
            return Err(PbfError::Range);
        },
    };
    let tags = match split_node_tags(&signed_column(&kv), n) {
        None => {
            return Err(PbfError::Decode);
        },
        Some(t) => t,
    };
    Ok(
        DenseCols {
            ids,
            lats,
            lons,
            versions: signed_column(&c1),
            timestamps,
            changesets,
            uids,
            sids,
            visible: c6,
            tags,
        },
    )
}

/// Whether the columns line up for `n` nodes.
pub open spec fn cols_wf(c: DenseColsView) -> bool {
    let n = c.ids.len();
    &&& c.lats.len() == n
    &&& c.lons.len() == n
    &&& c.tags.len() == n
    &&& (c.versions.len() == 0 || c.versions.len() == n)
    &&& (c.timestamps.len() == 0 || c.timestamps.len() == n)
    &&& (c.changesets.len() == 0 || c.changesets.len() == n)
    &&& (c.uids.len() == 0 || c.uids.len() == n)
    &&& (c.sids.len() == 0 || c.sids.len() == n)
}

pub open spec fn opt_at(c: Seq<i64>, i: int) -> Option<i64> {
    if c.len() == 0 {
        None
    } else {
        Some(c[i])
    }
}

/// Node `i` of a dense group.
pub open spec fn dense_node_spec(t: TableView, p: BlockParams, c: DenseColsView, i: int) -> Result<
    EntityView,
    PbfError,
> {
    match (
        scaled(p.lat_offset, p.granularity, c.lats[i]),
        scaled(p.lon_offset, p.granularity, c.lons[i]),
    ) {
        (Some(lat), Some(lon)) => if c.uids.len() > 0 && !uid_in_range(c.uids[i] as int) {
            Err(PbfError::Range)
        } else if c.sids.len() > 0 && resolve_in(t, c.sids[i] as int) is None {
            Err(PbfError::Encoding)
        } else if c.timestamps.len() > 0 && scaled(0, p.date_granularity, c.timestamps[i]) is None {
            Err(PbfError::Range)
        } else {
            Ok(
                EntityView::Node {
                    id: c.ids[i],
                    tags: resolve_pairs(t, c.tags[i]),
                    lat_lon: Some((lat, lon)),
                    meta: MetadataView {
                        changeset_id: opt_at(c.changesets, i),
                        uid: opt_at(c.uids, i),
                        user: if c.sids.len() == 0 {
                            None
                        } else {
                            resolve_in(t, c.sids[i] as int)
                        },
                        version: opt_at(c.versions, i),
                        timestamp: if c.timestamps.len() == 0 {
                            None
                        } else {
                            scaled(0, p.date_granularity, c.timestamps[i])
                        },
                        deleted: i < c.visible.len() && c.visible[i] == 0,
                    },
                },
            )
        },
        _ => Err(PbfError::Range),
    }
}

/// The first `k` nodes of a dense group, or the first error among them.
pub open spec fn dense_nodes_upto(t: TableView, p: BlockParams, c: DenseColsView, k: int) -> Result<
    Seq<EntityView>,
    PbfError,
>
    decreases k,
{
    if k <= 0 {
        Ok(Seq::empty())
    } else {
        match dense_nodes_upto(t, p, c, k - 1) {
            Err(e) => Err(e),
            Ok(front) => match dense_node_spec(t, p, c, k - 1) {
                Err(e) => Err(e),
                Ok(x) => Ok(front.push(x)),
            },
        }
    }
}

/// The nodes of the `DenseNodes` message `m`.
pub open spec fn dense_spec(t: TableView, p: BlockParams, m: Seq<u8>) -> Result<
    Seq<EntityView>,
    PbfError,
> {
    match dense_columns_spec(m) {
        Err(e) => Err(e),
        Ok(c) => dense_nodes_upto(t, p, c, c.ids.len() as int),
    }
}

fn col_at(c: &Vec<i64>, i: usize) -> (r: Option<i64>)
    requires
        c@.len() == 0 || i < c@.len(),
    ensures
        r == opt_at(c@, i as int),
{
    if c.len() == 0 {
        None
    } else {
        Some(c[i])
    }
}

/// Builds node `i` of a dense group from its decoded columns.
pub fn dense_node(t: &StringTable, p: BlockParams, c: &DenseCols, i: usize) -> (r: Result<
    Entity,
    PbfError,
>)
    requires
        cols_wf(c@),
        i < c@.ids.len(),
    ensures
        match dense_node_spec(t@, p, c@, i as int) {
            Ok(v) => r is Ok && r->Ok_0@ == v,
            Err(e) => r == Err::<Entity, PbfError>(e),
        },
{
    let (lat, lon) = match (
        scale(p.lat_offset, p.granularity, c.lats[i]),
        scale(p.lon_offset, p.granularity, c.lons[i]),
    ) {
        (Some(lat), Some(lon)) => (lat, lon),
        _ => {
            return Err(PbfError::Range);
        },
    };
    let uid = col_at(&c.uids, i);
    if let Some(u) = uid {
        if u < 0 || u > 0x7fff_ffff {
            return Err(PbfError::Range);
        }
    }
    let user = if c.sids.len() == 0 {
        None
    } else {
        match t.get(c.sids[i]) {
            Some(u) => Some(u.clone()),
            None => {
                return Err(PbfError::Encoding);
            },
        }
    };
    let timestamp = if c.timestamps.len() == 0 {
        None
    } else {
        match scale(0, p.date_granularity, c.timestamps[i]) {
            Some(x) => Some(x),
            None => {
                return Err(PbfError::Range);
            },
        }
    };
    let deleted = i < c.visible.len() && c.visible[i] == 0;
    let tags = resolve_tags(t, &c.tags[i]);
    Ok(
        Entity::Node(
            Node {
                id: c.ids[i],
                tags,
                lat_lon: Some((lat, lon)),
                meta: Metadata {
                    changeset_id: col_at(&c.changesets, i),
                    uid,
                    user,
                    version: col_at(&c.versions, i),
                    timestamp,
                    deleted,
                },
            },
        ),
    )
}

/// Decodes the nodes of a `DenseNodes` message: every column is delta-decoded
/// from accumulators that start at zero in this group, coordinates are scaled
/// to nanodegrees and timestamps to seconds, and tags come from the
/// zero-terminated stream.
pub fn decode_dense(t: &StringTable, p: BlockParams, m: &[u8]) -> (r: Result<Vec<Entity>, PbfError>)
    ensures
        match dense_spec(t@, p, m@) {
            Ok(v) => r matches Ok(es) && es@.map_values(|e: Entity| e@) == v,
            Err(e) => r == Err::<Vec<Entity>, PbfError>(e),
        },
{
    let c = match dense_columns(m) {
        Err(e) => {
            return Err(e);
        },
        Ok(c) => c,
    };
    proof {
        lemma_columns_wf(m@);
    }
    let mut out: Vec<Entity> = Vec::new();
    assert(out@.map_values(|e: Entity| e@) =~= Seq::<EntityView>::empty());
    let mut i: usize = 0;
    while i < c.ids.len()
        invariant
            i <= c@.ids.len(),
            cols_wf(c@),
            dense_columns_spec(m@) == Ok::<DenseColsView, PbfError>(c@),
            dense_nodes_upto(t@, p, c@, i as int) == Ok::<Seq<EntityView>, PbfError>(
                out@.map_values(|e: Entity| e@),
            ),
        decreases c@.ids.len() - i,
    {
        match dense_node(t, p, &c, i) {
            Err(e) => {
                proof {
                    lemma_dense_err_stays(t@, p, c@, i + 1, c@.ids.len() as int);
                }
                return Err(e);
            },
            Ok(x) => {
                out.push(x);
                assert(out@.map_values(|e: Entity| e@) =~= dense_nodes_upto(
                    t@,
                    p,
                    c@,
                    i as int,
                )->Ok_0.push(x@));
                i = i + 1;
            },
        }
    }
    Ok(out)
}

proof fn lemma_tags_from_len(kv: Seq<i64>, p: int, n: nat)
    ensures
        tags_from(kv, p, n) matches Some(ts) ==> ts.len() == n,
    decreases n,
{
    if n > 0 {
        if let Some((ps, e)) = pairs_until_zero(kv, p) {
            lemma_tags_from_len(kv, e, (n - 1) as nat);
        }
    }
}

proof fn lemma_columns_wf(m: Seq<u8>)
    ensures
        dense_columns_spec(m) matches Ok(c) ==> cols_wf(c),
{
    if let Some(fs) = fields_of(m) {
        if let Some(kv) = column(m, fs, 10) {
            if let Some(ids) = column(m, fs, 1) {
                lemma_tags_from_len(twos_all(kv), 0, ids.len());
            }
        }
    }
}

proof fn lemma_dense_err_stays(t: TableView, p: BlockParams, c: DenseColsView, k: int, n: int)
    requires
        0 <= k <= n,
        dense_nodes_upto(t, p, c, k) is Err,
    ensures
        dense_nodes_upto(t, p, c, n) == dense_nodes_upto(t, p, c, k),
    decreases n - k,
{
    if k < n {
        lemma_dense_err_stays(t, p, c, k + 1, n);
    }
}

proof fn lemma_nodes_upto_ids(t: TableView, p: BlockParams, c: DenseColsView, k: int)
    requires
        0 <= k,
    ensures
        dense_nodes_upto(t, p, c, k) matches Ok(v) ==> v.len() == k && forall|i: int|
            0 <= i < k ==> (#[trigger] v[i] matches EntityView::Node { id, .. } && id == c.ids[i]),
    decreases k,
{
    if k > 0 {
        lemma_nodes_upto_ids(t, p, c, k - 1);
    }
}

/// The ids of the nodes of a dense group are the running sums of its id
/// column, the accumulator starting at zero: `id[i] = d[0] + ... + d[i]`.
pub proof fn lemma_dense_ids_are_running_sums(t: TableView, p: BlockParams, m: Seq<u8>)
    ensures
        dense_spec(t, p, m) matches Ok(v) ==> (fields_of(m) matches Some(fs) && column(m, fs, 1) matches Some(
            d,
        ) && v.len() == d.len() && forall|i: int|
            0 <= i < v.len() ==> (#[trigger] v[i] matches EntityView::Node { id, .. } && id
                == prefix_sum(zigzag_all(d), i + 1))),
{
    if let Ok(c) = dense_columns_spec(m) {
        lemma_nodes_upto_ids(t, p, c, c.ids.len() as int);
    }
}

} // verus!
