//! Primitive blocks: parameters, string table and groups, and the dispatch of
//! each group to its decoder.
use vstd::prelude::*;
use vstd::slice::slice_subrange;
use crate::decode::{decode_node, decode_relation, decode_way, node_spec, relation_spec, way_spec};
use crate::dense::{decode_dense, dense_spec, BlockParams};
use crate::model::{Entity, EntityView, PbfError};
use crate::strings::{raw_strings, table_spec, StringTable, TableView};
use crate::wire::{
    all_bytes, decode_twos, fields_of, get_all_bytes, get_bytes, get_varint, last_bytes,
    last_varint, parse_fields, twos, Field,
};

verus! {

/// Which of its four variants a group carries.
#[derive(Debug, Clone, Copy, PartialEq, Eq, Structural)]
pub enum GroupKind {
    PlainNodes,
    DenseNodes,
    Ways,
    Relations,
}

/// The variant of a group with fields `fs`, in fixed priority order: plain
/// nodes, dense nodes, ways, relations. A group with none is malformed.
pub open spec fn classify_spec(fs: Seq<Field>) -> Result<GroupKind, PbfError> {
    if all_bytes(fs, 1).len() > 0 {
        Ok(GroupKind::PlainNodes)
    } else if last_bytes(fs, 2) is Some {
        Ok(GroupKind::DenseNodes)
    } else if all_bytes(fs, 3).len() > 0 {
        Ok(GroupKind::Ways)
    } else if all_bytes(fs, 4).len() > 0 {
        Ok(GroupKind::Relations)
    } else {
        Err(PbfError::Format)
    }
}

fn classify(fs: &Vec<Field>) -> (r: Result<GroupKind, PbfError>)
    ensures
        r == classify_spec(fs@),
{
    if get_all_bytes(fs, 1).len() > 0 {
        Ok(GroupKind::PlainNodes)
    } else if get_bytes(fs, 2).is_some() {
        Ok(GroupKind::DenseNodes)
    } else if get_all_bytes(fs, 3).len() > 0 {
        Ok(GroupKind::Ways)
    } else if get_all_bytes(fs, 4).len() > 0 {
        Ok(GroupKind::Relations)
    } else {
        Err(PbfError::Format)
    }
}

/// The variant of the `PrimitiveGroup` message `m`.
pub fn classify_group(m: &[u8]) -> (r: Result<GroupKind, PbfError>)
    ensures
        match fields_of(m@) {
            None => r == Err::<GroupKind, PbfError>(PbfError::Decode),
            Some(fs) => r == classify_spec(fs),
        },
{
    match parse_fields(m) {
        None => Err(PbfError::Decode),
        Some(fs) => classify(&fs),
    }
}

/// A group that carries plain nodes goes to the plain-node decoder, whatever
/// else it carries.
pub proof fn lemma_plain_nodes_first(fs: Seq<Field>)
    requires
        all_bytes(fs, 1).len() > 0,
    ensures
        classify_spec(fs) == Ok::<GroupKind, PbfError>(GroupKind::PlainNodes),
{
}

/// A group that carries none of the four variants is a format error, not an
/// empty list of entities.
pub proof fn lemma_empty_group_is_format_error(fs: Seq<Field>)
    requires
        all_bytes(fs, 1).len() == 0,
        last_bytes(fs, 2) is None,
        all_bytes(fs, 3).len() == 0,
        all_bytes(fs, 4).len() == 0,
    ensures
        classify_spec(fs) == Err::<GroupKind, PbfError>(PbfError::Format),
{
}

/// One entity of a message list of the given kind.
pub open spec fn entity_spec(k: GroupKind, t: TableView, p: BlockParams, m: Seq<u8>) -> Result<
    EntityView,
    PbfError,
> {
    match k {
        GroupKind::PlainNodes => node_spec(t, p, m),
        GroupKind::Ways => way_spec(t, m),
        GroupKind::Relations => relation_spec(t, m),
        GroupKind::DenseNodes => Err(PbfError::Decode),
    }
}

/// The entities of the first `n` messages at `ranges` within `m`, or the first error.
pub open spec fn list_upto(
    k: GroupKind,
    t: TableView,
    p: BlockParams,
    m: Seq<u8>,
    ranges: Seq<(usize, usize)>,
    n: int,
) -> Result<Seq<EntityView>, PbfError>
    decreases n,
{
    if n <= 0 {
        Ok(Seq::empty())
    } else {
        match list_upto(k, t, p, m, ranges, n - 1) {
            Err(e) => Err(e),
            Ok(front) => {
                let (a, b) = ranges[n - 1];
                if !(a <= b <= m.len()) {
                    Err(PbfError::Decode)
                } else {
                    match entity_spec(k, t, p, m.subrange(a as int, b as int)) {
                        Err(e) => Err(e),
                        Ok(x) => Ok(front.push(x)),
                    }
                }
            },
        }
    }
}

pub open spec fn list_field(k: GroupKind) -> u64 {
    match k {
        GroupKind::PlainNodes => 1,
        GroupKind::DenseNodes => 2,
        GroupKind::Ways => 3,
        GroupKind::Relations => 4,
    }
}

/// The entities of the `PrimitiveGroup` message `m`, in the order its decoder produces them.
#[verifier::opaque]
pub open spec fn group_spec(t: TableView, p: BlockParams, m: Seq<u8>) -> Result<
    Seq<EntityView>,
    PbfError,
> {
    match fields_of(m) {
        None => Err(PbfError::Decode),
        Some(fs) => match classify_spec(fs) {
            Err(e) => Err(e),
            Ok(k) => if k == GroupKind::DenseNodes {
                let (a, b) = last_bytes(fs, 2)->0;
                if !(a <= b <= m.len()) {
                    Err(PbfError::Decode)
                } else {
                    dense_spec(t, p, m.subrange(a as int, b as int))
                }
            } else {
                let ranges = all_bytes(fs, list_field(k));
                list_upto(k, t, p, m, ranges, ranges.len() as int)
            },
        },
    }
}

pub open spec fn views(v: Seq<Entity>) -> Seq<EntityView> {
    v.map_values(|e: Entity| e@)
}

proof fn lemma_list_err_stays(
    k: GroupKind,
    t: TableView,
    p: BlockParams,
    m: Seq<u8>,
    ranges: Seq<(usize, usize)>,
    i: int,
    n: int,
)
    requires
        0 <= i <= n,
        list_upto(k, t, p, m, ranges, i) is Err,
    ensures
        list_upto(k, t, p, m, ranges, n) == list_upto(k, t, p, m, ranges, i),
    decreases n - i,
{
    if i < n {
        lemma_list_err_stays(k, t, p, m, ranges, i + 1, n);
    }
}

fn decode_list(k: GroupKind, t: &StringTable, p: BlockParams, m: &[u8], ranges: &Vec<(usize, usize)>) -> (r: Result<
    Vec<Entity>,
    PbfError,
>)
    requires
        k != GroupKind::DenseNodes,
    ensures
        match list_upto(k, t@, p, m@, ranges@, ranges@.len() as int) {
            Ok(v) => r matches Ok(es) && views(es@) == v,
            Err(e) => r == Err::<Vec<Entity>, PbfError>(e),
        },
{
    let mut out: Vec<Entity> = Vec::new();
    assert(views(out@) =~= Seq::<EntityView>::empty());
    let mut i: usize = 0;
    while i < ranges.len()
        invariant
            i <= ranges@.len(),
            k != GroupKind::DenseNodes,
            list_upto(k, t@, p, m@, ranges@, i as int) == Ok::<Seq<EntityView>, PbfError>(
                views(out@),
            ),
        decreases ranges@.len() - i,
    {
        let (a, b) = ranges[i];
        if !(a <= b && b <= m.len()) {
            proof {
                lemma_list_err_stays(k, t@, p, m@, ranges@, i + 1, ranges@.len() as int);
            }
            return Err(PbfError::Decode);
        }
        let sub = slice_subrange(m, a, b);
        let x = match k {
            GroupKind::PlainNodes => decode_node(t, p, sub),
            GroupKind::Ways => decode_way(t, sub),
            _ => decode_relation(t, sub),
        };
        match x {
            Err(e) => {
                proof {
                    lemma_list_err_stays(k, t@, p, m@, ranges@, i + 1, ranges@.len() as int);
                }
                return Err(e);
            },
            Ok(x) => {
                out.push(x);
                assert(views(out@) =~= list_upto(k, t@, p, m@, ranges@, i as int)->Ok_0.push(x@));
                i = i + 1;
            },
        }
    }
    Ok(out)
}

/// Decodes one `PrimitiveGroup` message with the decoder that its variant selects.
pub fn decode_group(t: &StringTable, p: BlockParams, m: &[u8]) -> (r: Result<Vec<Entity>, PbfError>)
    ensures
        match group_spec(t@, p, m@) {
            Ok(v) => r matches Ok(es) && views(es@) == v,
            Err(e) => r == Err::<Vec<Entity>, PbfError>(e),
        },
{
    reveal(group_spec);
    let fs = match parse_fields(m) {
        None => {
            return Err(PbfError::Decode);
        },
        Some(fs) => fs,
    };
    let k = match classify(&fs) {
        Err(e) => {
            return Err(e);
        },
        Ok(k) => k,
    };
    match k {
        GroupKind::DenseNodes => {
            let (a, b) = match get_bytes(&fs, 2) {
                Some(r) => r,
                None => {
                    return Err(PbfError::Decode);
                },
            };
            if !(a <= b && b <= m.len()) {
                return Err(PbfError::Decode);
            }
            decode_dense(t, p, slice_subrange(m, a, b))
        },
        GroupKind::PlainNodes => decode_list(k, t, p, m, &get_all_bytes(&fs, 1)),
        GroupKind::Ways => decode_list(k, t, p, m, &get_all_bytes(&fs, 3)),
        GroupKind::Relations => decode_list(k, t, p, m, &get_all_bytes(&fs, 4)),
    }
}

/// The varint field `n`, or `d` when the message does not carry it.
pub open spec fn varint_or(fs: Seq<Field>, n: u64, d: u64) -> u64 {
    match last_varint(fs, n) {
        Some(v) => v,
        None => d,
    }
}

/// Milliseconds to seconds, rounding toward zero as integer division does.
pub open spec fn ms_to_s(ms: int) -> int {
    if ms >= 0 {
        ms / 1000
    } else {
        -((-ms) / 1000)
    }
}

/// The scaling parameters of a block, with the format's defaults: a
/// granularity of 100, offsets of 0 and a date granularity of 1000 ms.
pub open spec fn params_spec(fs: Seq<Field>) -> BlockParams {
    BlockParams {
        granularity: twos(varint_or(fs, 17, 100)) as i64,
        lat_offset: twos(varint_or(fs, 19, 0)) as i64,
        lon_offset: twos(varint_or(fs, 20, 0)) as i64,
        date_granularity: ms_to_s(twos(varint_or(fs, 18, 1000))) as i64,
    }
}

fn varint_field_or(fs: &Vec<Field>, n: u64, d: u64) -> (r: u64)
    ensures
        r == varint_or(fs@, n, d),
{
    match get_varint(fs, n) {
        Some(v) => v,
        None => d,
    }
}

fn millis_to_secs(ms: i64) -> (r: i64)
    ensures
        r == ms_to_s(ms as int),
{
    if ms >= 0 {
        ((ms as u64) / 1000) as i64
    } else {
        let m: u64 = ((-(ms + 1)) as u64) + 1;
        -(((m / 1000) as i64))
    }
}

fn block_params(fs: &Vec<Field>) -> (r: BlockParams)
    ensures
        r == params_spec(fs@),
{
    BlockParams {
        granularity: decode_twos(varint_field_or(fs, 17, 100)),
        lat_offset: decode_twos(varint_field_or(fs, 19, 0)),
        lon_offset: decode_twos(varint_field_or(fs, 20, 0)),
        date_granularity: millis_to_secs(decode_twos(varint_field_or(fs, 18, 1000))),
    }
}

pub open spec fn ranges_within(ranges: Seq<(usize, usize)>, len: int) -> bool {
    forall|i: int| 0 <= i < ranges.len() ==> #[trigger] ranges[i].0 <= ranges[i].1 <= len
}

/// The raw strings of the `StringTable` message at `st` within `s`; none when
/// the block has no table.
pub open spec fn table_raw(s: Seq<u8>, st: Option<(usize, usize)>) -> Option<Seq<Seq<u8>>> {
    match st {
        None => Some(Seq::empty()),
        Some((a, b)) => if !(a <= b <= s.len()) {
            None
        } else {
            let sub = s.subrange(a as int, b as int);
            match fields_of(sub) {
                None => None,
                Some(sfs) => if ranges_within(all_bytes(sfs, 1), sub.len() as int) {
                    Some(raw_strings(sub, all_bytes(sfs, 1)))
                } else {
                    None
                },
            }
        },
    }
}

/// The entities of the first `n` groups at `ranges` within `s`, in order, or
/// the first error.
pub open spec fn groups_upto(
    t: TableView,
    p: BlockParams,
    s: Seq<u8>,
    ranges: Seq<(usize, usize)>,
    n: int,
) -> Result<Seq<EntityView>, PbfError>
    decreases n,
{
    if n <= 0 {
        Ok(Seq::empty())
    } else {
        match groups_upto(t, p, s, ranges, n - 1) {
            Err(e) => Err(e),
            Ok(front) => {
                let (a, b) = ranges[n - 1];
                if !(a <= b <= s.len()) {
                    Err(PbfError::Decode)
                } else {
                    match group_spec(t, p, s.subrange(a as int, b as int)) {
                        Err(e) => Err(e),
                        Ok(x) => Ok(front + x),
                    }
                }
            },
        }
    }
}

/// The entities of the `PrimitiveBlock` message `s`: the groups in block
/// order, each decoded against the block's string table and parameters.
#[verifier::opaque]
pub open spec fn block_spec(s: Seq<u8>) -> Result<Seq<EntityView>, PbfError> {
    match fields_of(s) {
        None => Err(PbfError::Decode),
        Some(fs) => match table_raw(s, last_bytes(fs, 1)) {
            None => Err(PbfError::Decode),
            Some(raw) => {
                let groups = all_bytes(fs, 2);
                groups_upto(table_spec(raw), params_spec(fs), s, groups, groups.len() as int)
            },
        },
    }
}

fn build_table(s: &[u8], st: Option<(usize, usize)>) -> (r: Option<StringTable>)
    ensures
        match table_raw(s@, st) {
            Some(raw) => r matches Some(t) && t@ == table_spec(raw),
            None => r is None,
        },
{
    match st {
        None => {
            let none: Vec<(usize, usize)> = Vec::new();
            let t = StringTable::from_ranges(s, &none);
            assert(raw_strings(s@, none@) =~= Seq::<Seq<u8>>::empty());
            Some(t)
        },
        Some((a, b)) => {
            if !(a <= b && b <= s.len()) {
                return None;
            }
            let sub = slice_subrange(s, a, b);
            let sfs = match parse_fields(sub) {
                None => {
                    return None;
                },
                Some(f) => f,
            };
            let ranges = get_all_bytes(&sfs, 1);
            let mut i: usize = 0;
            while i < ranges.len()
                invariant
                    i <= ranges@.len(),
                    ranges@ == all_bytes(sfs@, 1),
                    st == Some((a, b)),
                    a <= b <= s@.len(),
                    sub@ == s@.subrange(a as int, b as int),
                    fields_of(sub@) == Some(sfs@),
                    forall|j: int| 0 <= j < i ==> #[trigger] ranges@[j].0 <= ranges@[j].1 <= sub@.len(),
                decreases ranges@.len() - i,
            {
                let (x, y) = ranges[i];
                if !(x <= y && y <= sub.len()) {
                    assert(!(ranges@[i as int].0 <= ranges@[i as int].1 <= sub@.len()));
                    return None;
                }
                i = i + 1;
            }
            Some(StringTable::from_ranges(sub, &ranges))
        },
    }
}

proof fn lemma_groups_err_stays(
    t: TableView,
    p: BlockParams,
    s: Seq<u8>,
    ranges: Seq<(usize, usize)>,
    i: int,
    n: int,
)
    requires
        0 <= i <= n,
        groups_upto(t, p, s, ranges, i) is Err,
    ensures
        groups_upto(t, p, s, ranges, n) == groups_upto(t, p, s, ranges, i),
    decreases n - i,
{
    if i < n {
        lemma_groups_err_stays(t, p, s, ranges, i + 1, n);
    }
}

/// Decodes a `PrimitiveBlock`: its string table, its parameters and then
/// every group, in order, into one batch.
pub fn decode_block(s: &[u8]) -> (r: Result<Vec<Entity>, PbfError>)
    ensures
        match block_spec(s@) {
            Ok(v) => r matches Ok(es) && views(es@) == v,
            Err(e) => r == Err::<Vec<Entity>, PbfError>(e),
        },
{
    reveal(block_spec);
    let fs = match parse_fields(s) {
        None => {
            return Err(PbfError::Decode);
        },
        Some(fs) => fs,
    };
    let t = match build_table(s, get_bytes(&fs, 1)) {
        None => {
            return Err(PbfError::Decode);
        },
        Some(t) => t,
    };
    let p = block_params(&fs);
    let groups = get_all_bytes(&fs, 2);
    assert(block_spec(s@) == groups_upto(t@, p, s@, groups@, groups@.len() as int));
    let mut out: Vec<Entity> = Vec::new();
    assert(views(out@) =~= Seq::<EntityView>::empty());
    let mut i: usize = 0;
    while i < groups.len()
        invariant
            i <= groups@.len(),
            groups@ == all_bytes(fs@, 2),
            block_spec(s@) == groups_upto(t@, p, s@, groups@, groups@.len() as int),
            groups_upto(t@, p, s@, groups@, i as int) == Ok::<Seq<EntityView>, PbfError>(
                views(out@),
            ),
        decreases groups@.len() - i,
    {
        let (a, b) = groups[i];
        if !(a <= b && b <= s.len()) {
            proof {
                lemma_groups_err_stays(t@, p, s@, groups@, i + 1, groups@.len() as int);
            }
            return Err(PbfError::Decode);
        }
        match decode_group(&t, p, slice_subrange(s, a, b)) {
            Err(e) => {
                proof {
                    lemma_groups_err_stays(t@, p, s@, groups@, i + 1, groups@.len() as int);
                }
                return Err(e);
            },
            Ok(es) => {
                let mut es = es;
                let ghost before = out@;
                let ghost added = es@;
                out.append(&mut es);
                assert(views(out@) =~= views(before) + views(added));
                i = i + 1;
            },
        }
    }
    Ok(out)
}

} // verus!
