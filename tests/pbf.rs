use osmio::{
    classify_group, decode_block, decode_dense, decode_relation, decode_way, delta_decode,
    extract, read_varint, scale, split_node_tags, BlockParams, Entity, GroupKind, ObjType,
    PbfError, PbfReader, StringTable,
};
use osmio::{frame_length, read_header, Action, PbfStream};
use std::io::Write;

fn varint(mut v: u64) -> Vec<u8> {
    let mut out = Vec::new();
    loop {
        let b = (v & 0x7f) as u8;
        v >>= 7;
        if v == 0 {
            out.push(b);
            return out;
        }
        out.push(b | 0x80);
    }
}

fn zz(v: i64) -> u64 {
    ((v << 1) ^ (v >> 63)) as u64
}

fn f_varint(n: u64, v: u64) -> Vec<u8> {
    let mut out = varint(n << 3);
    out.extend(varint(v));
    out
}

fn f_bytes(n: u64, b: &[u8]) -> Vec<u8> {
    let mut out = varint((n << 3) | 2);
    out.extend(varint(b.len() as u64));
    out.extend_from_slice(b);
    out
}

fn packed_sint(n: u64, vs: &[i64]) -> Vec<u8> {
    let mut body = Vec::new();
    for &v in vs {
        body.extend(varint(zz(v)));
    }
    f_bytes(n, &body)
}

fn packed_int(n: u64, vs: &[i64]) -> Vec<u8> {
    let mut body = Vec::new();
    for &v in vs {
        body.extend(varint(v as u64));
    }
    f_bytes(n, &body)
}

fn cat(parts: &[Vec<u8>]) -> Vec<u8> {
    parts.concat()
}

fn string_table(strings: &[&[u8]]) -> Vec<u8> {
    cat(&strings.iter().map(|s| f_bytes(1, s)).collect::<Vec<_>>())
}

fn table_of(strings: &[&[u8]]) -> StringTable {
    let mut bytes = Vec::new();
    let mut ranges = Vec::new();
    for s in strings {
        let a = bytes.len();
        bytes.extend_from_slice(s);
        ranges.push((a, bytes.len()));
    }
    StringTable::from_ranges(&bytes, &ranges)
}

fn params() -> BlockParams {
    BlockParams { granularity: 100, lat_offset: 0, lon_offset: 0, date_granularity: 1 }
}

fn dense_group(ids: &[i64]) -> Vec<u8> {
    let zeros = vec![0i64; ids.len()];
    let dense = cat(&[packed_sint(1, ids), packed_sint(8, &zeros), packed_sint(9, &zeros)]);
    f_bytes(2, &dense)
}

fn block(groups: &[Vec<u8>]) -> Vec<u8> {
    let mut parts = vec![f_bytes(1, &string_table(&[b"", b"k"]))];
    for g in groups {
        parts.push(f_bytes(2, g));
    }
    cat(&parts)
}

fn frame(kind: &[u8], blob: &[u8]) -> Vec<u8> {
    let header = cat(&[f_bytes(1, kind), f_varint(3, blob.len() as u64)]);
    let mut out = (header.len() as u32).to_be_bytes().to_vec();
    out.extend(header);
    out.extend_from_slice(blob);
    out
}

fn raw_blob(payload: &[u8]) -> Vec<u8> {
    f_bytes(1, payload)
}

fn node_id(e: &Entity) -> i64 {
    match e {
        Entity::Node(n) => n.id,
        _ => panic!("not a node"),
    }
}

#[test]
fn delta_decoding_is_a_running_sum() {
    assert_eq!(delta_decode(&vec![5, 3, -1]), Some(vec![5, 8, 7]));
    assert_eq!(delta_decode(&vec![]), Some(vec![]));
    assert_eq!(delta_decode(&vec![i64::MAX, 1]), None);
    assert_eq!(delta_decode(&vec![i64::MIN, -1]), None);
}

#[test]
fn coordinate_scaling_to_nanodegrees() {
    let lat = scale(0, 100, 1).unwrap();
    assert_eq!(lat, 100);
    let degrees = lat as f64 * 1e-9;
    assert!((degrees - 1e-7).abs() < 1e-15);
    assert_eq!(scale(5, 100, -2), Some(-195));
    assert_eq!(scale(0, i64::MAX, 2), None);
}

#[test]
fn string_table_index_zero_is_empty() {
    let t = table_of(&[b"\xff\xfe", b"ok", b"\xc3"]);
    assert_eq!(t.get(0).map(|s| s.as_str()), Some(""));
    assert_eq!(t.get(1).map(|s| s.as_str()), Some("ok"));
    assert_eq!(t.get(2), None);
    assert_eq!(t.get(3), None);
    assert_eq!(t.get(-1), None);
    let empty = table_of(&[]);
    assert_eq!(empty.get(0).map(|s| s.as_str()), Some(""));
}

#[test]
fn dense_tag_stream_splits_at_zeros() {
    let split = split_node_tags(&vec![1, 2, 0, 3, 4, 0], 2).unwrap();
    assert_eq!(split, vec![vec![(1, 2)], vec![(3, 4)]]);
    assert_eq!(split_node_tags(&vec![1, 2], 1), None);
    assert_eq!(split_node_tags(&vec![1], 1), None);
    assert_eq!(split_node_tags(&vec![], 3), Some(vec![vec![], vec![], vec![]]));
}

#[test]
fn dense_nodes_resolve_tags() {
    let t = table_of(&[b"", b"key1", b"val2", b"key3", b"val4"]);
    let dense = cat(&[
        packed_sint(1, &[10, 1]),
        packed_sint(8, &[1, 1]),
        packed_sint(9, &[-1, 0]),
        packed_int(10, &[1, 2, 0, 3, 4, 0]),
    ]);
    let nodes = decode_dense(&t, params(), &dense).unwrap();
    assert_eq!(nodes.len(), 2);
    match (&nodes[0], &nodes[1]) {
        (Entity::Node(a), Entity::Node(b)) => {
            assert_eq!(a.id, 10);
            assert_eq!(b.id, 11);
            assert_eq!(a.tags, vec![("key1".to_string(), "val2".to_string())]);
            assert_eq!(b.tags, vec![("key3".to_string(), "val4".to_string())]);
            assert_eq!(a.lat_lon, Some((100, -100)));
            assert_eq!(b.lat_lon, Some((200, -100)));
            assert!(!a.meta.deleted);
            assert_eq!(a.meta.uid, None);
        }
        _ => panic!("expected nodes"),
    }
}

#[test]
fn dense_node_info_columns() {
    let t = table_of(&[b"", b"alice", b"\xff"]);
    let info = cat(&[
        packed_int(1, &[3, 4]),
        packed_sint(2, &[10, 5]),
        packed_sint(3, &[100, 1]),
        packed_sint(4, &[7, 0]),
        packed_sint(5, &[1, 0]),
        packed_int(6, &[1]),
    ]);
    let dense = cat(&[
        packed_sint(1, &[1, 1]),
        packed_sint(8, &[0, 0]),
        packed_sint(9, &[0, 0]),
        f_bytes(5, &info),
    ]);
    let p = BlockParams { granularity: 100, lat_offset: 0, lon_offset: 0, date_granularity: 2 };
    let nodes = decode_dense(&t, p, &dense).unwrap();
    match &nodes[1] {
        Entity::Node(n) => {
            assert_eq!(n.meta.timestamp, Some(30));
            assert_eq!(n.meta.changeset_id, Some(101));
            assert_eq!(n.meta.uid, Some(7));
            assert_eq!(n.meta.user.as_deref(), Some("alice"));
            assert_eq!(n.meta.version, Some(4));
            assert!(!n.meta.deleted);
        }
        _ => panic!("expected a node"),
    }
    let bad_user = cat(&[packed_sint(5, &[2])]);
    let dense = cat(&[packed_sint(1, &[1]), packed_sint(8, &[0]), packed_sint(9, &[0]), f_bytes(5, &bad_user)]);
    assert!(matches!(decode_dense(&t, p, &dense), Err(PbfError::Encoding)));
    let bad_uid = cat(&[packed_sint(4, &[1i64 << 31])]);
    let dense = cat(&[packed_sint(1, &[1]), packed_sint(8, &[0]), packed_sint(9, &[0]), f_bytes(5, &bad_uid)]);
    assert!(matches!(decode_dense(&t, p, &dense), Err(PbfError::Range)));
    let short = cat(&[packed_sint(1, &[1, 2]), packed_sint(8, &[0]), packed_sint(9, &[0, 0])]);
    assert!(matches!(decode_dense(&t, p, &short), Err(PbfError::Decode)));
    let unterminated = cat(&[packed_sint(1, &[1]), packed_sint(8, &[0]), packed_sint(9, &[0]), packed_int(10, &[1, 2])]);
    assert!(matches!(decode_dense(&t, p, &unterminated), Err(PbfError::Decode)));
}

#[test]
fn plain_nodes_take_priority_over_dense() {
    let node = cat(&[f_varint(1, zz(5)), f_varint(8, zz(1)), f_varint(9, zz(2))]);
    let group = cat(&[f_bytes(1, &node), dense_group(&[1, 1])]);
    assert_eq!(classify_group(&group), Ok(GroupKind::PlainNodes));
    assert_eq!(classify_group(&dense_group(&[1])), Ok(GroupKind::DenseNodes));
    let t = table_of(&[b""]);
    let nodes = osmio::decode_group(&t, params(), &group).unwrap();
    assert_eq!(nodes.len(), 1);
    assert_eq!(node_id(&nodes[0]), 5);
}

#[test]
fn empty_group_is_a_format_error() {
    assert_eq!(classify_group(&[]), Err(PbfError::Format));
    let t = table_of(&[b""]);
    assert!(matches!(osmio::decode_group(&t, params(), &[]), Err(PbfError::Format)));
    assert_eq!(classify_group(&[0x0a]), Err(PbfError::Decode));
}

#[test]
fn ways_decode_delta_refs_and_tags() {
    let t = table_of(&[b"", b"highway", b"road", b"\xff", b"bob"]);
    let info = cat(&[f_varint(1, 2), f_varint(2, 1_600_000_000), f_varint(3, 9), f_varint(4, 42), f_varint(5, 4)]);
    let way = cat(&[
        f_varint(1, 77),
        packed_int(2, &[1, 3]),
        packed_int(3, &[2, 2]),
        f_bytes(4, &info),
        packed_sint(8, &[10, 1, -3]),
    ]);
    match decode_way(&t, &way).unwrap() {
        Entity::Way(w) => {
            assert_eq!(w.id, 77);
            assert_eq!(w.nodes, vec![10, 11, 8]);
            assert_eq!(w.tags, vec![("highway".to_string(), "road".to_string())]);
            assert_eq!(w.meta.timestamp, Some(1_600_000_000));
            assert_eq!(w.meta.user.as_deref(), Some("bob"));
            assert_eq!(w.meta.uid, Some(42));
            assert_eq!(w.meta.version, Some(2));
            assert_eq!(w.meta.changeset_id, Some(9));
        }
        _ => panic!("expected a way"),
    }
    let bad = cat(&[f_varint(1, 1), f_bytes(4, &f_varint(5, 3))]);
    assert!(matches!(decode_way(&t, &bad), Err(PbfError::Encoding)));
    let no_id = cat(&[packed_sint(8, &[1])]);
    assert!(matches!(decode_way(&t, &no_id), Err(PbfError::Decode)));
}

#[test]
fn relations_drop_members_without_role() {
    let t = table_of(&[b"", b"outer", b"\xff"]);
    let rel = cat(&[
        f_varint(1, 9),
        packed_int(8, &[1, 2, 0]),
        packed_sint(9, &[100, 5, -1]),
        packed_int(10, &[0, 1, 2]),
    ]);
    match decode_relation(&t, &rel).unwrap() {
        Entity::Relation(r) => {
            assert_eq!(r.id, 9);
            assert_eq!(r.members.len(), 2);
            assert_eq!(r.members[0].kind, ObjType::Node);
            assert_eq!(r.members[0].id, 100);
            assert_eq!(r.members[0].role, "outer");
            assert_eq!(r.members[1].kind, ObjType::Relation);
            assert_eq!(r.members[1].id, 104);
            assert_eq!(r.members[1].role, "");
        }
        _ => panic!("expected a relation"),
    }
    let bad_kind = cat(&[f_varint(1, 9), packed_int(10, &[3])]);
    assert!(matches!(decode_relation(&t, &bad_kind), Err(PbfError::Decode)));
}

#[test]
fn block_uses_date_granularity_in_seconds() {
    let info = cat(&[packed_sint(2, &[10, 5])]);
    let dense = cat(&[packed_sint(1, &[1, 1]), packed_sint(8, &[0, 0]), packed_sint(9, &[0, 0]), f_bytes(5, &info)]);
    let blk = cat(&[f_bytes(2, &f_bytes(2, &dense)), f_varint(18, 2000), f_varint(17, 10)]);
    let es = decode_block(&blk).unwrap();
    match &es[1] {
        Entity::Node(n) => {
            assert_eq!(n.meta.timestamp, Some(30));
            assert_eq!(n.lat_lon, Some((0, 0)));
        }
        _ => panic!("expected a node"),
    }
}

#[test]
fn reader_yields_entities_in_file_order() {
    let b1 = block(&[dense_group(&[1, 1])]);
    let b2 = block(&[dense_group(&[3, 1])]);
    let mut data = frame(b"OSMHeader", &raw_blob(b"ignored"));
    data.extend(frame(b"OSMData", &raw_blob(&b1)));
    data.extend(frame(b"OSMData", &raw_blob(&b2)));
    let mut r = PbfReader::new(data);
    let mut ids = Vec::new();
    while let Some(e) = r.next() {
        ids.push(node_id(&e.unwrap()));
    }
    assert_eq!(ids, vec![1, 2, 3, 4]);
    assert!(r.next().is_none());
}

#[test]
fn reader_is_exhausted_after_an_error() {
    let empty_blob = f_varint(2, 10);
    let data = frame(b"OSMData", &empty_blob);
    let mut r = PbfReader::new(data);
    assert!(matches!(r.next(), Some(Err(PbfError::Format))));
    assert!(r.next().is_none());
    assert!(r.next().is_none());
}

#[test]
fn reader_reports_truncated_frames() {
    let b1 = block(&[dense_group(&[1])]);
    let mut data = frame(b"OSMData", &raw_blob(&b1));
    data.extend_from_slice(&[0, 0]);
    let mut r = PbfReader::new(data);
    assert_eq!(node_id(&r.next().unwrap().unwrap()), 1);
    assert!(matches!(r.next(), Some(Err(PbfError::Framing))));
    assert!(r.next().is_none());
    let mut cut = frame(b"OSMData", &raw_blob(&b1));
    cut.pop();
    let mut r = PbfReader::new(cut);
    assert!(matches!(r.next(), Some(Err(PbfError::Framing))));
}

#[test]
fn reader_keeps_the_sorted_flag_and_bytes() {
    let mut r = PbfReader::new(vec![]);
    assert!(!r.get_sorted_assumption());
    r.set_sorted_assumption(true);
    assert!(r.get_sorted_assumption());
    assert!(r.inner().is_empty());
    assert!(r.next().is_none());
    assert_eq!(r.into_inner(), Vec::<u8>::new());
}

#[test]
fn compressed_payloads_are_inflated() {
    let payload = block(&[dense_group(&[5])]);
    let mut enc = flate2::write::ZlibEncoder::new(Vec::new(), flate2::Compression::default());
    enc.write_all(&payload).unwrap();
    let z = enc.finish().unwrap();
    let blob = cat(&[f_varint(2, payload.len() as u64), f_bytes(3, &z)]);
    assert_eq!(extract(&blob), Ok(payload.clone()));
    let raw = raw_blob(b"abc");
    assert_eq!(extract(&raw), Ok(b"abc".to_vec()));
    let corrupt = f_bytes(3, b"not zlib");
    assert_eq!(extract(&corrupt), Err(PbfError::Decode));
    assert_eq!(extract(&f_varint(2, 3)), Err(PbfError::Format));
    let mut r = PbfReader::new(frame(b"OSMData", &blob));
    assert_eq!(node_id(&r.next().unwrap().unwrap()), 5);
}

#[test]
fn varints_read_and_reject() {
    assert_eq!(read_varint(&[0x96, 0x01], 0), Some((150, 2)));
    assert_eq!(read_varint(&[0x00, 0x7f], 1), Some((127, 2)));
    assert_eq!(read_varint(&[0x80], 0), None);
    let max = varint(u64::MAX);
    assert_eq!(read_varint(&max, 0), Some((u64::MAX, 10)));
    assert_eq!(read_varint(&[0xff; 10], 0), None);
    assert_eq!(read_varint(&[0xff; 9].iter().chain(&[0x02u8]).copied().collect::<Vec<u8>>(), 0), None);
}

fn dense_block(table: &[&[u8]], dense: &[u8], extra: &[Vec<u8>]) -> Vec<u8> {
    let mut parts = vec![f_bytes(1, &string_table(table)), f_bytes(2, &f_bytes(2, dense))];
    parts.extend_from_slice(extra);
    cat(&parts)
}

fn entities_of(data: Vec<u8>) -> Vec<Entity> {
    let mut r = PbfReader::new(data);
    let mut out = Vec::new();
    while let Some(e) = r.next() {
        out.push(e.unwrap());
    }
    out
}

#[test]
fn reader_ids_are_running_sums() {
    let dense = cat(&[packed_sint(1, &[5, 3, -1]), packed_sint(8, &[0, 0, 0]), packed_sint(9, &[0, 0, 0])]);
    let data = frame(b"OSMData", &raw_blob(&dense_block(&[b""], &dense, &[])));
    let ids: Vec<i64> = entities_of(data).iter().map(node_id).collect();
    assert_eq!(ids, vec![5, 8, 7]);
}

#[test]
fn reader_scales_coordinates() {
    let dense = cat(&[packed_sint(1, &[1]), packed_sint(8, &[1]), packed_sint(9, &[0])]);
    let blk = dense_block(&[b""], &dense, &[f_varint(17, 100), f_varint(19, 0), f_varint(20, 0)]);
    let es = entities_of(frame(b"OSMData", &raw_blob(&blk)));
    match &es[0] {
        Entity::Node(n) => {
            let (lat, lon) = n.lat_lon.unwrap();
            assert!((lat as f64 * 1e-9 - 1e-7).abs() <= 1e-12);
            assert_eq!(lon, 0);
        }
        _ => panic!("expected a node"),
    }
}

#[test]
fn reader_resolves_index_zero_to_empty() {
    let way = cat(&[f_varint(1, 3), packed_int(2, &[0]), packed_int(3, &[0]), f_bytes(4, &f_varint(5, 0))]);
    let blk = cat(&[f_bytes(1, &string_table(&[b""])), f_bytes(2, &f_bytes(3, &way))]);
    let es = entities_of(frame(b"OSMData", &raw_blob(&blk)));
    match &es[0] {
        Entity::Way(w) => {
            assert_eq!(w.tags, vec![(String::new(), String::new())]);
            assert_eq!(w.meta.user.as_deref(), Some(""));
        }
        _ => panic!("expected a way"),
    }
}

#[test]
fn reader_splits_dense_tags() {
    let dense = cat(&[
        packed_sint(1, &[1, 1]),
        packed_sint(8, &[0, 0]),
        packed_sint(9, &[0, 0]),
        packed_int(10, &[1, 2, 0, 3, 4, 0]),
    ]);
    let blk = dense_block(&[b"", b"k1", b"v1", b"k2", b"v2"], &dense, &[]);
    let es = entities_of(frame(b"OSMData", &raw_blob(&blk)));
    match (&es[0], &es[1]) {
        (Entity::Node(a), Entity::Node(b)) => {
            assert_eq!(a.tags, vec![("k1".to_string(), "v1".to_string())]);
            assert_eq!(b.tags, vec![("k2".to_string(), "v2".to_string())]);
        }
        _ => panic!("expected nodes"),
    }
}

/// Runs a stream over `data` as a caller reading from a file would.
fn run_stream(data: &[u8]) -> Vec<Result<i64, PbfError>> {
    let mut s = PbfStream::new();
    let mut pos = 0;
    let mut out = Vec::new();
    loop {
        match s.poll() {
            Action::Read(n) => {
                let end = (pos + n).min(data.len());
                s.feed(&data[pos..end]);
                pos = end;
            }
            Action::Yield(e) => out.push(Ok(node_id(&e))),
            Action::Fail(e) => out.push(Err(e)),
            Action::End => return out,
        }
    }
}

#[test]
fn stream_yields_entities_in_file_order() {
    let mut data = frame(b"OSMHeader", &raw_blob(b"ignored"));
    data.extend(frame(b"OSMData", &raw_blob(&block(&[dense_group(&[1, 1])]))));
    data.extend(frame(b"OSMData", &raw_blob(&block(&[dense_group(&[3, 1])]))));
    assert_eq!(run_stream(&data), vec![Ok(1), Ok(2), Ok(3), Ok(4)]);
    assert_eq!(run_stream(&[]), vec![]);
}

#[test]
fn stream_stops_after_an_error() {
    let data = frame(b"OSMData", &f_varint(2, 10));
    assert_eq!(run_stream(&data), vec![Err(PbfError::Format)]);
    let mut cut = frame(b"OSMData", &raw_blob(&block(&[dense_group(&[1])])));
    cut.pop();
    assert_eq!(run_stream(&cut), vec![Err(PbfError::Framing)]);
    let mut s = PbfStream::new();
    assert!(matches!(s.poll(), Action::Read(4)));
    s.feed(&[0, 0]);
    assert!(matches!(s.poll(), Action::Fail(PbfError::Framing)));
    assert!(matches!(s.poll(), Action::End));
    s.feed(&[0, 0, 0, 0]);
    assert!(matches!(s.poll(), Action::End));
}

#[test]
fn frame_prefix_and_header() {
    assert_eq!(frame_length(&[]), Ok(None));
    assert_eq!(frame_length(&[0, 0, 1, 2]), Ok(Some(258)));
    assert_eq!(frame_length(&[0, 1]), Err(PbfError::Framing));
    let h = cat(&[f_bytes(1, b"OSMData"), f_varint(3, 12)]);
    assert_eq!(read_header(&h), Ok((true, 12)));
    let h = cat(&[f_bytes(1, b"OSMHeader"), f_varint(3, 7)]);
    assert_eq!(read_header(&h), Ok((false, 7)));
    assert_eq!(read_header(&f_bytes(1, b"OSMData")), Err(PbfError::Decode));
}
