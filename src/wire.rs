//! The protobuf wire format: varints, zigzag integers and field records.
use vstd::prelude::*;
use vstd::slice::slice_subrange;

verus! {

/// The varint that starts at `i`, with `k` of its bytes already read before `i`:
/// its value and the position after it. A varint has at most ten bytes.
pub open spec fn varint_at(s: Seq<u8>, i: int, k: nat) -> Option<(int, int)>
    decreases 10 - k,
{
    if k >= 10 || i < 0 || i >= s.len() {
        None
    } else if s[i] < 128 {
        Some((s[i] as int, i + 1))
    } else {
        match varint_at(s, i + 1, k + 1) {
            Some((v, e)) => Some(((s[i] - 128) + 128 * v, e)),
            None => None,
        }
    }
}

/// The varint at `i` when it is well formed and its value fits in 64 bits.
pub open spec fn varint_u64(s: Seq<u8>, i: int) -> Option<(u64, int)> {
    match varint_at(s, i, 0) {
        Some((v, e)) => if v <= u64::MAX {
            Some((v as u64, e))
        } else {
            None
        },
        None => None,
    }
}

pub proof fn lemma_varint_bounds(s: Seq<u8>, i: int, k: nat)
    ensures
        varint_at(s, i, k) matches Some((v, e)) ==> v >= 0 && i < e <= s.len(),
    decreases 10 - k,
{
    if k < 10 && 0 <= i < s.len() && s[i] >= 128 {
        lemma_varint_bounds(s, i + 1, k + 1);
    }
}

fn read_varint_rec(s: &[u8], i: usize, k: usize) -> (r: Option<(u64, usize)>)
    requires
        k <= 10,
    ensures
        match varint_at(s@, i as int, k as nat) {
            Some((v, e)) => if v <= u64::MAX {
                r == Some((v as u64, e as usize))
            } else {
                r is None
            },
            None => r is None,
        },
    decreases 10 - k,
{
    if k >= 10 || i >= s.len() {
        return None;
    }
    let b = s[i];
    if b < 128 {
        return Some((b as u64, i + 1));
    }
    proof {
        lemma_varint_bounds(s@, i + 1, (k + 1) as nat);
    }
    match read_varint_rec(s, i + 1, k + 1) {
        None => None,
        Some((v, e)) => {
            if v > 0x1ff_ffff_ffff_ffff {
                assert(128 * (v as int) >= 0x1_0000_0000_0000_0000);
                None
            } else {
                Some(((b - 128) as u64 + 128 * v, e))
            }
        },
    }
}

/// Reads the varint at `i`, when it is well formed and fits in 64 bits.
pub fn read_varint(s: &[u8], i: usize) -> (r: Option<(u64, usize)>)
    ensures
        match varint_u64(s@, i as int) {
            Some((v, e)) => r == Some((v, e as usize)) && i < e <= s@.len(),
            None => r is None,
        },
{
    proof {
        lemma_varint_bounds(s@, i as int, 0);
    }
    read_varint_rec(s, i, 0)
}

/// Zigzag decoding of the `sint32`/`sint64` encodings.
pub open spec fn zigzag(v: u64) -> int {
    if v % 2 == 0 {
        (v / 2) as int
    } else {
        -((v as int + 1) / 2)
    }
}

/// The two's-complement reading of the `int32`/`int64` encodings.
pub open spec fn twos(v: u64) -> int {
    if v < 0x8000_0000_0000_0000 {
        v as int
    } else {
        v as int - 0x1_0000_0000_0000_0000
    }
}

pub fn decode_zigzag(v: u64) -> (r: i64)
    ensures
        r == zigzag(v),
{
    if v % 2 == 0 {
        (v / 2) as i64
    } else {
        -((v / 2) as i64) - 1
    }
}

pub fn decode_twos(v: u64) -> (r: i64)
    ensures
        r == twos(v),
{
    if v < 0x8000_0000_0000_0000 {
        v as i64
    } else {
        let w: u64 = v - 0x8000_0000_0000_0000;
        (w as i64) - 0x4000_0000_0000_0000 - 0x4000_0000_0000_0000
    }
}

/// The value carried by one field.
#[derive(Debug, Clone, Copy, PartialEq, Eq)]
pub enum WireValue {
    Varint(u64),
    /// A fixed-width value (four or eight bytes), which no message here reads.
    Fixed,
    /// A length-delimited value: the bytes `start..end` of the message.
    Bytes { start: usize, end: usize },
}

/// One field of a message: its number and its value.
#[derive(Debug, Clone, Copy, PartialEq, Eq)]
pub struct Field {
    pub num: u64,
    pub value: WireValue,
}

/// The field that starts at `i` and the position after it.
pub open spec fn field_at(s: Seq<u8>, i: int) -> Option<(Field, int)> {
    match varint_u64(s, i) {
        None => None,
        Some((key, e)) => {
            let num = key / 8;
            let wt = key % 8;
            if wt == 0 {
                match varint_u64(s, e) {
                    Some((v, e2)) => Some((Field { num, value: WireValue::Varint(v) }, e2)),
                    None => None,
                }
            } else if wt == 1 {
                if e + 8 <= s.len() {
                    Some((Field { num, value: WireValue::Fixed }, e + 8))
                } else {
                    None
                }
            } else if wt == 2 {
                match varint_u64(s, e) {
                    Some((n, e2)) => if e2 + n <= s.len() {
                        Some(
                            (
                                Field {
                                    num,
                                    value: WireValue::Bytes { start: e2 as usize, end: (e2 + n) as usize },
                                },
                                e2 + n,
                            ),
                        )
                    } else {
                        None
                    },
                    None => None,
                }
            } else if wt == 5 {
                if e + 4 <= s.len() {
                    Some((Field { num, value: WireValue::Fixed }, e + 4))
                } else {
                    None
                }
            } else {
                None
            }
        },
    }
}

pub proof fn lemma_field_bounds(s: Seq<u8>, i: int)
    requires
        s.len() <= usize::MAX,
    ensures
        field_at(s, i) matches Some((f, e)) ==> i < e <= s.len() && (f.value matches WireValue::Bytes {
            start,
            end,
        } ==> i < start <= end == e),
{
    lemma_varint_bounds(s, i, 0);
    if let Some((key, e)) = varint_u64(s, i) {
        lemma_varint_bounds(s, e, 0);
    }
}

/// The fields of the message `s` from position `i` on, or `None` when they are malformed.
pub open spec fn fields_from(s: Seq<u8>, i: int) -> Option<Seq<Field>>
    decreases s.len() - i,
{
    if i < 0 || i >= s.len() {
        if i == s.len() {
            Some(Seq::empty())
        } else {
            None
        }
    } else {
        match field_at(s, i) {
            Some((f, j)) => if i < j <= s.len() {
                match fields_from(s, j) {
                    Some(rest) => Some(seq![f] + rest),
                    None => None,
                }
            } else {
                None
            },
            None => None,
        }
    }
}

/// The fields of the message `s`.
pub open spec fn fields_of(s: Seq<u8>) -> Option<Seq<Field>> {
    fields_from(s, 0)
}

fn read_field(s: &[u8], i: usize) -> (r: Option<(Field, usize)>)
    ensures
        match field_at(s@, i as int) {
            Some((f, e)) => r == Some((f, e as usize)),
            None => r is None,
        },
{
    let len = s.len();
    proof {
        lemma_field_bounds(s@, i as int);
    }
    let (key, e) = match read_varint(s, i) {
        Some(p) => p,
        None => return None,
    };
    let num = key / 8;
    let wt = key % 8;
    if wt == 0 {
        match read_varint(s, e) {
            Some((v, e2)) => Some((Field { num, value: WireValue::Varint(v) }, e2)),
            None => None,
        }
    } else if wt == 1 {
        if e <= s.len() && s.len() - e >= 8 {
            Some((Field { num, value: WireValue::Fixed }, e + 8))
        } else {
            None
        }
    } else if wt == 2 {
        match read_varint(s, e) {
            Some((n, e2)) => {
                if (n as u128) <= (s.len() - e2) as u128 {
                    let end = e2 + n as usize;
                    Some((Field { num, value: WireValue::Bytes { start: e2, end } }, end))
                } else {
                    None
                }
            },
            None => None,
        }
    } else if wt == 5 {
        if e <= s.len() && s.len() - e >= 4 {
            Some((Field { num, value: WireValue::Fixed }, e + 4))
        } else {
            None
        }
    } else {
        None
    }
}

/// Splits the message `s` into its fields.
pub fn parse_fields(s: &[u8]) -> (r: Option<Vec<Field>>)
    ensures
        match fields_of(s@) {
            Some(fs) => r is Some && r->0@ == fs,
            None => r is None,
        },
{
    let len = s.len();
    let mut acc: Vec<Field> = Vec::new();
    let mut i: usize = 0;
    while i < s.len()
        invariant
            i <= s@.len(),
            len == s@.len(),
            fields_of(s@) == (match fields_from(s@, i as int) {
                Some(rest) => Some(acc@ + rest),
                None => None,
            }),
        decreases s@.len() - i,
    {
        proof {
            lemma_field_bounds(s@, i as int);
        }
        match read_field(s, i) {
            None => {
                return None;
            },
            Some((f, j)) => {
                proof {
                    let rest = fields_from(s@, j as int);
                    if let Some(r) = rest {
                        assert(acc@.push(f) + r =~= acc@ + (seq![f] + r));
                    }
                }
                acc.push(f);
                i = j;
            },
        }
    }
    assert(acc@ + Seq::<Field>::empty() =~= acc@);
    Some(acc)
}

/// The varints of a packed column, from position `i` on.
pub open spec fn varints_from(t: Seq<u8>, i: int) -> Option<Seq<u64>>
    decreases t.len() - i,
{
    if i < 0 || i >= t.len() {
        if i == t.len() {
            Some(Seq::empty())
        } else {
            None
        }
    } else {
        match varint_u64(t, i) {
            Some((v, j)) => if i < j <= t.len() {
                match varints_from(t, j) {
                    Some(rest) => Some(seq![v] + rest),
                    None => None,
                }
            } else {
                None
            },
            None => None,
        }
    }
}

/// Reads a packed column of varints that fills all of `t`.
pub fn read_packed(t: &[u8]) -> (r: Option<Vec<u64>>)
    ensures
        match varints_from(t@, 0) {
            Some(vs) => r is Some && r->0@ == vs,
            None => r is None,
        },
{
    let mut acc: Vec<u64> = Vec::new();
    let mut i: usize = 0;
    while i < t.len()
        invariant
            i <= t@.len(),
            varints_from(t@, 0) == (match varints_from(t@, i as int) {
                Some(rest) => Some(acc@ + rest),
                None => None,
            }),
        decreases t@.len() - i,
    {
        match read_varint(t, i) {
            None => {
                return None;
            },
            Some((v, j)) => {
                proof {
                    if let Some(r) = varints_from(t@, j as int) {
                        assert(acc@.push(v) + r =~= acc@ + (seq![v] + r));
                    }
                }
                acc.push(v);
                i = j;
            },
        }
    }
    assert(acc@ + Seq::<u64>::empty() =~= acc@);
    Some(acc)
}

/// The value of the last varint field numbered `n`, which wins over earlier ones.
pub open spec fn last_varint(fs: Seq<Field>, n: u64) -> Option<u64>
    decreases fs.len(),
{
    if fs.len() == 0 {
        None
    } else if fs.last().num == n && fs.last().value is Varint {
        Some(fs.last().value->Varint_0)
    } else {
        last_varint(fs.drop_last(), n)
    }
}

/// The last length-delimited field numbered `n`, as a range of the message.
pub open spec fn last_bytes(fs: Seq<Field>, n: u64) -> Option<(usize, usize)>
    decreases fs.len(),
{
    if fs.len() == 0 {
        None
    } else if fs.last().num == n && fs.last().value is Bytes {
        Some((fs.last().value->start, fs.last().value->end))
    } else {
        last_bytes(fs.drop_last(), n)
    }
}

/// Every length-delimited field numbered `n`, in order, as ranges of the message.
pub open spec fn all_bytes(fs: Seq<Field>, n: u64) -> Seq<(usize, usize)>
    decreases fs.len(),
{
    if fs.len() == 0 {
        Seq::empty()
    } else if fs.last().num == n && fs.last().value is Bytes {
        all_bytes(fs.drop_last(), n).push((fs.last().value->start, fs.last().value->end))
    } else {
        all_bytes(fs.drop_last(), n)
    }
}

/// The repeated varint column numbered `n`: packed runs and single values, in order.
pub open spec fn column(s: Seq<u8>, fs: Seq<Field>, n: u64) -> Option<Seq<u64>>
    decreases fs.len(),
{
    if fs.len() == 0 {
        Some(Seq::empty())
    } else {
        match column(s, fs.drop_last(), n) {
            None => None,
            Some(front) => if fs.last().num != n {
                Some(front)
            } else {
                match fs.last().value {
                    WireValue::Varint(v) => Some(front.push(v)),
                    WireValue::Fixed => None,
                    WireValue::Bytes { start, end } => if start <= end <= s.len() {
                        match varints_from(s.subrange(start as int, end as int), 0) {
                            Some(vs) => Some(front + vs),
                            None => None,
                        }
                    } else {
                        None
                    },
                }
            },
        }
    }
}

/// Finds the last varint field numbered `n`.
pub fn get_varint(fs: &Vec<Field>, n: u64) -> (r: Option<u64>)
    ensures
        r == last_varint(fs@, n),
{
    let mut cur: Option<u64> = None;
    let mut i: usize = 0;
    while i < fs.len()
        invariant
            i <= fs@.len(),
            cur == last_varint(fs@.take(i as int), n),
        decreases fs@.len() - i,
    {
        assert(fs@.take(i + 1).drop_last() =~= fs@.take(i as int));
        if fs[i].num == n {
            if let WireValue::Varint(v) = fs[i].value {
                cur = Some(v);
            }
        }
        i = i + 1;
    }
    assert(fs@.take(i as int) =~= fs@);
    cur
}

/// Finds the last length-delimited field numbered `n`.
pub fn get_bytes(fs: &Vec<Field>, n: u64) -> (r: Option<(usize, usize)>)
    ensures
        r == last_bytes(fs@, n),
{
    let mut cur: Option<(usize, usize)> = None;
    let mut i: usize = 0;
    while i < fs.len()
        invariant
            i <= fs@.len(),
            cur == last_bytes(fs@.take(i as int), n),
        decreases fs@.len() - i,
    {
        assert(fs@.take(i + 1).drop_last() =~= fs@.take(i as int));
        if fs[i].num == n {
            if let WireValue::Bytes { start, end } = fs[i].value {
                cur = Some((start, end));
            }
        }
        i = i + 1;
    }
    assert(fs@.take(i as int) =~= fs@);
    cur
}

/// Collects every length-delimited field numbered `n`.
pub fn get_all_bytes(fs: &Vec<Field>, n: u64) -> (r: Vec<(usize, usize)>)
    ensures
        r@ == all_bytes(fs@, n),
{
    let mut acc: Vec<(usize, usize)> = Vec::new();
    let mut i: usize = 0;
    while i < fs.len()
        invariant
            i <= fs@.len(),
            acc@ == all_bytes(fs@.take(i as int), n),
        decreases fs@.len() - i,
    {
        assert(fs@.take(i + 1).drop_last() =~= fs@.take(i as int));
        if fs[i].num == n {
            if let WireValue::Bytes { start, end } = fs[i].value {
                acc.push((start, end));
            }
        }
        i = i + 1;
    }
    assert(fs@.take(i as int) =~= fs@);
    acc
}

/// Reads the repeated varint column numbered `n` of the message `s`.
pub fn get_column(s: &[u8], fs: &Vec<Field>, n: u64) -> (r: Option<Vec<u64>>)
    ensures
        match column(s@, fs@, n) {
            Some(c) => r is Some && r->0@ == c,
            None => r is None,
        },
{
    let mut acc: Vec<u64> = Vec::new();
    let mut i: usize = 0;
    while i < fs.len()
        invariant
            i <= fs@.len(),
            column(s@, fs@.take(i as int), n) == Some(acc@),
        decreases fs@.len() - i,
    {
        assert(fs@.take(i + 1).drop_last() =~= fs@.take(i as int));
        if fs[i].num == n {
            match fs[i].value {
                WireValue::Varint(v) => {
                    acc.push(v);
                },
                WireValue::Fixed => {
                    proof {
                        lemma_column_none_stays(s@, fs@, n, i + 1);
                    }
                    return None;
                },
                WireValue::Bytes { start, end } => {
                    if start > end || end > s.len() {
                        proof {
                            lemma_column_none_stays(s@, fs@, n, i + 1);
                        }
                        return None;
                    }
                    let t = slice_subrange(s, start, end);
                    match read_packed(t) {
                        None => {
                            proof {
                                lemma_column_none_stays(s@, fs@, n, i + 1);
                            }
                            return None;
                        },
                        Some(vs) => {
                            let mut j: usize = 0;
                            let ghost before = acc@;
                            while j < vs.len()
                                invariant
                                    j <= vs@.len(),
                                    acc@ == before + vs@.take(j as int),
                                decreases vs@.len() - j,
                            {
                                assert(vs@.take(j + 1) =~= vs@.take(j as int).push(vs@[j as int]));
                                acc.push(vs[j]);
                                j = j + 1;
                            }
                            assert(vs@.take(j as int) =~= vs@);
                        },
                    }
                },
            }
        }
        i = i + 1;
    }
    assert(fs@.take(i as int) =~= fs@);
    Some(acc)
}

proof fn lemma_column_none_stays(s: Seq<u8>, fs: Seq<Field>, n: u64, k: int)
    requires
        0 <= k <= fs.len(),
        column(s, fs.take(k), n) is None,
    ensures
        column(s, fs, n) is None,
    decreases fs.len() - k,
{
    if k < fs.len() {
        assert(fs.take(k + 1).drop_last() =~= fs.take(k));
        lemma_column_none_stays(s, fs, n, k + 1);
    } else {
        assert(fs.take(k) =~= fs);
    }
}

} // verus!
