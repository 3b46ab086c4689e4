//! Changeset records, as found in the changeset dump files.
use vstd::prelude::*;
use vstd::string::StringSliceAdditionalSpecFns;

verus! {

/// A point in time, either as written in a file or as seconds since the epoch.
#[derive(Debug, Clone, PartialEq, Eq)]
pub enum TimestampFormat {
    ISOString(String),
    EpochNumber(i64),
}

/// The view of a tag list: the value of the last pair with a given key.
pub open spec fn tags_lookup(tags: Seq<(String, String)>, key: Seq<char>) -> Option<Seq<char>>
    decreases tags.len(),
{
    if tags.len() == 0 {
        None
    } else if tags.last().0@ == key {
        Some(tags.last().1@)
    } else {
        tags_lookup(tags.drop_last(), key)
    }
}

/// Some pair of `tags` has the key `key`.
pub open spec fn has_key(tags: Seq<(String, String)>, key: Seq<char>) -> bool {
    exists|i: int| 0 <= i < tags.len() && (#[trigger] tags[i]).0@ == key
}

/// The number of distinct keys among the pairs.
pub open spec fn distinct_keys(tags: Seq<(String, String)>) -> nat
    decreases tags.len(),
{
    if tags.len() == 0 {
        0
    } else {
        distinct_keys(tags.drop_last()) + if has_key(tags.drop_last(), tags.last().0@) {
            0nat
        } else {
            1nat
        }
    }
}

/// No two pairs share a key.
pub open spec fn keys_unique(tags: Seq<(String, String)>) -> bool {
    forall|i: int, j: int|
        0 <= i < j < tags.len() ==> (#[trigger] tags[i]).0@ != (#[trigger] tags[j]).0@
}

/// In a tag list without repeated keys, a key's value is that of its one pair.
proof fn lemma_lookup_unique(tags: Seq<(String, String)>, key: Seq<char>)
    requires
        keys_unique(tags),
    ensures
        forall|i: int|
            0 <= i < tags.len() && (#[trigger] tags[i]).0@ == key ==> tags_lookup(tags, key) == Some(
                tags[i].1@,
            ),
        !has_key(tags, key) ==> tags_lookup(tags, key) is None,
    decreases tags.len(),
{
    if tags.len() > 0 {
        let d = tags.drop_last();
        assert forall|i: int, j: int| 0 <= i < j < d.len() implies (#[trigger] d[i]).0@ != (
        #[trigger] d[j]).0@ by {
            assert(d[i] == tags[i] && d[j] == tags[j]);
        }
        lemma_lookup_unique(d, key);
        if !has_key(tags, key) {
            if has_key(d, key) {
                let i = choose|i: int| 0 <= i < d.len() && (#[trigger] d[i]).0@ == key;
                assert(tags[i] == d[i]);
            }
        }
        assert forall|i: int| 0 <= i < tags.len() && (#[trigger] tags[i]).0@ == key implies tags_lookup(
            tags,
            key,
        ) == Some(tags[i].1@) by {
            if i < tags.len() - 1 {
                assert(d[i] == tags[i]);
                assert(tags[i].0@ != tags[tags.len() - 1].0@);
            }
        }
    }
}

/// Sets the tag `k` to `v`, replacing the pair that has that key if there is one.
fn set_tag(tags: &mut Vec<(String, String)>, k: String, v: String)
    requires
        keys_unique(old(tags)@),
    ensures
        keys_unique(final(tags)@),
        forall|key: Seq<char>| #[trigger]
            tags_lookup(final(tags)@, key) == if key == k@ {
                Some(v@)
            } else {
                tags_lookup(old(tags)@, key)
            },
{
    let ghost before = tags@;
    let mut i: usize = 0;
    while i < tags.len()
        invariant
            i <= tags@.len(),
            tags@ == before,
            before == old(tags)@,
            keys_unique(before),
            forall|j: int| 0 <= j < i ==> (#[trigger] tags@[j]).0@ != k@,
        decreases tags@.len() - i,
    {
        if tags[i].0 == k {
            assert(before == old(tags)@);
            let ghost kv = k@;
            let ghost vv = v@;
            tags.set(i, (k, v));
            proof {
                assert forall|a: int, b: int| 0 <= a < b < tags@.len() implies (
                #[trigger] tags@[a]).0@ != (#[trigger] tags@[b]).0@ by {
                    assert(before[a].0@ != before[b].0@);
                }
                assert forall|key: Seq<char>| #[trigger]
                    tags_lookup(tags@, key) == if key == kv {
                        Some(vv)
                    } else {
                        tags_lookup(before, key)
                    } by {
                    lemma_lookup_unique(tags@, key);
                    lemma_lookup_unique(before, key);
                    if key != kv {
                        if has_key(before, key) {
                            let j = choose|j: int| 0 <= j < before.len() && (#[trigger] before[j]).0@
                                == key;
                            assert(tags@[j] == before[j]);
                        } else if has_key(tags@, key) {
                            let j = choose|j: int| 0 <= j < tags@.len() && (#[trigger] tags@[j]).0@
                                == key;
                            assert(tags@[j] == before[j]);
                        }
                    } else {
                        assert(tags@[i as int].0@ == kv);
                    }
                }
            }
            return ;
        }
        i = i + 1;
    }
    let ghost kv = k@;
    let ghost vv = v@;
    tags.push((k, v));
    proof {
        assert(tags@.drop_last() =~= before);
        assert forall|a: int, b: int| 0 <= a < b < tags@.len() implies (#[trigger] tags@[a]).0@ != (
        #[trigger] tags@[b]).0@ by {
            if b < tags@.len() - 1 {
                assert(before[a].0@ != before[b].0@);
            }
        }
    }
}

/// A single changeset entry; the fields match the attributes of the dump file.
#[derive(Debug, Clone)]
pub struct Changeset {
    pub id: u32,
    pub created: TimestampFormat,
    pub closed: Option<TimestampFormat>,
    pub open: bool,
    pub uid: Option<i64>,
    pub user: Option<String>,
    /// Key/value pairs in file order.
    pub tags: Vec<(String, String)>,
    pub num_changes: u64,
    pub comments_count: u64,
}

impl Changeset {
    /// The value of the tag `key`; where a key occurs twice the later pair wins.
    pub fn tag(&self, key: &str) -> (r: Option<&str>)
        ensures
            match tags_lookup(self.tags@, key@) {
                Some(v) => r is Some && r->0@ == v,
                None => r is None,
            },
    {
        let k = key.to_owned();
        let mut i: usize = self.tags.len();
        assert(self.tags@.take(i as int) =~= self.tags@);
        while i > 0
            invariant
                i <= self.tags@.len(),
                k@ == key@,
                tags_lookup(self.tags@, key@) == tags_lookup(self.tags@.take(i as int), key@),
            decreases i,
        {
            assert(self.tags@.take(i as int).drop_last() =~= self.tags@.take(i - 1));
            if self.tags[i - 1].0 == k {
                return Some(self.tags[i - 1].1.as_str());
            }
            i = i - 1;
        }
        None
    }

    pub fn has_tag(&self, key: &str) -> (r: bool)
        ensures
            r == tags_lookup(self.tags@, key@) is Some,
    {
        self.tag(key).is_some()
    }

    /// The number of distinct tag keys.
    pub fn num_tags(&self) -> (r: usize)
        ensures
            r == distinct_keys(self.tags@),
    {
        let mut count: usize = 0;
        let mut i: usize = 0;
        while i < self.tags.len()
            invariant
                i <= self.tags@.len(),
                count <= i,
                count == distinct_keys(self.tags@.take(i as int)),
            decreases self.tags@.len() - i,
        {
            let ghost t = self.tags@.take(i + 1);
            assert(t.drop_last() =~= self.tags@.take(i as int));
            let mut seen = false;
            let mut j: usize = 0;
            while j < i
                invariant
                    j <= i < self.tags@.len(),
                    t == self.tags@.take(i + 1),
                    seen == exists|x: int| 0 <= x < j && (#[trigger] t.drop_last()[x]).0@ == t.last().0@,
                decreases i - j,
            {
                assert(t.drop_last()[j as int] == self.tags@[j as int]);
                if self.tags[j].0 == self.tags[i].0 {
                    seen = true;
                }
                j = j + 1;
            }
            if !seen {
                count = count + 1;
            }
            i = i + 1;
        }
        assert(self.tags@.take(i as int) =~= self.tags@);
        count
    }

    /// True iff this object has tags
    pub fn tagged(&self) -> (r: bool)
        ensures
            r == (self.tags@.len() > 0),
    {
        !self.untagged()
    }

    /// True iff this object has no tags
    pub fn untagged(&self) -> (r: bool)
        ensures
            r == (self.tags@.len() == 0),
    {
        self.tags.len() == 0
    }

    pub fn tags_mut(&mut self) -> (r: &mut Vec<(String, String)>)
        ensures
            *r == old(self).tags,
            final(self).tags == *final(r),
            final(self).id == old(self).id,
            final(self).created == old(self).created,
            final(self).closed == old(self).closed,
            final(self).open == old(self).open,
            final(self).uid == old(self).uid,
            final(self).user == old(self).user,
            final(self).num_changes == old(self).num_changes,
            final(self).comments_count == old(self).comments_count,
    {
        &mut self.tags
    }

    pub fn into_tags(self) -> (r: Vec<(String, String)>)
        ensures
            r == self.tags,
    {
        self.tags
    }
}

pub open spec fn is_digit(c: u8) -> bool {
    48 <= c <= 57
}

/// The value of a string of decimal digits.
pub open spec fn digits_value(b: Seq<u8>) -> int
    decreases b.len(),
{
    if b.len() == 0 {
        0
    } else {
        10 * digits_value(b.drop_last()) + (b.last() - 48)
    }
}

/// One or more decimal digits and nothing else.
pub open spec fn digits_only(b: Seq<u8>) -> Option<int> {
    if b.len() > 0 && forall|i: int| 0 <= i < b.len() ==> #[trigger] is_digit(b[i]) {
        Some(digits_value(b))
    } else {
        None
    }
}

/// A decimal integer with an optional `+` sign.
pub open spec fn unsigned_value(b: Seq<u8>) -> Option<int> {
    if b.len() > 0 && b[0] == 43 {
        digits_only(b.drop_first())
    } else {
        digits_only(b)
    }
}

/// A decimal integer with an optional `+` or `-` sign.
pub open spec fn signed_value(b: Seq<u8>) -> Option<int> {
    if b.len() > 0 && b[0] == 45 {
        match digits_only(b.drop_first()) {
            Some(v) => Some(-v),
            None => None,
        }
    } else {
        unsigned_value(b)
    }
}

proof fn lemma_digits_grow(b: Seq<u8>, i: int)
    requires
        0 <= i <= b.len(),
        forall|j: int| 0 <= j < b.len() ==> #[trigger] is_digit(b[j]),
    ensures
        0 <= digits_value(b.take(i)) <= digits_value(b),
    decreases b.len() - i,
{
    lemma_digits_nonneg(b.take(i));
    if i < b.len() {
        lemma_digits_grow(b, i + 1);
        assert(b.take(i + 1).drop_last() =~= b.take(i));
        assert(b.take(i + 1).last() == b[i]);
        assert(is_digit(b[i]));
    } else {
        assert(b.take(i) =~= b);
    }
}

proof fn lemma_digits_nonneg(b: Seq<u8>)
    requires
        forall|j: int| 0 <= j < b.len() ==> #[trigger] is_digit(b[j]),
    ensures
        digits_value(b) >= 0,
    decreases b.len(),
{
    if b.len() > 0 {
        assert(is_digit(b[b.len() - 1]));
        assert forall|j: int| 0 <= j < b.drop_last().len() implies #[trigger] is_digit(
            b.drop_last()[j],
        ) by {
            assert(b.drop_last()[j] == b[j]);
        }
        lemma_digits_nonneg(b.drop_last());
    }
}

/// Reads the digits `b[start..]`, when they are one or more and their value
/// is at most `max`.
fn parse_digits(b: &[u8], start: usize, max: u64) -> (r: Option<u64>)
    requires
        start <= b@.len(),
        max >= 9,
    ensures
        r matches Some(v) ==> v <= max,
        match digits_only(b@.subrange(start as int, b@.len() as int)) {
            Some(v) => if v <= max {
                r == Some(v as u64)
            } else {
                r is None
            },
            None => r is None,
        },
{
    let ghost d = b@.subrange(start as int, b@.len() as int);
    if start >= b.len() {
        return None;
    }
    let mut acc: u64 = 0;
    let mut i: usize = start;
    while i < b.len()
        invariant
            start <= i <= b@.len(),
            d == b@.subrange(start as int, b@.len() as int),
            acc <= max,
            max >= 9,
            acc == digits_value(d.take(i - start)),
            forall|j: int| 0 <= j < i - start ==> #[trigger] is_digit(d[j]),
        decreases b@.len() - i,
    {
        let c = b[i];
        assert(d[i - start] == c);
        if c < 48 || c > 57 {
            assert(!is_digit(d[i - start]));
            return None;
        }
        let x = (c - 48) as u64;
        assert(d.take(i - start + 1).drop_last() =~= d.take(i - start));
        if acc > (max - x) / 10 {
            proof {
                if digits_only(d) is Some {
                    lemma_digits_grow(d, i - start + 1);
                }
            }
            return None;
        }
        acc = acc * 10 + x;
        i = i + 1;
    }
    assert(d.take(i - start) =~= d);
    Some(acc)
}

/// Parses an unsigned decimal, as `str::parse` does for `u64`.
pub fn parse_u64(s: &str) -> (r: Option<u64>)
    ensures
        unsigned_value(s.spec_bytes()) matches Some(v) ==> v >= 0,
        match unsigned_value(s.spec_bytes()) {
            Some(v) => if v <= u64::MAX {
                r == Some(v as u64)
            } else {
                r is None
            },
            None => r is None,
        },
{
    let b = s.as_bytes();
    proof {
        if digits_only(b@) is Some {
            lemma_digits_nonneg(b@);
        }
        if digits_only(b@.drop_first()) is Some {
            lemma_digits_nonneg(b@.drop_first());
        }
    }
    if b.len() > 0 && b[0] == 43 {
        assert(b@.drop_first() =~= b@.subrange(1, b@.len() as int));
        parse_digits(b, 1, u64::MAX)
    } else {
        assert(b@ =~= b@.subrange(0, b@.len() as int));
        parse_digits(b, 0, u64::MAX)
    }
}

/// Parses a signed decimal, as `str::parse` does for `i64`.
pub fn parse_i64(s: &str) -> (r: Option<i64>)
    ensures
        match signed_value(s.spec_bytes()) {
            Some(v) => if i64::MIN <= v <= i64::MAX {
                r == Some(v as i64)
            } else {
                r is None
            },
            None => r is None,
        },
{
    let b = s.as_bytes();
    proof {
        if digits_only(b@) is Some {
            lemma_digits_nonneg(b@);
        }
        if digits_only(b@.drop_first()) is Some {
            lemma_digits_nonneg(b@.drop_first());
        }
    }
    if b.len() > 0 && b[0] == 45 {
        assert(b@.drop_first() =~= b@.subrange(1, b@.len() as int));
        match parse_digits(b, 1, 0x8000_0000_0000_0000) {
            None => None,
            Some(m) => if m == 0x8000_0000_0000_0000 {
                Some(i64::MIN)
            } else {
                Some(-(m as i64))
            },
        }
    } else {
        let sb = b;
        if sb.len() > 0 && sb[0] == 43 {
            assert(sb@.drop_first() =~= sb@.subrange(1, sb@.len() as int));
            match parse_digits(sb, 1, 0x7fff_ffff_ffff_ffff) {
                None => None,
                Some(v) => Some(v as i64),
            }
        } else {
            assert(sb@ =~= sb@.subrange(0, sb@.len() as int));
            match parse_digits(sb, 0, 0x7fff_ffff_ffff_ffff) {
                None => None,
                Some(v) => Some(v as i64),
            }
        }
    }
}

/// Why the attributes of a changeset do not make one.
#[derive(Debug, Clone, Copy, PartialEq, Eq, Structural)]
pub enum ChangesetError {
    /// `open` is neither `true` nor `false`.
    UnknownOpenValue,
    /// A numeric attribute is not a number of its type.
    BadNumber,
    /// A required attribute is missing.
    MissingField,
}

/// The attributes of a changeset element read so far.
#[derive(Debug, Clone)]
pub struct ChangesetBuilder {
    pub id: Option<u32>,
    pub created: Option<String>,
    pub closed: Option<String>,
    pub open: Option<bool>,
    pub uid: Option<i64>,
    pub user: Option<String>,
    pub num_changes: Option<u64>,
    pub comments_count: Option<u64>,
}

pub struct AttrsView {
    pub id: Option<u32>,
    pub created: Option<Seq<char>>,
    pub closed: Option<Seq<char>>,
    pub open: Option<bool>,
    pub uid: Option<i64>,
    pub user: Option<Seq<char>>,
    pub num_changes: Option<u64>,
    pub comments_count: Option<u64>,
}

pub open spec fn opt_view(o: Option<String>) -> Option<Seq<char>> {
    match o {
        Some(s) => Some(s@),
        None => None,
    }
}

impl View for ChangesetBuilder {
    type V = AttrsView;

    open spec fn view(&self) -> AttrsView {
        AttrsView {
            id: self.id,
            created: opt_view(self.created),
            closed: opt_view(self.closed),
            open: self.open,
            uid: self.uid,
            user: opt_view(self.user),
            num_changes: self.num_changes,
            comments_count: self.comments_count,
        }
    }
}

/// The attributes after reading `key="value"`; `bytes` are the UTF-8 bytes
/// of the value. Unknown keys are ignored.
pub open spec fn apply_attr(a: AttrsView, key: Seq<char>, value: Seq<char>, bytes: Seq<u8>) -> Result<
    AttrsView,
    ChangesetError,
> {
    if key == "id"@ {
        match unsigned_value(bytes) {
            Some(v) => if v <= u32::MAX {
                Ok(AttrsView { id: Some(v as u32), ..a })
            } else {
                Err(ChangesetError::BadNumber)
            },
            None => Err(ChangesetError::BadNumber),
        }
    } else if key == "created_at"@ {
        Ok(AttrsView { created: Some(value), ..a })
    } else if key == "closed_at"@ {
        Ok(AttrsView { closed: Some(value), ..a })
    } else if key == "open"@ {
        if value == "true"@ {
            Ok(AttrsView { open: Some(true), ..a })
        } else if value == "false"@ {
            Ok(AttrsView { open: Some(false), ..a })
        } else {
            Err(ChangesetError::UnknownOpenValue)
        }
    } else if key == "user"@ {
        Ok(AttrsView { user: Some(value), ..a })
    } else if key == "uid"@ {
        match signed_value(bytes) {
            Some(v) => if i64::MIN <= v <= i64::MAX {
                Ok(AttrsView { uid: Some(v as i64), ..a })
            } else {
                Err(ChangesetError::BadNumber)
            },
            None => Err(ChangesetError::BadNumber),
        }
    } else if key == "num_changes"@ || key == "comments_count"@ {
        match unsigned_value(bytes) {
            Some(v) => if v <= u64::MAX {
                if key == "num_changes"@ {
                    Ok(AttrsView { num_changes: Some(v as u64), ..a })
                } else {
                    Ok(AttrsView { comments_count: Some(v as u64), ..a })
                }
            } else {
                Err(ChangesetError::BadNumber)
            },
            None => Err(ChangesetError::BadNumber),
        }
    } else {
        Ok(a)
    }
}

impl ChangesetBuilder {
    pub fn new() -> (r: ChangesetBuilder)
        ensures
            r.id is None && r.created is None && r.closed is None && r.open is None && r.uid is None
                && r.user is None && r.num_changes is None && r.comments_count is None,
    {
        ChangesetBuilder {
            id: None,
            created: None,
            closed: None,
            open: None,
            uid: None,
            user: None,
            num_changes: None,
            comments_count: None,
        }
    }

    /// Records the attribute `key="value"` of a changeset element.
    pub fn set_attribute(&mut self, key: &str, value: &str) -> (r: Result<(), ChangesetError>)
        ensures
            match apply_attr(old(self)@, key@, value@, value.spec_bytes()) {
                Ok(v) => r is Ok && final(self)@ == v,
                Err(e) => r == Err::<(), ChangesetError>(e) && final(self)@ == old(self)@,
            },
    {
        let k = key.to_owned();
        let v = value.to_owned();
        if k == "id".to_owned() {
            match parse_u64(value) {
                Some(n) => {
                    if n <= 0xffff_ffff {
                        self.id = Some(n as u32);
                        Ok(())
                    } else {
                        Err(ChangesetError::BadNumber)
                    }
                },
                None => Err(ChangesetError::BadNumber),
            }
        } else if k == "created_at".to_owned() {
            self.created = Some(v);
            Ok(())
        } else if k == "closed_at".to_owned() {
            self.closed = Some(v);
            Ok(())
        } else if k == "open".to_owned() {
            if v == "true".to_owned() {
                self.open = Some(true);
                Ok(())
            } else if v == "false".to_owned() {
                self.open = Some(false);
                Ok(())
            } else {
                Err(ChangesetError::UnknownOpenValue)
            }
        } else if k == "user".to_owned() {
            self.user = Some(v);
            Ok(())
        } else if k == "uid".to_owned() {
            match parse_i64(value) {
                Some(n) => {
                    self.uid = Some(n);
                    Ok(())
                },
                None => Err(ChangesetError::BadNumber),
            }
        } else if k == "num_changes".to_owned() || k == "comments_count".to_owned() {
            match parse_u64(value) {
                Some(n) => {
                    if k == "num_changes".to_owned() {
                        self.num_changes = Some(n);
                    } else {
                        self.comments_count = Some(n);
                    }
                    Ok(())
                },
                None => Err(ChangesetError::BadNumber),
            }
        } else {
            Ok(())
        }
    }

    /// The changeset, once `id`, `created_at`, `open`, `num_changes` and
    /// `comments_count` have been read. A key given twice keeps its later value.
    pub fn build(self, tags: Vec<(String, String)>) -> (r: Result<Changeset, ChangesetError>)
        ensures
            match (self.id, self.created, self.open, self.num_changes, self.comments_count) {
                (Some(id), Some(created), Some(open), Some(num_changes), Some(comments_count)) => r
                    matches Ok(c) && c.id == id && c.created == TimestampFormat::ISOString(created)
                    && c.closed == (match self.closed {
                    Some(x) => Some(TimestampFormat::ISOString(x)),
                    None => None,
                }) && c.open == open && c.uid == self.uid && c.user == self.user && c.num_changes
                    == num_changes && c.comments_count == comments_count && keys_unique(c.tags@)
                    && forall|key: Seq<char>| #[trigger]
                    tags_lookup(c.tags@, key) == tags_lookup(tags@, key),
                _ => r == Err::<Changeset, ChangesetError>(ChangesetError::MissingField),
            },
    {
        match (self.id, self.created, self.open, self.num_changes, self.comments_count) {
            (Some(id), Some(created), Some(open), Some(num_changes), Some(comments_count)) => {
                let mut unique: Vec<(String, String)> = Vec::new();
                let mut i: usize = 0;
                while i < tags.len()
                    invariant
                        i <= tags@.len(),
                        keys_unique(unique@),
                        forall|key: Seq<char>| #[trigger]
                            tags_lookup(unique@, key) == tags_lookup(tags@.take(i as int), key),
                    decreases tags@.len() - i,
                {
                    assert(tags@.take(i + 1).drop_last() =~= tags@.take(i as int));
                    let k = tags[i].0.clone();
                    let v = tags[i].1.clone();
                    set_tag(&mut unique, k, v);
                    i = i + 1;
                }
                assert(tags@.take(i as int) =~= tags@);
                Ok(
                    Changeset {
                        id,
                        created: TimestampFormat::ISOString(created),
                        closed: match self.closed {
                            Some(c) => Some(TimestampFormat::ISOString(c)),
                            None => None,
                        },
                        open,
                        uid: self.uid,
                        user: self.user,
                        tags: unique,
                        num_changes,
                        comments_count,
                    },
                )
            },
            _ => Err(ChangesetError::MissingField),
        }
    }
}

} // verus!
