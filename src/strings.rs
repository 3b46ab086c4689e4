//! The string table of a block.
use vstd::prelude::*;
use vstd::slice::slice_subrange;
use vstd::utf8::{decode_utf8, valid_utf8};

verus! {

/// The text of a byte string, or `None` when the bytes are not UTF-8.
pub open spec fn utf8_text(b: Seq<u8>) -> Option<Seq<char>> {
    if valid_utf8(b) {
        Some(decode_utf8(b))
    } else {
        None
    }
}

/// Relies on std::str::from_utf8: it accepts exactly the valid UTF-8 byte
/// strings, and the text it gives is their decoding.
#[verifier::external_body]
fn text_of(b: &[u8]) -> (r: Option<String>)
    ensures
        r is Some <==> valid_utf8(b@),
        r matches Some(t) ==> t@ == decode_utf8(b@),
{
    match std::str::from_utf8(b) {
        Ok(t) => Some(t.to_string()),
        Err(_) => None,
    }
}

/// What index `i` of a table built from the raw strings `raw` resolves to.
/// Index 0 is the empty sentinel; an index past the end resolves to nothing.
pub open spec fn entry_of(raw: Seq<Seq<u8>>, i: int) -> Option<Seq<char>> {
    if i == 0 {
        Some(Seq::empty())
    } else if 0 < i < raw.len() {
        utf8_text(raw[i])
    } else {
        None
    }
}

/// The view of a string table: the text at each index, `None` where absent.
pub type TableView = Seq<Option<Seq<char>>>;

/// What index `i` resolves to in a table; past the end it resolves to nothing.
pub open spec fn resolve_in(t: TableView, i: int) -> Option<Seq<char>> {
    if 0 <= i < t.len() {
        t[i]
    } else {
        None
    }
}

/// The table built from the raw strings `raw`: never empty, with the empty
/// string at index 0.
pub open spec fn table_spec(raw: Seq<Seq<u8>>) -> TableView {
    Seq::new(if raw.len() == 0 { 1 } else { raw.len() }, |i: int| entry_of(raw, i))
}

/// The raw strings of a table, held as ranges of the block's bytes.
pub open spec fn raw_strings(s: Seq<u8>, ranges: Seq<(usize, usize)>) -> Seq<Seq<u8>> {
    ranges.map_values(|r: (usize, usize)| s.subrange(r.0 as int, r.1 as int))
}

/// The strings of a block; an entry is `None` where its bytes were not text.
pub struct StringTable {
    pub entries: Vec<Option<String>>,
}

impl View for StringTable {
    type V = Seq<Option<Seq<char>>>;

    open spec fn view(&self) -> Seq<Option<Seq<char>>> {
        self.entries@.map_values(
            |e: Option<String>|
                match e {
                    Some(t) => Some(t@),
                    None => None,
                },
        )
    }
}

impl StringTable {
    /// The text at index `i` of the table, when there is one.
    pub open spec fn resolve(&self, i: int) -> Option<Seq<char>> {
        resolve_in(self@, i)
    }

    pub open spec fn wf(&self) -> bool {
        self@.len() >= 1 && self@[0] == Some(Seq::<char>::empty())
    }

    /// Builds the table from the raw strings `s[a..b]` of `ranges`; index 0 is
    /// always the empty string.
    pub fn from_ranges(s: &[u8], raw: &Vec<(usize, usize)>) -> (r: StringTable)
        requires
            forall|i: int| 0 <= i < raw@.len() ==> #[trigger] raw@[i].0 <= raw@[i].1 <= s@.len(),
        ensures
            r.wf(),
            r@ == table_spec(raw_strings(s@, raw@)),
    {
        let ghost rv = raw_strings(s@, raw@);
        let mut entries: Vec<Option<String>> = Vec::new();
        entries.push(Some(String::new()));
        let mut i: usize = 1;
        while i < raw.len()
            invariant
                1 <= i,
                i == 1 || i <= raw@.len(),
                entries@.len() == i,
                rv == raw_strings(s@, raw@),
                forall|i: int| 0 <= i < raw@.len() ==> #[trigger] raw@[i].0 <= raw@[i].1 <= s@.len(),
                entries@[0] matches Some(t) && t@ == Seq::<char>::empty(),
                forall|j: int|
                    0 < j < i ==> match #[trigger] entries@[j] {
                        Some(t) => utf8_text(rv[j]) == Some(t@),
                        None => utf8_text(rv[j]) is None,
                    },
            decreases raw@.len() - i,
        {
            let (a, b) = raw[i];
            let t = text_of(slice_subrange(s, a, b));
            entries.push(t);
            i = i + 1;
        }
        assert(entries@.len() == 1 || entries@.len() == raw@.len());
        let r = StringTable { entries };
        assert(r@.len() == r.entries@.len());
        assert(r@[0] == Some(Seq::<char>::empty()));
        assert forall|i: int| 0 <= i < r@.len() implies #[trigger] r@[i] == entry_of(rv, i) by {
            assert(rv.len() == raw@.len());
            if 0 <= i < r@.len() {
                let e = r.entries@[i];
                assert(r@[i] == match e {
                    Some(t) => Some(t@),
                    None => None,
                });
                if i > 0 {
                    assert(match e {
                        Some(t) => utf8_text(rv[i]) == Some(t@),
                        None => utf8_text(rv[i]) is None,
                    });
                }
            }
        }
        assert(r@ =~= table_spec(rv));
        r
    }

    /// The text at index `idx`, if the table holds text there.
    pub fn get(&self, idx: i64) -> (r: Option<&String>)
        ensures
            match self.resolve(idx as int) {
                Some(t) => r is Some && r->0@ == t,
                None => r is None,
            },
    {
        if idx < 0 || idx as u64 >= self.entries.len() as u64 {
            return None;
        }
        match &self.entries[idx as usize] {
            Some(t) => Some(t),
            None => None,
        }
    }
}

/// Index 0 of every table resolves to the empty string, never to "absent",
/// whatever the raw strings hold.
pub proof fn lemma_index_zero_is_empty(raw: Seq<Seq<u8>>)
    ensures
        resolve_in(table_spec(raw), 0) == Some(Seq::<char>::empty()),
{
}

} // verus!
