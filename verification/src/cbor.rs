//! What the library reads of a CBOR document: the entries of a top-level map.
use vstd::prelude::*;

verus! {

/// A key or a value of a CBOR map.
pub enum CborItem {
    Integer(i128),
    Bytes(Vec<u8>),
    Text(String),
    /// Any other kind of CBOR item.
    Other,
}

/// A CBOR document.
pub enum CborDocument {
    /// A map, with its entries in the order in which they were written.
    Entries(Vec<(CborItem, CborItem)>),
    /// Anything but a map.
    Other,
}

/// What a key or a value of a CBOR map is.
pub enum CborItemView {
    Integer(int),
    Bytes(Seq<u8>),
    Text(Seq<char>),
    Other,
}

/// What a CBOR document is.
pub enum CborView {
    Entries(Seq<(CborItemView, CborItemView)>),
    Other,
}

impl View for CborItem {
    type V = CborItemView;

    open spec fn view(&self) -> CborItemView {
        match *self {
            CborItem::Integer(i) => CborItemView::Integer(i as int),
            CborItem::Bytes(b) => CborItemView::Bytes(b@),
            CborItem::Text(t) => CborItemView::Text(t@),
            CborItem::Other => CborItemView::Other,
        }
    }
}

/// The entries of a map, each by what its key and its value are.
pub open spec fn entries_view(entries: Seq<(CborItem, CborItem)>) -> Seq<
    (CborItemView, CborItemView),
> {
    Seq::new(entries.len(), |i: int| (entries[i].0@, entries[i].1@))
}

impl View for CborDocument {
    type V = CborView;

    open spec fn view(&self) -> CborView {
        match *self {
            CborDocument::Entries(entries) => CborView::Entries(entries_view(entries@)),
            CborDocument::Other => CborView::Other,
        }
    }
}

/// What an optional CBOR document is.
pub open spec fn document_view(document: Option<CborDocument>) -> Option<CborView> {
    match document {
        Some(d) => Some(d@),
        None => None,
    }
}

/// The value of the first entry under `key`.
pub open spec fn entry_under(
    entries: Seq<(CborItemView, CborItemView)>,
    key: CborItemView,
) -> Option<CborItemView>
    decreases entries.len(),
{
    if entries.len() == 0 {
        None
    } else if entries.first().0 == key {
        Some(entries.first().1)
    } else {
        entry_under(entries.drop_first(), key)
    }
}

/// An entry is found under a key exactly where the map has one, and then it is the first.
pub proof fn law_first_entry_is_found(
    entries: Seq<(CborItemView, CborItemView)>,
    key: CborItemView,
)
    ensures
        match entry_under(entries, key) {
            Some(value) => exists|i: int|
                0 <= i < entries.len() && #[trigger] entries[i] == (key, value) && forall|j: int|
                    0 <= j < i ==> (#[trigger] entries[j]).0 != key,
            None => forall|j: int| 0 <= j < entries.len() ==> (#[trigger] entries[j]).0 != key,
        },
    decreases entries.len(),
{
    if entries.len() > 0 && entries.first().0 != key {
        let rest = entries.drop_first();
        law_first_entry_is_found(rest, key);
        assert(forall|j: int| 0 < j < entries.len() ==> #[trigger] entries[j] == rest[j - 1]);
        if let Some(value) = entry_under(rest, key) {
            let i = choose|i: int|
                0 <= i < rest.len() && #[trigger] rest[i] == (key, value) && forall|j: int|
                    0 <= j < i ==> (#[trigger] rest[j]).0 != key;
            assert(entries[i + 1] == (key, value));
        }
    } else if entries.len() > 0 {
        assert(entries[0] == (key, entries.first().1));
    }
}

/// What an optional item is.
pub open spec fn item_view(item: Option<&CborItem>) -> Option<CborItemView> {
    match item {
        Some(i) => Some(i@),
        None => None,
    }
}

/// The value of the first entry under the text `key`.
pub fn cbor_map_get<'a>(map: &'a Vec<(CborItem, CborItem)>, key: &str) -> (r: Option<&'a CborItem>)
    ensures
        item_view(r) == entry_under(entries_view(map@), CborItemView::Text(key@)),
{
    let ghost entries = entries_view(map@);
    let mut i: usize = 0;
    assert(entries.skip(0) =~= entries);
    while i < map.len()
        invariant
            i <= map.len(),
            entries == entries_view(map@),
            entry_under(entries, CborItemView::Text(key@)) == entry_under(
                entries.skip(i as int),
                CborItemView::Text(key@),
            ),
        decreases map.len() - i,
    {
        assert(entries.skip(i as int).first() == entries[i as int]);
        assert(entries.skip(i as int).drop_first() =~= entries.skip(i + 1));
        if let CborItem::Text(t) = &map[i].0 {
            if crate::text::same_text(t.as_str(), key) {
                return Some(&map[i].1);
            }
        }
        i = i + 1;
    }
    None
}

/// The value of the first entry under the integer `key`.
pub fn cbor_map_get_int<'a>(map: &'a Vec<(CborItem, CborItem)>, key: i128) -> (r: Option<
    &'a CborItem,
>)
    ensures
        item_view(r) == entry_under(entries_view(map@), CborItemView::Integer(key as int)),
{
    let ghost entries = entries_view(map@);
    let mut i: usize = 0;
    assert(entries.skip(0) =~= entries);
    while i < map.len()
        invariant
            i <= map.len(),
            entries == entries_view(map@),
            entry_under(entries, CborItemView::Integer(key as int)) == entry_under(
                entries.skip(i as int),
                CborItemView::Integer(key as int),
            ),
        decreases map.len() - i,
    {
        assert(entries.skip(i as int).first() == entries[i as int]);
        assert(entries.skip(i as int).drop_first() =~= entries.skip(i + 1));
        if let CborItem::Integer(n) = &map[i].0 {
            if *n == key {
                return Some(&map[i].1);
            }
        }
        i = i + 1;
    }
    None
}

} // verus!
