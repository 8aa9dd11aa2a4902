use vstd::prelude::*;

verus! {

/// Two characters are equal once ASCII upper-case letters are lowered.
pub open spec fn chars_eq_ignore_ascii_case(a: char, b: char) -> bool {
    let x = a as u32 as int;
    let y = b as u32 as int;
    let lx = if 65 <= x && x <= 90 { x + 32 } else { x };
    let ly = if 65 <= y && y <= 90 { y + 32 } else { y };
    lx == ly
}

/// ASCII case-insensitive equality of two strings.
pub open spec fn eq_ignore_ascii_case_spec(a: Seq<char>, b: Seq<char>) -> bool {
    &&& a.len() == b.len()
    &&& forall|i: int| 0 <= i < a.len() ==> chars_eq_ignore_ascii_case(#[trigger] a[i], b[i])
}

fn char_eq_ignore_case(a: char, b: char) -> (r: bool)
    ensures
        r == chars_eq_ignore_ascii_case(a, b),
{
    let x = a as u32;
    let y = b as u32;
    let lx = if 65 <= x && x <= 90 { x + 32 } else { x };
    let ly = if 65 <= y && y <= 90 { y + 32 } else { y };
    lx == ly
}

/// Whether two strings are equal once ASCII upper-case letters are lowered.
pub fn eq_ignore_case(a: &str, b: &str) -> (r: bool)
    ensures
        r == eq_ignore_ascii_case_spec(a@, b@),
{
    let n = a.unicode_len();
    if n != b.unicode_len() {
        return false;
    }
    let mut i: usize = 0;
    while i < n
        invariant
            0 <= i <= n,
            n == a@.len(),
            n == b@.len(),
            forall|k: int| 0 <= k < i ==> chars_eq_ignore_ascii_case(#[trigger] a@[k], b@[k]),
        decreases n - i,
    {
        if !char_eq_ignore_case(a.get_char(i), b.get_char(i)) {
            return false;
        }
        i = i + 1;
    }
    true
}

/// A key/value tag attached to a resource; either side may be absent.
#[derive(Debug, Clone)]
pub struct Tag {
    pub key: Option<String>,
    pub value: Option<String>,
}

/// The view of a tag: its key and value as character sequences.
pub struct TagView {
    pub key: Option<Seq<char>>,
    pub value: Option<Seq<char>>,
}

pub open spec fn opt_view(o: Option<String>) -> Option<Seq<char>> {
    match o {
        Some(s) => Some(s@),
        None => None,
    }
}

impl View for Tag {
    type V = TagView;

    open spec fn view(&self) -> TagView {
        TagView { key: opt_view(self.key), value: opt_view(self.value) }
    }
}

impl Tag {
    pub fn new(key: &str, value: &str) -> (r: Tag)
        ensures
            opt_view(r.key) == Some(key@),
            opt_view(r.value) == Some(value@),
    {
        Tag { key: Some(String::from_str(key)), value: Some(String::from_str(value)) }
    }
}

/// A predicate on a tag list: some tag has this key and value, ignoring ASCII case.
#[derive(Debug, Clone, PartialEq, Eq, Hash)]
pub struct TagFilter {
    pub key: String,
    pub value: String,
}

/// One tag satisfies the filter given by `key` and `value`.
pub open spec fn tag_matches(key: Seq<char>, value: Seq<char>, t: TagView) -> bool {
    &&& t.key is Some
    &&& t.value is Some
    &&& eq_ignore_ascii_case_spec(t.key->0, key)
    &&& eq_ignore_ascii_case_spec(t.value->0, value)
}

/// Some tag of the list satisfies the filter.
pub open spec fn filter_matches(key: Seq<char>, value: Seq<char>, tags: Seq<TagView>) -> bool {
    exists|i: int| 0 <= i < tags.len() && #[trigger] tag_matches(key, value, tags[i])
}

/// A filter set as a sequence of (key, value) pairs.
pub open spec fn filters_view(filters: Seq<TagFilter>) -> Seq<(Seq<char>, Seq<char>)> {
    filters.map_values(|f: TagFilter| (f.key@, f.value@))
}

/// Every filter of the set is satisfied by the tag list.
pub open spec fn satisfies_all(filters: Seq<(Seq<char>, Seq<char>)>, tags: Seq<TagView>) -> bool {
    forall|j: int|
        0 <= j < filters.len() ==> filter_matches((#[trigger] filters[j]).0, filters[j].1, tags)
}

pub open spec fn tags_view(tags: Seq<Tag>) -> Seq<TagView> {
    tags.map_values(|t: Tag| t@)
}

impl TagFilter {
    pub fn new(key: &str, value: &str) -> (r: TagFilter)
        ensures
            r.key@ == key@,
            r.value@ == value@,
    {
        TagFilter { key: String::from_str(key), value: String::from_str(value) }
    }

    /// Whether some tag of `tags` carries this filter's key and value.
    pub fn matches(&self, tags: &[Tag]) -> (r: bool)
        ensures
            r == filter_matches(self.key@, self.value@, tags_view(tags@)),
    {
        let mut i: usize = 0;
        while i < tags.len()
            invariant
                0 <= i <= tags@.len(),
                forall|k: int|
                    0 <= k < i ==> !tag_matches(self.key@, self.value@, #[trigger] tags@[k]@),
            decreases tags@.len() - i,
        {
            let t = &tags[i];
            let hit = match (&t.key, &t.value) {
                (Some(k), Some(v)) => eq_ignore_case(k.as_str(), self.key.as_str())
                    && eq_ignore_case(v.as_str(), self.value.as_str()),
                _ => false,
            };
            if hit {
                assert(tags_view(tags@)[i as int] == tags@[i as int]@);
                assert(tag_matches(self.key@, self.value@, tags_view(tags@)[i as int]));
                return true;
            }
            i = i + 1;
        }
        assert forall|k: int| 0 <= k < tags_view(tags@).len() implies !tag_matches(
            self.key@,
            self.value@,
            #[trigger] tags_view(tags@)[k],
        ) by {
            assert(tags_view(tags@)[k] == tags@[k]@);
        }
        false
    }
}

/// Whether a tag list satisfies every filter of a set.
pub fn matches_all(filters: &Vec<TagFilter>, tags: &[Tag]) -> (r: bool)
    ensures
        r == satisfies_all(filters_view(filters@), tags_view(tags@)),
{
    let mut j: usize = 0;
    while j < filters.len()
        invariant
            0 <= j <= filters@.len(),
            forall|k: int|
                0 <= k < j ==> filter_matches(
                    (#[trigger] filters@[k]).key@,
                    filters@[k].value@,
                    tags_view(tags@),
                ),
        decreases filters@.len() - j,
    {
        if !filters[j].matches(tags) {
            assert(filters_view(filters@)[j as int] == (
                filters@[j as int].key@,
                filters@[j as int].value@,
            ));
            return false;
        }
        j = j + 1;
    }
    assert forall|k: int| 0 <= k < filters_view(filters@).len() implies filter_matches(
        (#[trigger] filters_view(filters@)[k]).0,
        filters_view(filters@)[k].1,
        tags_view(tags@),
    ) by {
        assert(filters_view(filters@)[k] == (filters@[k].key@, filters@[k].value@));
    }
    true
}

} // verus!
