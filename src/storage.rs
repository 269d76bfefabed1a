//! The bookmark/tag document: its resources, the queries over its tags, and the
//! rules a document must meet before it is stored.
use vstd::prelude::*;

verus! {

/// An instant in UTC: whole seconds since the Unix epoch and the nanoseconds past them.
#[derive(Debug, PartialEq, Eq, Structural, Clone, Copy)]
pub struct Timestamp {
    pub secs: i64,
    pub nanos: u32,
}

/// The document's format-version tag.
#[derive(Debug, Clone, PartialEq)]
pub struct JsonApiVersion {
    pub version: String,
}

/// A typed reference to another resource of the document.
#[derive(Debug, Clone, PartialEq)]
pub struct ResourceIdentifier {
    pub resource_type: String,
    pub id: String,
}

#[derive(Debug, Clone, PartialEq)]
pub struct RelationshipData {
    pub data: Vec<ResourceIdentifier>,
}

/// The tags a bookmark refers to.
#[derive(Debug, Clone, PartialEq)]
pub struct BookmarkRelationships {
    pub tags: Option<RelationshipData>,
}

#[derive(Debug, Clone, PartialEq)]
pub struct BookmarkAttributes {
    pub url: String,
    pub title: String,
    pub created: Timestamp,
    pub modified: Option<Timestamp>,
    pub notes: Option<String>,
}

#[derive(Debug, Clone, PartialEq)]
pub struct TagAttributes {
    pub name: String,
    pub color: Option<String>,
    pub description: Option<String>,
}

#[derive(Debug, Clone, PartialEq)]
pub struct ParentRelationship {
    pub data: Option<ResourceIdentifier>,
}

/// The parent a tag refers to.
#[derive(Debug, Clone, PartialEq)]
pub struct TagRelationships {
    pub parent: Option<ParentRelationship>,
}

/// Every resource is exactly one of a bookmark or a tag.
#[derive(Debug, Clone, PartialEq)]
pub enum Resource {
    Bookmark {
        id: String,
        attributes: BookmarkAttributes,
        relationships: Option<BookmarkRelationships>,
    },
    Tag { id: String, attributes: TagAttributes, relationships: Option<TagRelationships> },
}

/// The whole collection: a version tag, the primary resources and the auxiliary ones.
#[derive(Debug, Clone, PartialEq)]
pub struct BookmarksData {
    pub jsonapi: JsonApiVersion,
    pub data: Vec<Resource>,
    pub included: Option<Vec<Resource>>,
}

/// A resource of the wrong kind was handed to an `add_*` operation.
#[derive(Debug, PartialEq, Eq, Structural, Clone, Copy)]
pub enum KindMismatch {
    ExpectedBookmark,
    ExpectedTag,
}

pub open spec fn supported_version() -> Seq<char> {
    seq!['1', '.', '1']
}

pub open spec fn res_id(r: Resource) -> Seq<char> {
    match r {
        Resource::Bookmark { id, .. } => id@,
        Resource::Tag { id, .. } => id@,
    }
}

pub open spec fn is_tag(r: Resource) -> bool {
    r is Tag
}

pub open spec fn tag_name(r: Resource) -> Seq<char> {
    match r {
        Resource::Tag { attributes, .. } => attributes.name@,
        Resource::Bookmark { .. } => Seq::empty(),
    }
}

/// The identifier a tag names as its parent, if it names one.
pub open spec fn tag_parent(r: Resource) -> Option<Seq<char>> {
    match r {
        Resource::Tag { relationships: Some(rels), .. } => match rels.parent {
            Some(p) => match p.data {
                Some(d) => Some(d.id@),
                None => None,
            },
            None => None,
        },
        _ => None,
    }
}

/// The tags of `s`, in order.
pub open spec fn tags_in(s: Seq<Resource>) -> Seq<Resource>
    decreases s.len(),
{
    if s.len() == 0 {
        Seq::empty()
    } else if is_tag(s.last()) {
        tags_in(s.drop_last()).push(s.last())
    } else {
        tags_in(s.drop_last())
    }
}

/// The bookmarks of `s`, in order.
pub open spec fn bookmarks_in(s: Seq<Resource>) -> Seq<Resource>
    decreases s.len(),
{
    if s.len() == 0 {
        Seq::empty()
    } else if s.last() is Bookmark {
        bookmarks_in(s.drop_last()).push(s.last())
    } else {
        bookmarks_in(s.drop_last())
    }
}

pub open spec fn refs_view(v: Seq<&Resource>) -> Seq<Resource> {
    v.map_values(|r: &Resource| *r)
}

pub open spec fn strs(v: Seq<String>) -> Seq<Seq<char>> {
    v.map_values(|s: String| s@)
}

impl BookmarksData {
    /// The auxiliary resources, empty where there are none.
    pub open spec fn included_seq(&self) -> Seq<Resource> {
        match self.included {
            Some(v) => v@,
            None => Seq::empty(),
        }
    }

    /// Primary then auxiliary resources.
    pub open spec fn all_resources(&self) -> Seq<Resource> {
        self.data@ + self.included_seq()
    }

    /// The tags of both lists: primary first.
    pub open spec fn tag_seq(&self) -> Seq<Resource> {
        tags_in(self.data@) + tags_in(self.included_seq())
    }

    /// An empty document with the supported version tag.
    pub fn new() -> (r: Self)
        ensures
            r.jsonapi.version@ == supported_version(),
            r.data@.len() == 0,
            r.included is None,
    {
        let v = String::from_str("1.1");
        proof {
            reveal_strlit("1.1");
            assert(v@ =~= supported_version());
        }
        BookmarksData { jsonapi: JsonApiVersion { version: v }, data: Vec::new(), included: None }
    }

    /// Appends a bookmark to the primary list; a tag is refused.
    pub fn add_bookmark(&mut self, bookmark: Resource) -> (r: Result<(), KindMismatch>)
        ensures
            final(self).jsonapi == old(self).jsonapi,
            final(self).included == old(self).included,
            bookmark is Bookmark ==> r is Ok && final(self).data@ == old(self).data@.push(bookmark),
            bookmark is Tag ==> r == Err::<(), KindMismatch>(KindMismatch::ExpectedBookmark)
                && final(self).data@ == old(self).data@,
    {
        match bookmark {
            Resource::Bookmark { .. } => {
                self.data.push(bookmark);
                Ok(())
            },
            Resource::Tag { .. } => Err(KindMismatch::ExpectedBookmark),
        }
    }

    /// Appends a tag to the auxiliary list, creating that list if absent; a bookmark is
    /// refused.
    pub fn add_tag(&mut self, tag: Resource) -> (r: Result<(), KindMismatch>)
        ensures
            final(self).jsonapi == old(self).jsonapi,
            final(self).data == old(self).data,
            tag is Tag ==> r is Ok && final(self).included is Some && final(self).included_seq()
                == old(self).included_seq().push(tag),
            tag is Bookmark ==> r == Err::<(), KindMismatch>(KindMismatch::ExpectedTag)
                && final(self).included == old(self).included,
    {
        match tag {
            Resource::Tag { .. } => {
                let mut list = match self.included.take() {
                    Some(v) => v,
                    None => Vec::new(),
                };
                list.push(tag);
                self.included = Some(list);
                Ok(())
            },
            Resource::Bookmark { .. } => Err(KindMismatch::ExpectedTag),
        }
    }

    /// The bookmarks of the primary list, in order.
    pub fn get_bookmarks(&self) -> (r: Vec<&Resource>)
        ensures
            refs_view(r@) == bookmarks_in(self.data@),
    {
        let mut out: Vec<&Resource> = Vec::new();
        let mut i: usize = 0;
        while i < self.data.len()
            invariant
                i <= self.data@.len(),
                refs_view(out@) == bookmarks_in(self.data@.subrange(0, i as int)),
            decreases self.data@.len() - i,
        {
            let r = &self.data[i];
            assert(self.data@.subrange(0, i + 1).drop_last() =~= self.data@.subrange(0, i as int));
            if let Resource::Bookmark { .. } = r {
                out.push(r);
            }
            assert(refs_view(out@) =~= bookmarks_in(self.data@.subrange(0, i + 1)));
            i = i + 1;
        }
        assert(self.data@.subrange(0, i as int) =~= self.data@);
        out
    }

    /// The tags of both lists: primary first, each list in order.
    pub fn get_tags(&self) -> (r: Vec<&Resource>)
        ensures
            refs_view(r@) == self.tag_seq(),
    {
        let mut out: Vec<&Resource> = Vec::new();
        collect_tags(&self.data, &mut out);
        assert(refs_view(out@) =~= tags_in(self.data@));
        match &self.included {
            Some(inc) => {
                collect_tags(inc, &mut out);
            },
            None => {
                assert(refs_view(out@) =~= self.tag_seq());
            },
        }
        out
    }
}

/// Appends the tags of `src`, in order, to `out`.
fn collect_tags<'a>(src: &'a Vec<Resource>, out: &mut Vec<&'a Resource>)
    ensures
        refs_view(final(out)@) == refs_view(old(out)@) + tags_in(src@),
{
    let ghost start = refs_view(out@);
    let mut i: usize = 0;
    while i < src.len()
        invariant
            i <= src@.len(),
            refs_view(out@) == start + tags_in(src@.subrange(0, i as int)),
        decreases src@.len() - i,
    {
        let r = &src[i];
        assert(src@.subrange(0, i + 1).drop_last() =~= src@.subrange(0, i as int));
        let ghost prev = tags_in(src@.subrange(0, i as int));
        let ghost before = out@;
        if let Resource::Tag { .. } = r {
            out.push(r);
            assert(tags_in(src@.subrange(0, i + 1)) == prev.push(*r));
            assert(refs_view(out@) =~= refs_view(before).push(*r));
            assert(refs_view(out@) =~= start + prev.push(*r));
        } else {
            assert(tags_in(src@.subrange(0, i + 1)) == prev);
        }
        i = i + 1;
    }
    assert(src@.subrange(0, i as int) =~= src@);
}


/// The distinct parent identifiers named by `tags`, in order of first mention.
pub open spec fn parents_in(tags: Seq<Resource>) -> Seq<Seq<char>>
    decreases tags.len(),
{
    if tags.len() == 0 {
        Seq::empty()
    } else {
        let prev = parents_in(tags.drop_last());
        match tag_parent(tags.last()) {
            Some(p) => if prev.contains(p) {
                prev
            } else {
                prev.push(p)
            },
            None => prev,
        }
    }
}

/// The identifiers of the tags in `tags` whose parent is `p`, in order.
pub open spec fn children_of(tags: Seq<Resource>, p: Seq<char>) -> Seq<Seq<char>>
    decreases tags.len(),
{
    if tags.len() == 0 {
        Seq::empty()
    } else if tag_parent(tags.last()) == Some(p) {
        children_of(tags.drop_last(), p).push(res_id(tags.last()))
    } else {
        children_of(tags.drop_last(), p)
    }
}

/// Index of the last tag of `tags` with identifier `id`: the one a lookup by
/// identifier finds when later entries replace earlier ones.
pub open spec fn lookup_tag(tags: Seq<Resource>, id: Seq<char>) -> Option<int>
    decreases tags.len(),
{
    if tags.len() == 0 {
        None
    } else if res_id(tags.last()) == id {
        Some(tags.len() - 1)
    } else {
        lookup_tag(tags.drop_last(), id)
    }
}

/// Names from the root down to `cur`, following parent references upward and stopping
/// at an identifier already seen, at an identifier that is no tag, or after as many
/// steps as there are tags.
pub open spec fn walk(tags: Seq<Resource>, cur: Seq<char>, visited: Seq<Seq<char>>) -> Seq<
    Seq<char>,
>
    decreases tags.len() - visited.len(),
{
    if visited.contains(cur) || visited.len() >= tags.len() {
        Seq::empty()
    } else {
        match lookup_tag(tags, cur) {
            None => Seq::empty(),
            Some(k) => match tag_parent(tags[k]) {
                Some(p) => walk(tags, p, visited.push(cur)).push(tag_name(tags[k])),
                None => seq![tag_name(tags[k])],
            },
        }
    }
}

proof fn lemma_lookup_tag_bounds(tags: Seq<Resource>, id: Seq<char>)
    ensures
        match lookup_tag(tags, id) {
            Some(k) => 0 <= k < tags.len() && res_id(tags[k]) == id,
            None => forall|j: int| 0 <= j < tags.len() ==> res_id(#[trigger] tags[j]) != id,
        },
    decreases tags.len(),
{
    if tags.len() > 0 {
        lemma_lookup_tag_bounds(tags.drop_last(), id);
        if res_id(tags.last()) != id {
            match lookup_tag(tags.drop_last(), id) {
                Some(k) => {},
                None => {
                    assert forall|j: int| 0 <= j < tags.len() implies res_id(
                        #[trigger] tags[j],
                    ) != id by {
                        if j < tags.len() - 1 {
                            assert(tags[j] == tags.drop_last()[j]);
                        }
                    }
                },
            }
        }
    }
}

proof fn lemma_parents_distinct(tags: Seq<Resource>)
    ensures
        parents_in(tags).no_duplicates(),
    decreases tags.len(),
{
    if tags.len() > 0 {
        lemma_parents_distinct(tags.drop_last());
    }
}

/// A sequence of distinct items all found in `t` is no longer than the number of distinct
/// items of `t`.
proof fn lemma_distinct_within(s: Seq<Seq<char>>, t: Seq<Seq<char>>)
    requires
        s.no_duplicates(),
        forall|j: int| 0 <= j < s.len() ==> t.contains(#[trigger] s[j]),
    ensures
        s.len() <= t.to_set().len(),
{
    s.unique_seq_to_set();
    vstd::seq_lib::seq_to_set_is_finite(t);
    assert forall|x: Seq<char>| s.to_set().contains(x) implies t.to_set().contains(x) by {
        let j = choose|j: int| 0 <= j < s.len() && s[j] == x;
        assert(t.contains(s[j]));
    }
    vstd::set_lib::lemma_len_subset(s.to_set(), t.to_set());
}

proof fn lemma_walk_len(tags: Seq<Resource>, cur: Seq<char>, visited: Seq<Seq<char>>)
    ensures
        walk(tags, cur, visited).len() <= tags.len() - visited.len() || walk(
            tags,
            cur,
            visited,
        ).len() == 0,
    decreases tags.len() - visited.len(),
{
    if !(visited.contains(cur) || visited.len() >= tags.len()) {
        match lookup_tag(tags, cur) {
            None => {},
            Some(k) => match tag_parent(tags[k]) {
                Some(p) => lemma_walk_len(tags, p, visited.push(cur)),
                None => {},
            },
        }
    }
}

/// Parent identifier to the identifiers of its child tags.
pub struct TagHierarchy {
    parents: Vec<String>,
    children: Vec<Vec<String>>,
}

impl TagHierarchy {
    /// The parent identifiers, in order of first mention.
    pub closed spec fn keys(&self) -> Seq<Seq<char>> {
        strs(self.parents@)
    }

    /// The children of the `k`-th parent.
    pub closed spec fn children_at(&self, k: int) -> Seq<Seq<char>> {
        strs(self.children@[k]@)
    }

    pub closed spec fn wf(&self) -> bool {
        self.parents@.len() == self.children@.len()
    }

    /// Number of parents.
    pub fn len(&self) -> (r: usize)
        requires
            self.wf(),
        ensures
            r == self.keys().len(),
    {
        self.parents.len()
    }

    pub fn contains_key(&self, key: &str) -> (r: bool)
        requires
            self.wf(),
        ensures
            r == self.keys().contains(key@),
    {
        match self.find(key) {
            Some(_) => true,
            None => false,
        }
    }

    /// The children of `key`, if it is a parent.
    pub fn get(&self, key: &str) -> (r: Option<&Vec<String>>)
        requires
            self.wf(),
        ensures
            match r {
                Some(v) => exists|k: int|
                    0 <= k < self.keys().len() && self.keys()[k] == key@ && strs(v@)
                        == self.children_at(k),
                None => !self.keys().contains(key@),
            },
    {
        match self.find(key) {
            Some(k) => {
                assert(self.keys()[k as int] == key@ && strs(self.children@[k as int]@)
                    == self.children_at(k as int));
                Some(&self.children[k])
            },
            None => None,
        }
    }

    fn find(&self, key: &str) -> (r: Option<usize>)
        requires
            self.wf(),
        ensures
            match r {
                Some(k) => k < self.keys().len() && self.keys()[k as int] == key@,
                None => !self.keys().contains(key@),
            },
    {
        let mut i: usize = 0;
        while i < self.parents.len()
            invariant
                self.wf(),
                i <= self.parents@.len(),
                forall|j: int| 0 <= j < i ==> self.keys()[j] != key@,
            decreases self.parents@.len() - i,
        {
            if str_eq(self.parents[i].as_str(), key) {
                return Some(i);
            }
            i = i + 1;
        }
        None
    }
}

/// Whether two strings hold the same characters.
pub fn str_eq(a: &str, b: &str) -> (r: bool)
    ensures
        r == (a@ == b@),
{
    let n = a.unicode_len();
    if n != b.unicode_len() {
        return false;
    }
    let mut i: usize = 0;
    while i < n
        invariant
            n == a@.len(),
            n == b@.len(),
            i <= n,
            forall|j: int| 0 <= j < i ==> a@[j] == b@[j],
        decreases n - i,
    {
        if a.get_char(i) != b.get_char(i) {
            return false;
        }
        i = i + 1;
    }
    assert(a@ =~= b@);
    true
}

fn parent_id_of(r: &Resource) -> (p: Option<&String>)
    ensures
        match p {
            Some(s) => tag_parent(*r) == Some(s@),
            None => tag_parent(*r) is None,
        },
{
    match r {
        Resource::Tag { relationships: Some(rels), .. } => match &rels.parent {
            Some(pr) => match &pr.data {
                Some(d) => Some(&d.id),
                None => None,
            },
            None => None,
        },
        _ => None,
    }
}

fn id_of(r: &Resource) -> (id: &String)
    ensures
        id@ == res_id(*r),
{
    match r {
        Resource::Bookmark { id, .. } => id,
        Resource::Tag { id, .. } => id,
    }
}

fn contains_str(v: &Vec<String>, s: &String) -> (r: bool)
    ensures
        r == strs(v@).contains(s@),
{
    let mut i: usize = 0;
    while i < v.len()
        invariant
            i <= v@.len(),
            forall|j: int| 0 <= j < i ==> strs(v@)[j] != s@,
        decreases v@.len() - i,
    {
        if v[i] == *s {
            assert(strs(v@)[i as int] == s@);
            return true;
        }
        i = i + 1;
    }
    false
}

fn distinct_parents(tags: &Vec<&Resource>) -> (r: Vec<String>)
    ensures
        strs(r@) == parents_in(refs_view(tags@)),
{
    let ghost all = refs_view(tags@);
    let mut out: Vec<String> = Vec::new();
    let mut i: usize = 0;
    while i < tags.len()
        invariant
            all == refs_view(tags@),
            i <= tags@.len(),
            strs(out@) == parents_in(all.subrange(0, i as int)),
        decreases tags@.len() - i,
    {
        assert(all.subrange(0, i + 1).drop_last() =~= all.subrange(0, i as int));
        assert(all.subrange(0, i + 1).last() == *tags@[i as int]);
        match parent_id_of(tags[i]) {
            Some(p) => {
                if !contains_str(&out, p) {
                    let ghost before = out@;
                    out.push(p.clone());
                    assert(strs(out@) =~= strs(before).push(p@));
                }
            },
            None => {},
        }
        i = i + 1;
    }
    assert(all.subrange(0, i as int) =~= all);
    out
}

fn children_for(tags: &Vec<&Resource>, p: &String) -> (r: Vec<String>)
    ensures
        strs(r@) == children_of(refs_view(tags@), p@),
{
    let ghost all = refs_view(tags@);
    let mut out: Vec<String> = Vec::new();
    let mut i: usize = 0;
    while i < tags.len()
        invariant
            all == refs_view(tags@),
            i <= tags@.len(),
            strs(out@) == children_of(all.subrange(0, i as int), p@),
        decreases tags@.len() - i,
    {
        assert(all.subrange(0, i + 1).drop_last() =~= all.subrange(0, i as int));
        assert(all.subrange(0, i + 1).last() == *tags@[i as int]);
        match parent_id_of(tags[i]) {
            Some(q) => {
                if *q == *p {
                    let ghost before = out@;
                    out.push(id_of(tags[i]).clone());
                    assert(strs(out@) =~= strs(before).push(res_id(*tags@[i as int])));
                }
            },
            None => {},
        }
        i = i + 1;
    }
    assert(all.subrange(0, i as int) =~= all);
    out
}

/// Index of the last tag with identifier `id`.
fn find_tag(tags: &Vec<&Resource>, id: &String) -> (r: Option<usize>)
    ensures
        match r {
            Some(k) => lookup_tag(refs_view(tags@), id@) == Some(k as int),
            None => lookup_tag(refs_view(tags@), id@) is None,
        },
{
    let ghost all = refs_view(tags@);
    let mut found: Option<usize> = None;
    let mut i: usize = 0;
    while i < tags.len()
        invariant
            all == refs_view(tags@),
            i <= tags@.len(),
            match found {
                Some(k) => lookup_tag(all.subrange(0, i as int), id@) == Some(k as int),
                None => lookup_tag(all.subrange(0, i as int), id@) is None,
            },
        decreases tags@.len() - i,
    {
        assert(all.subrange(0, i + 1).drop_last() =~= all.subrange(0, i as int));
        assert(all.subrange(0, i + 1).last() == *tags@[i as int]);
        if *id_of(tags[i]) == *id {
            found = Some(i);
        }
        i = i + 1;
    }
    assert(all.subrange(0, i as int) =~= all);
    found
}

impl BookmarksData {
    /// Parent identifier to the identifiers of its children, over all tags: the
    /// parents in order of first mention, each one's children in document order.
    pub fn get_tag_hierarchy(&self) -> (r: TagHierarchy)
        ensures
            r.wf(),
            r.keys() == parents_in(self.tag_seq()),
            r.keys().no_duplicates(),
            forall|k: int|
                0 <= k < r.keys().len() ==> r.children_at(k) == children_of(
                    self.tag_seq(),
                    #[trigger] r.keys()[k],
                ),
    {
        let tags = self.get_tags();
        let parents = distinct_parents(&tags);
        let mut children: Vec<Vec<String>> = Vec::new();
        let mut k: usize = 0;
        while k < parents.len()
            invariant
                refs_view(tags@) == self.tag_seq(),
                k <= parents@.len(),
                children@.len() == k,
                forall|j: int|
                    0 <= j < k ==> strs(#[trigger] children@[j]@) == children_of(
                        self.tag_seq(),
                        strs(parents@)[j],
                    ),
            decreases parents@.len() - k,
        {
            let c = children_for(&tags, &parents[k]);
            children.push(c);
            k = k + 1;
        }
        proof {
            lemma_parents_distinct(self.tag_seq());
        }
        TagHierarchy { parents, children }
    }

    /// Names from the root down to the tag `tag_id`. The walk up the parent references
    /// stops at the first identifier seen twice, so a cycle ends it rather than
    /// repeating.
    pub fn get_tag_breadcrumb(&self, tag_id: &str) -> (r: Vec<String>)
        ensures
            strs(r@) == walk(self.tag_seq(), tag_id@, Seq::empty()),
            r@.len() <= self.tag_seq().len(),
            r@.len() <= ids_of(self.tag_seq()).to_set().len(),
            r@.len() >= 1 <==> lookup_tag(self.tag_seq(), tag_id@) is Some,
    {
        let tags = self.get_tags();
        let ghost all = self.tag_seq();
        let mut visited: Vec<String> = Vec::new();
        let mut out: Vec<String> = Vec::new();
        let mut cur = String::from_str(tag_id);
        assert(strs(visited@) =~= Seq::<Seq<char>>::empty());
        assert(walk(all, tag_id@, Seq::empty()) + strs(out@) =~= walk(all, tag_id@, Seq::empty()));
        loop
            invariant_except_break
                walk(all, tag_id@, Seq::empty()) == walk(all, cur@, strs(visited@)) + strs(
                    out@,
                ),
                out@.len() == visited@.len(),
            invariant
                refs_view(tags@) == all,
                visited@.len() <= all.len(),
                strs(visited@).no_duplicates(),
                forall|j: int|
                    0 <= j < visited@.len() ==> ids_of(all).contains(#[trigger] strs(visited@)[j]),
                out@.len() <= visited@.len() + 1,
            ensures
                walk(all, tag_id@, Seq::empty()) == strs(out@),
                out@.len() <= ids_of(all).to_set().len(),
            decreases all.len() - visited@.len(),
        {
            if visited.len() >= tags.len() || contains_str(&visited, &cur) {
                assert(walk(all, cur@, strs(visited@)) == Seq::<Seq<char>>::empty());
                assert(strs(out@) =~= Seq::<Seq<char>>::empty() + strs(out@));
                proof {
                    lemma_distinct_within(strs(visited@), ids_of(all));
                }
                break ;
            }
            proof {
                lemma_lookup_tag_bounds(all, cur@);
            }
            match find_tag(&tags, &cur) {
                None => {
                    assert(strs(out@) =~= Seq::<Seq<char>>::empty() + strs(out@));
                    proof {
                        lemma_distinct_within(strs(visited@), ids_of(all));
                    }
                    break ;
                },
                Some(k) => {
                    let t = tags[k];
                    assert(*t == all[k as int]);
                    assert(ids_of(all)[k as int] == cur@);
                    let name = match t {
                        Resource::Tag { attributes, .. } => attributes.name.clone(),
                        Resource::Bookmark { .. } => String::new(),
                    };
                    assert(name@ == tag_name(all[k as int]));
                    let ghost before = out@;
                    out.insert(0, name);
                    assert(strs(out@) =~= seq![name@] + strs(before));
                    match parent_id_of(t) {
                        Some(p) => {
                            let ghost vbefore = visited@;
                            let ghost cview = cur@;
                            let next = p.clone();
                            visited.push(cur);
                            assert(strs(visited@) =~= strs(vbefore).push(cview));
                            assert(ids_of(all).contains(cview));
                            assert(walk(all, cview, strs(vbefore)) == walk(all, next@, strs(visited@)).push(name@));
                            assert(walk(all, next@, strs(visited@)).push(name@) + strs(before)
                                =~= walk(all, next@, strs(visited@)) + strs(out@));
                            cur = next;
                        },
                        None => {
                            assert(walk(all, cur@, strs(visited@)) == seq![name@]);
                            proof {
                                assert(ids_of(all).contains(cur@));
                                lemma_distinct_within(strs(visited@).push(cur@), ids_of(all));
                            }
                            break ;
                        },
                    }
                },
            }
        }
        proof {
            lemma_walk_len(all, tag_id@, Seq::empty());
            lemma_lookup_tag_bounds(all, tag_id@);
        }
        out
    }
}


/// The first rule a document breaks.
#[derive(Debug, PartialEq, Eq, Structural, Clone, Copy)]
pub enum ValidationError {
    /// The format-version tag is not the supported one.
    UnsupportedVersion,
    EmptyUrl,
    /// A URL longer than 2048 characters.
    UrlTooLong,
    /// A URL that does not parse as an absolute URL.
    InvalidUrl,
    /// A URL whose scheme is neither `http` nor `https`.
    UnsafeScheme,
    /// A bookmark title longer than 500 characters.
    TitleTooLong,
    /// A tag name that is empty or longer than 100 characters.
    TagNameLength,
    /// A tag name holding `<` or `>`.
    TagNameHtml,
    /// A second resource with an identifier already used.
    DuplicateId,
}

/// The scheme of `s` parsed as an absolute URL, or `None` where it does not parse.
pub uninterp spec fn parsed_url_scheme(s: Seq<char>) -> Option<Seq<char>>;

/// Relies on `url::Url::parse` and `Url::scheme`: the scheme of the parsed URL, `None`
/// where parsing fails.
#[verifier::external_body]
fn url_scheme(s: &str) -> (r: Option<String>)
    ensures
        match r {
            Some(v) => parsed_url_scheme(s@) == Some(v@),
            None => parsed_url_scheme(s@) is None,
        },
{
    url::Url::parse(s).ok().map(|u| u.scheme().to_string())
}

pub open spec fn verdict(e: Option<ValidationError>) -> Result<(), ValidationError> {
    match e {
        Some(x) => Err(x),
        None => Ok(()),
    }
}

pub open spec fn scheme_error(scheme: Option<Seq<char>>) -> Option<ValidationError> {
    match scheme {
        None => Some(ValidationError::InvalidUrl),
        Some(sc) => if sc == seq!['h', 't', 't', 'p'] || sc == seq!['h', 't', 't', 'p', 's'] {
            None
        } else {
            Some(ValidationError::UnsafeScheme)
        },
    }
}

pub open spec fn url_error(url: Seq<char>) -> Option<ValidationError> {
    if url.len() == 0 {
        Some(ValidationError::EmptyUrl)
    } else if url.len() > 2048 {
        Some(ValidationError::UrlTooLong)
    } else {
        scheme_error(parsed_url_scheme(url))
    }
}

pub open spec fn field_error(r: Resource) -> Option<ValidationError> {
    match r {
        Resource::Bookmark { attributes, .. } => match url_error(attributes.url@) {
            Some(e) => Some(e),
            None => if attributes.title@.len() > 500 {
                Some(ValidationError::TitleTooLong)
            } else {
                None
            },
        },
        Resource::Tag { attributes, .. } => if attributes.name@.len() == 0
            || attributes.name@.len() > 100 {
            Some(ValidationError::TagNameLength)
        } else if attributes.name@.contains('<') || attributes.name@.contains('>') {
            Some(ValidationError::TagNameHtml)
        } else {
            None
        },
    }
}

pub open spec fn ids_of(rs: Seq<Resource>) -> Seq<Seq<char>> {
    rs.map_values(|r: Resource| res_id(r))
}

/// The error of one resource, given the resources before it.
pub open spec fn resource_error(r: Resource, earlier: Seq<Resource>) -> Option<ValidationError> {
    match field_error(r) {
        Some(e) => Some(e),
        None => if ids_of(earlier).contains(res_id(r)) {
            Some(ValidationError::DuplicateId)
        } else {
            None
        },
    }
}

/// The first error met going through `rs` in order.
pub open spec fn first_error(rs: Seq<Resource>) -> Option<ValidationError>
    decreases rs.len(),
{
    if rs.len() == 0 {
        None
    } else {
        match first_error(rs.drop_last()) {
            Some(e) => Some(e),
            None => resource_error(rs.last(), rs.drop_last()),
        }
    }
}

/// What `validate` decides for `d`.
pub open spec fn validation_of(d: BookmarksData) -> Result<(), ValidationError> {
    if d.jsonapi.version@ != supported_version() {
        Err(ValidationError::UnsupportedVersion)
    } else {
        verdict(first_error(d.all_resources()))
    }
}

proof fn lemma_first_error_extends(s: Seq<Resource>, n: int)
    requires
        0 <= n <= s.len(),
        first_error(s.subrange(0, n)) is Some,
    ensures
        first_error(s) == first_error(s.subrange(0, n)),
    decreases s.len() - n,
{
    if n < s.len() {
        assert(s.subrange(0, n + 1).drop_last() =~= s.subrange(0, n));
        lemma_first_error_extends(s, n + 1);
    } else {
        assert(s.subrange(0, n) =~= s);
    }
}

/// Whether `s` holds the character `c`.
fn has_char(s: &str, c: char) -> (r: bool)
    ensures
        r == s@.contains(c),
{
    let n = s.unicode_len();
    let mut i: usize = 0;
    while i < n
        invariant
            n == s@.len(),
            i <= n,
            forall|j: int| 0 <= j < i ==> s@[j] != c,
        decreases n - i,
    {
        if s.get_char(i) == c {
            assert(s@[i as int] == c);
            return true;
        }
        i = i + 1;
    }
    false
}

/// The verdict on a URL's parsed scheme: only `http` and `https` pass.
pub fn check_url_scheme(scheme: Option<&str>) -> (r: Result<(), ValidationError>)
    ensures
        r == verdict(
            scheme_error(
                match scheme {
                    Some(s) => Some(s@),
                    None => None,
                },
            ),
        ),
{
    proof {
        reveal_strlit("http");
        reveal_strlit("https");
    }
    match scheme {
        None => Err(ValidationError::InvalidUrl),
        Some(sc) => {
            assert("http"@ =~= seq!['h', 't', 't', 'p']);
            assert("https"@ =~= seq!['h', 't', 't', 'p', 's']);
            if str_eq(sc, "http") || str_eq(sc, "https") {
                Ok(())
            } else {
                Err(ValidationError::UnsafeScheme)
            }
        },
    }
}

/// A bookmark URL must be non-empty, at most 2048 characters, parse as an absolute
/// URL, and use `http` or `https`.
pub fn validate_bookmark_url(url: &str) -> (r: Result<(), ValidationError>)
    ensures
        r == verdict(url_error(url@)),
{
    let n = url.unicode_len();
    if n == 0 {
        return Err(ValidationError::EmptyUrl);
    }
    if n > 2048 {
        return Err(ValidationError::UrlTooLong);
    }
    match url_scheme(url) {
        Some(sc) => check_url_scheme(Some(sc.as_str())),
        None => check_url_scheme(None),
    }
}

fn check_fields(r: &Resource) -> (e: Result<(), ValidationError>)
    ensures
        e == verdict(field_error(*r)),
{
    match r {
        Resource::Bookmark { attributes, .. } => {
            match validate_bookmark_url(attributes.url.as_str()) {
                Err(e) => Err(e),
                Ok(()) => {
                    if attributes.title.as_str().unicode_len() > 500 {
                        Err(ValidationError::TitleTooLong)
                    } else {
                        Ok(())
                    }
                },
            }
        },
        Resource::Tag { attributes, .. } => {
            let name = attributes.name.as_str();
            let n = name.unicode_len();
            if n == 0 || n > 100 {
                Err(ValidationError::TagNameLength)
            } else if has_char(name, '<') || has_char(name, '>') {
                Err(ValidationError::TagNameHtml)
            } else {
                Ok(())
            }
        },
    }
}

/// Checks one resource given the identifiers of those before it, and records its
/// identifier.
fn check_next(r: &Resource, seen: &mut Vec<String>, Ghost(all): Ghost<Seq<Resource>>, Ghost(i): Ghost<int>) -> (e: Result<(), ValidationError>)
    requires
        0 <= i < all.len(),
        all[i] == *r,
        first_error(all.subrange(0, i)) is None,
        strs(old(seen)@) == ids_of(all.subrange(0, i)),
    ensures
        e is Ok ==> first_error(all.subrange(0, i + 1)) is None && strs(final(seen)@) == ids_of(
            all.subrange(0, i + 1),
        ),
        e is Err ==> verdict(first_error(all)) == e,
{
    let ghost prefix = all.subrange(0, i);
    assert(all.subrange(0, i + 1).drop_last() =~= prefix);
    assert(all.subrange(0, i + 1).last() == *r);
    match check_fields(r) {
        Err(e) => {
            proof {
                lemma_first_error_extends(all, i + 1);
            }
            return Err(e);
        },
        Ok(()) => {},
    }
    let id = id_of(r);
    if contains_str(seen, id) {
        proof {
            lemma_first_error_extends(all, i + 1);
        }
        return Err(ValidationError::DuplicateId);
    }
    let ghost before = seen@;
    seen.push(id.clone());
    assert(strs(seen@) =~= strs(before).push(res_id(*r)));
    assert(ids_of(all.subrange(0, i + 1)) =~= ids_of(prefix).push(res_id(*r)));
    Ok(())
}

impl BookmarksData {
    /// Checks the version tag, then every resource of both lists in order: its fields,
    /// then that its identifier is new. Fails with the first rule broken.
    pub fn validate(&self) -> (r: Result<(), ValidationError>)
        ensures
            r == validation_of(*self),
    {
        proof {
            reveal_strlit("1.1");
        }
        assert("1.1"@ =~= supported_version());
        if !str_eq(self.jsonapi.version.as_str(), "1.1") {
            return Err(ValidationError::UnsupportedVersion);
        }
        let ghost all = self.all_resources();
        let ghost dlen = self.data@.len() as int;
        let mut seen: Vec<String> = Vec::new();
        assert(all.subrange(0, 0) =~= Seq::<Resource>::empty());
        assert(strs(seen@) =~= ids_of(all.subrange(0, 0)));
        let mut i: usize = 0;
        while i < self.data.len()
            invariant
                all == self.all_resources(),
                self.jsonapi.version@ == supported_version(),
                dlen == self.data@.len(),
                i <= dlen,
                first_error(all.subrange(0, i as int)) is None,
                strs(seen@) == ids_of(all.subrange(0, i as int)),
            decreases dlen - i,
        {
            let r = &self.data[i];
            if let Err(e) = check_next(r, &mut seen, Ghost(all), Ghost(i as int)) {
                return Err(e);
            }
            i = i + 1;
        }
        if let Some(inc) = &self.included {
            let mut j: usize = 0;
            while j < inc.len()
                invariant
                    all == self.all_resources(),
                    self.jsonapi.version@ == supported_version(),
                    all == self.data@ + inc@,
                    dlen == self.data@.len(),
                    j <= inc@.len(),
                    first_error(all.subrange(0, dlen + j)) is None,
                    strs(seen@) == ids_of(all.subrange(0, dlen + j)),
                decreases inc@.len() - j,
            {
                let r = &inc[j];
                if let Err(e) = check_next(r, &mut seen, Ghost(all), Ghost(dlen + j)) {
                    return Err(e);
                }
                j = j + 1;
            }
            assert(all.subrange(0, dlen + j) =~= all);
        } else {
            assert(all.subrange(0, i as int) =~= all);
        }
        Ok(())
    }
}


pub open spec fn ftp_scheme() -> Seq<char> {
    seq!['f', 't', 'p']
}

/// A document of the supported version that breaks one rule is refused with that rule's
/// own error, the same on every call: a lone tag whose name holds `<` (and is otherwise
/// of allowed length) with `TagNameHtml`; a lone bookmark whose URL parses with scheme
/// `ftp` with `UnsafeScheme`; a lone bookmark with an accepted URL and a 501-character
/// title with `TitleTooLong`; two otherwise valid resources sharing an identifier with
/// `DuplicateId`. The four errors are distinct.
pub proof fn lemma_rule_errors(d: BookmarksData, r1: Resource, r2: Resource)
    requires
        d.jsonapi.version@ == supported_version(),
        d.included is None,
    ensures
        d.data@ == seq![r1] ==> validation_of(d) == verdict(field_error(r1)),
        d.data@ == seq![r1] && r1 is Tag && 1 <= tag_name(r1).len() <= 100 && tag_name(r1).contains(
            '<',
        ) ==> validation_of(d) == Err::<(), ValidationError>(ValidationError::TagNameHtml),
        d.data@ == seq![r1] && (match r1 {
            Resource::Bookmark { attributes, .. } => 1 <= attributes.url@.len() <= 2048
                && parsed_url_scheme(attributes.url@) == Some(ftp_scheme()),
            _ => false,
        }) ==> validation_of(d) == Err::<(), ValidationError>(ValidationError::UnsafeScheme),
        d.data@ == seq![r1] && (match r1 {
            Resource::Bookmark { attributes, .. } => url_error(attributes.url@) is None
                && attributes.title@.len() == 501,
            _ => false,
        }) ==> validation_of(d) == Err::<(), ValidationError>(ValidationError::TitleTooLong),
        d.data@ == seq![r1, r2] && field_error(r1) is None && field_error(r2) is None && res_id(r1)
            == res_id(r2) ==> validation_of(d) == Err::<(), ValidationError>(
            ValidationError::DuplicateId,
        ),
        ValidationError::TagNameHtml != ValidationError::UnsafeScheme,
        ValidationError::TagNameHtml != ValidationError::TitleTooLong,
        ValidationError::TagNameHtml != ValidationError::DuplicateId,
        ValidationError::UnsafeScheme != ValidationError::TitleTooLong,
        ValidationError::UnsafeScheme != ValidationError::DuplicateId,
        ValidationError::TitleTooLong != ValidationError::DuplicateId,
{
    assert(d.included_seq() =~= Seq::<Resource>::empty());
    assert(d.all_resources() =~= d.data@);
    if d.data@ == seq![r1] {
        assert(d.data@.drop_last() =~= Seq::<Resource>::empty());
        assert(ids_of(Seq::<Resource>::empty()) =~= Seq::<Seq<char>>::empty());
        assert(!ids_of(Seq::<Resource>::empty()).contains(res_id(r1)));
        assert(first_error(Seq::<Resource>::empty()) is None);
        assert(first_error(d.data@) == resource_error(r1, Seq::<Resource>::empty()));
    }
    if d.data@ == seq![r1, r2] {
        let one = d.data@.drop_last();
        assert(one =~= seq![r1]);
        assert(one.drop_last() =~= Seq::<Resource>::empty());
        assert(ids_of(Seq::<Resource>::empty()) =~= Seq::<Seq<char>>::empty());
        assert(ids_of(one)[0] == res_id(r1));
        assert(!ids_of(Seq::<Resource>::empty()).contains(res_id(r1)));
        assert(first_error(Seq::<Resource>::empty()) is None);
        if field_error(r1) is None && field_error(r2) is None && res_id(r1) == res_id(r2) {
            assert(first_error(one) is None);
            assert(ids_of(one).contains(res_id(r2)));
            assert(first_error(d.data@) == resource_error(r2, one));
        }
    }
}

/// Relies on `uuid::Builder::from_random_bytes`, `Builder::into_uuid` and `Uuid`'s
/// `Display`: a version-4 identifier made of the 16 given random bytes, written in the
/// 36-character hyphenated form.
#[verifier::external_body]
fn uuid_from_random(bytes: &[u8]) -> (r: String)
    requires
        bytes@.len() == 16,
    ensures
        r@.len() == 36,
{
    let mut b = [0u8; 16];
    b.copy_from_slice(bytes);
    uuid::Builder::from_random_bytes(b).into_uuid().to_string()
}

/// Relies on `chrono`'s `From<SystemTime> for DateTime<Utc>`, `DateTime::timestamp` and
/// `DateTime::timestamp_subsec_nanos`: the current instant, before 1970 too, with the
/// nanoseconds below one second. (The conversion fails only for a clock set beyond
/// chrono's range of about 262,000 years.)
#[verifier::external_body]
fn utc_now() -> (r: (i64, u32))
    ensures
        r.1 < 1000000000,
{
    let now = chrono::DateTime::<chrono::Utc>::from(std::time::SystemTime::now());
    (now.timestamp(), now.timestamp_subsec_nanos())
}

/// A fresh random identifier in hyphenated form; `None` where the operating system's
/// random source fails.
fn fresh_id() -> (r: Option<String>)
    ensures
        r is Some ==> r->Some_0@.len() == 36,
{
    match crate::encryption::os_random_bytes(16) {
        Some(bytes) => Some(uuid_from_random(bytes.as_slice())),
        None => None,
    }
}

impl Timestamp {
    /// The current instant.
    pub fn now() -> (r: Timestamp)
        ensures
            r.nanos < 1000000000,
    {
        let (secs, nanos) = utc_now();
        Timestamp { secs, nanos }
    }
}

pub open spec fn tag_type() -> Seq<char> {
    seq!['t', 'a', 'g']
}

/// The tag identifiers a bookmark refers to, where it has a tag list.
pub open spec fn bookmark_tag_ids(r: Resource) -> Option<Seq<Seq<char>>> {
    match r {
        Resource::Bookmark { relationships: Some(rels), .. } => match rels.tags {
            Some(d) => Some(d.data@.map_values(|x: ResourceIdentifier| x.id@)),
            None => None,
        },
        _ => None,
    }
}

/// Every reference of the bookmark's tag list is typed as a tag.
pub open spec fn tag_refs_typed(r: Resource) -> bool {
    match r {
        Resource::Bookmark { relationships: Some(rels), .. } => match rels.tags {
            Some(d) => forall|i: int|
                0 <= i < d.data@.len() ==> (#[trigger] d.data@[i]).resource_type@ == tag_type(),
            None => true,
        },
        _ => true,
    }
}

fn tag_literal() -> (r: String)
    ensures
        r@ == tag_type(),
{
    proof {
        reveal_strlit("tag");
    }
    String::from_str("tag")
}

/// A new bookmark with a fresh identifier, created now, and referring to `tag_ids` in
/// order; with no tag identifiers it has no relationships. `None` where no identifier
/// could be drawn from the operating system's random source.
pub fn create_bookmark(url: String, title: String, tag_ids: Vec<String>) -> (o: Option<Resource>)
    ensures
        o is Some ==> o->Some_0 is Bookmark,
        o is Some ==> res_id(o->Some_0).len() == 36,
        o is Some ==> match o->Some_0 {
            Resource::Bookmark { attributes, relationships, .. } => {
                &&& attributes.url == url
                &&& attributes.title == title
                &&& attributes.modified is None
                &&& attributes.notes is None
                &&& (tag_ids@.len() == 0 <==> relationships is None)
            },
            _ => false,
        },
        o is Some && tag_ids@.len() > 0 ==> bookmark_tag_ids(o->Some_0) == Some(strs(tag_ids@)),
        o is Some ==> tag_refs_typed(o->Some_0),
{
    let id = match fresh_id() {
        Some(id) => id,
        None => {
            return None;
        },
    };
    let created = Timestamp::now();
    let relationships = if tag_ids.len() == 0 {
        None
    } else {
        let mut refs: Vec<ResourceIdentifier> = Vec::new();
        let mut i: usize = 0;
        while i < tag_ids.len()
            invariant
                i <= tag_ids@.len(),
                refs@.len() == i,
                forall|j: int|
                    0 <= j < i ==> (#[trigger] refs@[j]).id@ == tag_ids@[j]@
                        && refs@[j].resource_type@ == tag_type(),
            decreases tag_ids@.len() - i,
        {
            refs.push(ResourceIdentifier { resource_type: tag_literal(), id: tag_ids[i].clone() });
            i = i + 1;
        }
        assert(refs@.map_values(|x: ResourceIdentifier| x.id@) =~= strs(tag_ids@));
        Some(BookmarkRelationships { tags: Some(RelationshipData { data: refs }) })
    };
    Some(
        Resource::Bookmark {
            id,
            attributes: BookmarkAttributes { url, title, created, modified: None, notes: None },
            relationships,
        },
    )
}

/// A new tag with a fresh identifier, the given name and color, no description, and a
/// parent reference where `parent_id` is given. `None` where no identifier could be
/// drawn from the operating system's random source.
pub fn create_tag(name: String, color: Option<String>, parent_id: Option<String>) -> (o: Option<Resource>)
    ensures
        o is Some ==> o->Some_0 is Tag,
        o is Some ==> res_id(o->Some_0).len() == 36,
        o is Some ==> tag_name(o->Some_0) == name@,
        o is Some ==> tag_parent(o->Some_0) == match parent_id {
            Some(p) => Some(p@),
            None => None::<Seq<char>>,
        },
        o is Some ==> match o->Some_0 {
            Resource::Tag { attributes, relationships, .. } => {
                &&& attributes.color == color
                &&& attributes.description is None
                &&& (parent_id is None <==> relationships is None)
            },
            _ => false,
        },
{
    let id = match fresh_id() {
        Some(id) => id,
        None => {
            return None;
        },
    };
    let relationships = match parent_id {
        Some(pid) => Some(
            TagRelationships {
                parent: Some(
                    ParentRelationship {
                        data: Some(ResourceIdentifier { resource_type: tag_literal(), id: pid }),
                    },
                ),
            },
        ),
        None => None,
    };
    Some(
        Resource::Tag {
            id,
            attributes: TagAttributes { name, color, description: None },
            relationships,
        },
    )
}

pub open spec fn digit_char(d: nat) -> char {
    if d == 0 {
        '0'
    } else if d == 1 {
        '1'
    } else if d == 2 {
        '2'
    } else if d == 3 {
        '3'
    } else if d == 4 {
        '4'
    } else if d == 5 {
        '5'
    } else if d == 6 {
        '6'
    } else if d == 7 {
        '7'
    } else if d == 8 {
        '8'
    } else {
        '9'
    }
}

/// The decimal digits of `n`, most significant first, without leading zeros.
pub open spec fn decimal(n: nat) -> Seq<char>
    decreases n,
{
    if n < 10 {
        seq![digit_char(n)]
    } else {
        decimal(n / 10).push(digit_char(n % 10))
    }
}

fn digit_str(d: usize) -> (r: &'static str)
    requires
        d < 10,
    ensures
        r@ == seq![digit_char(d as nat)],
{
    proof {
        reveal_strlit("0");
        reveal_strlit("1");
        reveal_strlit("2");
        reveal_strlit("3");
        reveal_strlit("4");
        reveal_strlit("5");
        reveal_strlit("6");
        reveal_strlit("7");
        reveal_strlit("8");
        reveal_strlit("9");
    }
    let r = if d == 0 {
        "0"
    } else if d == 1 {
        "1"
    } else if d == 2 {
        "2"
    } else if d == 3 {
        "3"
    } else if d == 4 {
        "4"
    } else if d == 5 {
        "5"
    } else if d == 6 {
        "6"
    } else if d == 7 {
        "7"
    } else if d == 8 {
        "8"
    } else {
        "9"
    };
    assert(r@ =~= seq![digit_char(d as nat)]);
    r
}

/// `n` written in decimal.
pub fn decimal_string(n: usize) -> (r: String)
    ensures
        r@ == decimal(n as nat),
    decreases n,
{
    if n < 10 {
        String::from_str(digit_str(n))
    } else {
        let mut s = decimal_string(n / 10);
        s.append(digit_str(n % 10));
        s
    }
}

pub open spec fn commit_message_text(bookmarks: nat, tags: nat) -> Seq<char> {
    seq!['U', 'p', 'd', 'a', 't', 'e', ' ', 'b', 'o', 'o', 'k', 'm', 'a', 'r', 'k', 's', ':', ' ']
        + decimal(bookmarks) + seq![' ', 'b', 'o', 'o', 'k', 'm', 'a', 'r', 'k', 's', ',', ' ']
        + decimal(tags) + seq![' ', 't', 'a', 'g', 's']
}

impl BookmarksData {
    /// The message recorded with each stored version: its bookmark and tag counts.
    pub fn commit_message(&self) -> (r: String)
        ensures
            r@ == commit_message_text(
                bookmarks_in(self.data@).len(),
                self.tag_seq().len(),
            ),
    {
        let b = self.get_bookmarks().len();
        let t = self.get_tags().len();
        proof {
            reveal_strlit("Update bookmarks: ");
            reveal_strlit(" bookmarks, ");
            reveal_strlit(" tags");
        }
        let mut s = String::from_str("Update bookmarks: ");
        s.append(decimal_string(b).as_str());
        s.append(" bookmarks, ");
        s.append(decimal_string(t).as_str());
        s.append(" tags");
        assert(s@ =~= commit_message_text(b as nat, t as nat));
        s
    }
}

} // verus!
