//! The stored document's JSON form: which value trees decode to which documents, the
//! decoder, and the encoder, whose output decodes back to the document it was given.
use vstd::prelude::*;
use crate::json::{
    JsonMember, JsonValue, member, present, string_of, opt_string, timestamp_of,
    textual_instant, find_member, find_present,
    read_opt_string, timestamp_to_json, timestamp_from_json, push_member, lemma_member_empty,
    distinct_names, lemma_member_distinct, lemma_member_absent,
};
use crate::encryption::{EncryptedData, base64_bytes, base64_encode, base64_decode};
use crate::storage::{
    BookmarkAttributes, BookmarkRelationships, BookmarksData, JsonApiVersion, ParentRelationship,
    RelationshipData, Resource, ResourceIdentifier, TagAttributes, TagRelationships, Timestamp,
    str_eq,
};

verus! {

/// A resource reference as plain values.
pub struct IdentView {
    pub resource_type: Seq<char>,
    pub id: Seq<char>,
}

/// A resource as plain values. For a bookmark, `tags` is absent without relationships,
/// and `Some(None)` with relationships but no tag list; for a tag, `parent` likewise
/// down to the reference itself.
pub enum ResourceView {
    Bookmark {
        id: Seq<char>,
        url: Seq<char>,
        title: Seq<char>,
        created: Timestamp,
        modified: Option<Timestamp>,
        notes: Option<Seq<char>>,
        tags: Option<Option<Seq<IdentView>>>,
    },
    Tag {
        id: Seq<char>,
        name: Seq<char>,
        color: Option<Seq<char>>,
        description: Option<Seq<char>>,
        parent: Option<Option<Option<IdentView>>>,
    },
}

/// A document as plain values.
pub struct DocumentView {
    pub version: Seq<char>,
    pub data: Seq<ResourceView>,
    pub included: Option<Seq<ResourceView>>,
}

/// The value tree is not a document.
#[derive(Debug, PartialEq, Eq, Structural, Clone, Copy)]
pub struct DecodeError;

/// A timestamp of the document has no four-digit-year text form.
#[derive(Debug, PartialEq, Eq, Structural, Clone, Copy)]
pub struct EncodeError;

impl View for ResourceIdentifier {
    type V = IdentView;

    open spec fn view(&self) -> IdentView {
        IdentView { resource_type: self.resource_type@, id: self.id@ }
    }
}

pub open spec fn idents_view(v: Seq<ResourceIdentifier>) -> Seq<IdentView> {
    v.map_values(|x: ResourceIdentifier| x@)
}

pub open spec fn opt_view(o: Option<String>) -> Option<Seq<char>> {
    match o {
        Some(s) => Some(s@),
        None => None,
    }
}

impl View for Resource {
    type V = ResourceView;

    open spec fn view(&self) -> ResourceView {
        match self {
            Resource::Bookmark { id, attributes, relationships } => ResourceView::Bookmark {
                id: id@,
                url: attributes.url@,
                title: attributes.title@,
                created: attributes.created,
                modified: attributes.modified,
                notes: opt_view(attributes.notes),
                tags: match relationships {
                    None => None,
                    Some(r) => Some(
                        match r.tags {
                            None => None,
                            Some(d) => Some(idents_view(d.data@)),
                        },
                    ),
                },
            },
            Resource::Tag { id, attributes, relationships } => ResourceView::Tag {
                id: id@,
                name: attributes.name@,
                color: opt_view(attributes.color),
                description: opt_view(attributes.description),
                parent: match relationships {
                    None => None,
                    Some(r) => Some(
                        match r.parent {
                            None => None,
                            Some(p) => Some(
                                match p.data {
                                    None => None,
                                    Some(i) => Some(i@),
                                },
                            ),
                        },
                    ),
                },
            },
        }
    }
}

pub open spec fn resources_view(v: Seq<Resource>) -> Seq<ResourceView> {
    v.map_values(|r: Resource| r@)
}

impl View for BookmarksData {
    type V = DocumentView;

    open spec fn view(&self) -> DocumentView {
        DocumentView {
            version: self.jsonapi.version@,
            data: resources_view(self.data@),
            included: match self.included {
                None => None,
                Some(v) => Some(resources_view(v@)),
            },
        }
    }
}

/// Every timestamp of the resource has a four-digit-year text form.
pub open spec fn resource_textual(r: ResourceView) -> bool {
    match r {
        ResourceView::Bookmark { created, modified, .. } => textual_instant(created) && match modified {
            Some(m) => textual_instant(m),
            None => true,
        },
        ResourceView::Tag { .. } => true,
    }
}

pub open spec fn all_textual(s: Seq<ResourceView>) -> bool {
    forall|i: int| 0 <= i < s.len() ==> resource_textual(#[trigger] s[i])
}

pub open spec fn document_textual(d: DocumentView) -> bool {
    all_textual(d.data) && match d.included {
        Some(s) => all_textual(s),
        None => true,
    }
}

/// A member that must be present and a string.
pub open spec fn req_string(ms: Seq<JsonMember>, key: Seq<char>) -> Option<Seq<char>> {
    match member(ms, key) {
        Some(v) => string_of(v),
        None => None,
    }
}

/// A timestamp member that may be absent or null.
pub open spec fn opt_timestamp(ms: Seq<JsonMember>, key: Seq<char>) -> Option<Option<Timestamp>> {
    match present(member(ms, key)) {
        None => Some(None),
        Some(v) => match timestamp_of(v) {
            Some(t) => Some(Some(t)),
            None => None,
        },
    }
}

pub open spec fn ident_of(v: JsonValue) -> Option<IdentView> {
    match v {
        JsonValue::Object(ms) => match (req_string(ms@, "type"@), req_string(ms@, "id"@)) {
            (Some(t), Some(i)) => Some(IdentView { resource_type: t, id: i }),
            _ => None,
        },
        _ => None,
    }
}

pub open spec fn idents_of(s: Seq<JsonValue>) -> Option<Seq<IdentView>>
    decreases s.len(),
{
    if s.len() == 0 {
        Some(Seq::empty())
    } else {
        match (idents_of(s.drop_last()), ident_of(s.last())) {
            (Some(a), Some(b)) => Some(a.push(b)),
            _ => None,
        }
    }
}

/// The tag list of a bookmark, from its `relationships` member (absent or null:
/// none).
pub open spec fn bookmark_tags_of(rel: Option<JsonValue>) -> Option<Option<Option<Seq<IdentView>>>> {
    match rel {
        None => Some(None),
        Some(JsonValue::Object(rms)) => match present(member(rms@, "tags"@)) {
            None => Some(Some(None)),
            Some(JsonValue::Object(tms)) => match member(tms@, "data"@) {
                Some(JsonValue::Array(items)) => match idents_of(items@) {
                    Some(l) => Some(Some(Some(l))),
                    None => None,
                },
                _ => None,
            },
            _ => None,
        },
        _ => None,
    }
}

/// The parent reference of a tag, from its `relationships` member.
pub open spec fn tag_parent_of(rel: Option<JsonValue>) -> Option<Option<Option<Option<IdentView>>>> {
    match rel {
        None => Some(None),
        Some(JsonValue::Object(rms)) => match present(member(rms@, "parent"@)) {
            None => Some(Some(None)),
            Some(JsonValue::Object(pms)) => match present(member(pms@, "data"@)) {
                None => Some(Some(Some(None))),
                Some(iv) => match ident_of(iv) {
                    Some(i) => Some(Some(Some(Some(i)))),
                    None => None,
                },
            },
            _ => None,
        },
        _ => None,
    }
}

pub open spec fn bookmark_of(id: Seq<char>, ams: Seq<JsonMember>, rel: Option<JsonValue>) -> Option<
    ResourceView,
> {
    match (
        req_string(ams, "url"@),
        req_string(ams, "title"@),
        member(ams, "created"@),
        opt_timestamp(ams, "modified"@),
        opt_string(ams, "notes"@),
        bookmark_tags_of(rel),
    ) {
        (Some(url), Some(title), Some(cv), Some(modified), Some(notes), Some(tags)) => match timestamp_of(cv) {
            Some(created) => Some(ResourceView::Bookmark { id, url, title, created, modified, notes, tags }),
            None => None,
        },
        _ => None,
    }
}

pub open spec fn tag_of(id: Seq<char>, ams: Seq<JsonMember>, rel: Option<JsonValue>) -> Option<
    ResourceView,
> {
    match (
        req_string(ams, "name"@),
        opt_string(ams, "color"@),
        opt_string(ams, "description"@),
        tag_parent_of(rel),
    ) {
        (Some(name), Some(color), Some(description), Some(parent)) => Some(
            ResourceView::Tag { id, name, color, description, parent },
        ),
        _ => None,
    }
}

/// A resource: an object whose `type` is `bookmark` or `tag`, with an `id`, an
/// `attributes` object and optional `relationships`.
pub open spec fn resource_of(v: JsonValue) -> Option<ResourceView> {
    match v {
        JsonValue::Object(ms) => match (req_string(ms@, "type"@), req_string(ms@, "id"@), member(ms@, "attributes"@)) {
            (Some(ty), Some(id), Some(JsonValue::Object(ams))) => if ty == "bookmark"@ {
                bookmark_of(id, ams@, present(member(ms@, "relationships"@)))
            } else if ty == "tag"@ {
                tag_of(id, ams@, present(member(ms@, "relationships"@)))
            } else {
                None
            },
            _ => None,
        },
        _ => None,
    }
}

pub open spec fn resources_of(s: Seq<JsonValue>) -> Option<Seq<ResourceView>>
    decreases s.len(),
{
    if s.len() == 0 {
        Some(Seq::empty())
    } else {
        match (resources_of(s.drop_last()), resource_of(s.last())) {
            (Some(a), Some(b)) => Some(a.push(b)),
            _ => None,
        }
    }
}

/// A document: an object with a `jsonapi` object holding the `version`, a `data` array
/// of resources and an optional `included` array of resources.
pub open spec fn document_of(v: JsonValue) -> Option<DocumentView> {
    match v {
        JsonValue::Object(ms) => match (member(ms@, "jsonapi"@), member(ms@, "data"@)) {
            (Some(JsonValue::Object(vms)), Some(JsonValue::Array(items))) => match (
                req_string(vms@, "version"@),
                resources_of(items@),
                present(member(ms@, "included"@)),
            ) {
                (Some(version), Some(data), None) => Some(DocumentView { version, data, included: None }),
                (Some(version), Some(data), Some(JsonValue::Array(inc))) => match resources_of(inc@) {
                    Some(i) => Some(DocumentView { version, data, included: Some(i) }),
                    None => None,
                },
                _ => None,
            },
            _ => None,
        },
        _ => None,
    }
}

fn read_string(ms: &Vec<JsonMember>, key: &str) -> (r: Result<String, DecodeError>)
    ensures
        match r {
            Ok(s) => req_string(ms@, key@) == Some(s@),
            Err(_) => req_string(ms@, key@) is None,
        },
{
    match find_member(ms, key) {
        Some(JsonValue::Str(s)) => Ok(s.clone()),
        _ => Err(DecodeError),
    }
}

fn read_opt_timestamp(ms: &Vec<JsonMember>, key: &str) -> (r: Result<Option<Timestamp>, DecodeError>)
    ensures
        match r {
            Ok(t) => opt_timestamp(ms@, key@) == Some(t),
            Err(_) => opt_timestamp(ms@, key@) is None,
        },
{
    match find_present(ms, key) {
        None => Ok(None),
        Some(v) => match timestamp_from_json(v) {
            Some(t) => Ok(Some(t)),
            None => Err(DecodeError),
        },
    }
}

fn opt_string_result(r: Result<Option<String>, ()>) -> (o: Result<Option<String>, DecodeError>)
    ensures
        match r {
            Ok(x) => o == Ok::<Option<String>, DecodeError>(x),
            Err(_) => o is Err,
        },
{
    match r {
        Ok(x) => Ok(x),
        Err(_) => Err(DecodeError),
    }
}

fn decode_ident(v: &JsonValue) -> (r: Result<ResourceIdentifier, DecodeError>)
    ensures
        match r {
            Ok(x) => ident_of(*v) == Some(x@),
            Err(_) => ident_of(*v) is None,
        },
{
    match v {
        JsonValue::Object(ms) => {
            let t = read_string(ms, "type")?;
            let i = read_string(ms, "id")?;
            Ok(ResourceIdentifier { resource_type: t, id: i })
        },
        _ => Err(DecodeError),
    }
}

fn decode_idents(items: &Vec<JsonValue>) -> (r: Result<Vec<ResourceIdentifier>, DecodeError>)
    ensures
        match r {
            Ok(x) => idents_of(items@) == Some(idents_view(x@)),
            Err(_) => idents_of(items@) is None,
        },
{
    let mut out: Vec<ResourceIdentifier> = Vec::new();
    let mut i: usize = 0;
    while i < items.len()
        invariant
            i <= items@.len(),
            idents_of(items@.subrange(0, i as int)) == Some(idents_view(out@)),
        decreases items@.len() - i,
    {
        assert(items@.subrange(0, i + 1).drop_last() =~= items@.subrange(0, i as int));
        let x = match decode_ident(&items[i]) {
            Ok(x) => x,
            Err(e) => {
                proof {
                    lemma_idents_prefix_fails(items@, i + 1);
                }
                return Err(e);
            },
        };
        let ghost before = out@;
        out.push(x);
        assert(idents_view(out@) =~= idents_view(before).push(x@));
        i = i + 1;
    }
    assert(items@.subrange(0, i as int) =~= items@);
    Ok(out)
}

proof fn lemma_idents_prefix_fails(s: Seq<JsonValue>, n: int)
    requires
        0 <= n <= s.len(),
        idents_of(s.subrange(0, n)) is None,
    ensures
        idents_of(s) is None,
    decreases s.len() - n,
{
    if n < s.len() {
        assert(s.subrange(0, n + 1).drop_last() =~= s.subrange(0, n));
        lemma_idents_prefix_fails(s, n + 1);
    } else {
        assert(s.subrange(0, n) =~= s);
    }
}

proof fn lemma_resources_prefix_fails(s: Seq<JsonValue>, n: int)
    requires
        0 <= n <= s.len(),
        resources_of(s.subrange(0, n)) is None,
    ensures
        resources_of(s) is None,
    decreases s.len() - n,
{
    if n < s.len() {
        assert(s.subrange(0, n + 1).drop_last() =~= s.subrange(0, n));
        lemma_resources_prefix_fails(s, n + 1);
    } else {
        assert(s.subrange(0, n) =~= s);
    }
}

fn decode_bookmark_relationships(rel: Option<&JsonValue>) -> (r: Result<Option<BookmarkRelationships>, DecodeError>)
    ensures
        match r {
            Ok(None) => bookmark_tags_of(
                match rel {
                    Some(v) => Some(*v),
                    None => None,
                },
            ) == Some(None::<Option<Seq<IdentView>>>),
            Ok(Some(b)) => bookmark_tags_of(
                match rel {
                    Some(v) => Some(*v),
                    None => None,
                },
            ) == Some(
                Some(
                    match b.tags {
                        None => None,
                        Some(d) => Some(idents_view(d.data@)),
                    },
                ),
            ),
            Err(_) => bookmark_tags_of(
                match rel {
                    Some(v) => Some(*v),
                    None => None,
                },
            ) is None,
        },
{
    match rel {
        None => Ok(None),
        Some(JsonValue::Object(rms)) => match find_present(rms, "tags") {
            None => Ok(Some(BookmarkRelationships { tags: None })),
            Some(JsonValue::Object(tms)) => match find_member(tms, "data") {
                Some(JsonValue::Array(items)) => {
                    let data = decode_idents(items)?;
                    Ok(Some(BookmarkRelationships { tags: Some(RelationshipData { data }) }))
                },
                _ => Err(DecodeError),
            },
            _ => Err(DecodeError),
        },
        _ => Err(DecodeError),
    }
}

fn decode_tag_relationships(rel: Option<&JsonValue>) -> (r: Result<Option<TagRelationships>, DecodeError>)
    ensures
        match r {
            Ok(None) => tag_parent_of(
                match rel {
                    Some(v) => Some(*v),
                    None => None,
                },
            ) == Some(None::<Option<Option<IdentView>>>),
            Ok(Some(t)) => tag_parent_of(
                match rel {
                    Some(v) => Some(*v),
                    None => None,
                },
            ) == Some(
                Some(
                    match t.parent {
                        None => None,
                        Some(p) => Some(
                            match p.data {
                                None => None,
                                Some(i) => Some(i@),
                            },
                        ),
                    },
                ),
            ),
            Err(_) => tag_parent_of(
                match rel {
                    Some(v) => Some(*v),
                    None => None,
                },
            ) is None,
        },
{
    match rel {
        None => Ok(None),
        Some(JsonValue::Object(rms)) => match find_present(rms, "parent") {
            None => Ok(Some(TagRelationships { parent: None })),
            Some(JsonValue::Object(pms)) => match find_present(pms, "data") {
                None => Ok(Some(TagRelationships { parent: Some(ParentRelationship { data: None }) })),
                Some(iv) => {
                    let i = decode_ident(iv)?;
                    Ok(Some(TagRelationships { parent: Some(ParentRelationship { data: Some(i) }) }))
                },
            },
            _ => Err(DecodeError),
        },
        _ => Err(DecodeError),
    }
}

/// Decodes one resource.
pub fn decode_resource(v: &JsonValue) -> (r: Result<Resource, DecodeError>)
    ensures
        match r {
            Ok(x) => resource_of(*v) == Some(x@),
            Err(_) => resource_of(*v) is None,
        },
{
    let ms = match v {
        JsonValue::Object(ms) => ms,
        _ => {
            return Err(DecodeError);
        },
    };
    let ty = read_string(ms, "type")?;
    let id = read_string(ms, "id")?;
    let ams = match find_member(ms, "attributes") {
        Some(JsonValue::Object(ams)) => ams,
        _ => {
            return Err(DecodeError);
        },
    };
    let rel = find_present(ms, "relationships");
    proof {
        reveal_strlit("bookmark");
        reveal_strlit("tag");
    }
    if str_eq(ty.as_str(), "bookmark") {
        let url = read_string(ams, "url")?;
        let title = read_string(ams, "title")?;
        let created = match find_member(ams, "created") {
            Some(cv) => cv,
            None => {
                return Err(DecodeError);
            },
        };
        let modified = read_opt_timestamp(ams, "modified")?;
        let notes = opt_string_result(read_opt_string(ams, "notes"))?;
        let relationships = decode_bookmark_relationships(rel)?;
        let created = match timestamp_from_json(created) {
            Some(t) => t,
            None => {
                return Err(DecodeError);
            },
        };
        Ok(
            Resource::Bookmark {
                id,
                attributes: BookmarkAttributes { url, title, created, modified, notes },
                relationships,
            },
        )
    } else if str_eq(ty.as_str(), "tag") {
        let name = read_string(ams, "name")?;
        let color = opt_string_result(read_opt_string(ams, "color"))?;
        let description = opt_string_result(read_opt_string(ams, "description"))?;
        let relationships = decode_tag_relationships(rel)?;
        Ok(Resource::Tag { id, attributes: TagAttributes { name, color, description }, relationships })
    } else {
        Err(DecodeError)
    }
}

fn decode_resources(items: &Vec<JsonValue>) -> (r: Result<Vec<Resource>, DecodeError>)
    ensures
        match r {
            Ok(x) => resources_of(items@) == Some(resources_view(x@)),
            Err(_) => resources_of(items@) is None,
        },
{
    let mut out: Vec<Resource> = Vec::new();
    let mut i: usize = 0;
    while i < items.len()
        invariant
            i <= items@.len(),
            resources_of(items@.subrange(0, i as int)) == Some(resources_view(out@)),
        decreases items@.len() - i,
    {
        assert(items@.subrange(0, i + 1).drop_last() =~= items@.subrange(0, i as int));
        let x = match decode_resource(&items[i]) {
            Ok(x) => x,
            Err(e) => {
                proof {
                    lemma_resources_prefix_fails(items@, i + 1);
                }
                return Err(e);
            },
        };
        let ghost before = out@;
        let ghost xv = x@;
        out.push(x);
        assert(resources_view(out@) =~= resources_view(before).push(xv));
        i = i + 1;
    }
    assert(items@.subrange(0, i as int) =~= items@);
    Ok(out)
}

/// Decodes a document from its JSON form.
pub fn decode_document(v: &JsonValue) -> (r: Result<BookmarksData, DecodeError>)
    ensures
        match r {
            Ok(d) => document_of(*v) == Some(d@),
            Err(_) => document_of(*v) is None,
        },
{
    let ms = match v {
        JsonValue::Object(ms) => ms,
        _ => {
            return Err(DecodeError);
        },
    };
    let vms = match find_member(ms, "jsonapi") {
        Some(JsonValue::Object(vms)) => vms,
        _ => {
            return Err(DecodeError);
        },
    };
    let items = match find_member(ms, "data") {
        Some(JsonValue::Array(items)) => items,
        _ => {
            return Err(DecodeError);
        },
    };
    let version = read_string(vms, "version")?;
    let data = decode_resources(items)?;
    let included = match find_present(ms, "included") {
        None => None,
        Some(JsonValue::Array(inc)) => Some(decode_resources(inc)?),
        Some(_) => {
            return Err(DecodeError);
        },
    };
    Ok(BookmarksData { jsonapi: JsonApiVersion { version }, data, included })
}


/// The lengths of the member names, which tell them apart, and the first letters of the
/// two bookmark attribute names of equal length.
proof fn lemma_member_names()
    ensures
        "type"@.len() == 4,
        "id"@.len() == 2,
        "attributes"@.len() == 10,
        "relationships"@.len() == 13,
        "url"@.len() == 3,
        "title"@.len() == 5,
        "created"@.len() == 7,
        "modified"@.len() == 8,
        "notes"@.len() == 5,
        "name"@.len() == 4,
        "color"@.len() == 5,
        "description"@.len() == 11,
        "jsonapi"@.len() == 7,
        "data"@.len() == 4,
        "included"@.len() == 8,
        "version"@.len() == 7,
        "tags"@.len() == 4,
        "parent"@.len() == 6,
        "title"@[0] == 't',
        "notes"@[0] == 'n',
        "bookmark"@.len() == 8,
        "tag"@.len() == 3,
        "encrypted"@.len() == 9,
        "algorithm"@.len() == 9,
        "nonce"@.len() == 5,
        "ciphertext"@.len() == 10,
        "encrypted"@[0] == 'e',
        "algorithm"@[0] == 'a',
{
    reveal_strlit("bookmark");
    reveal_strlit("tag");
    reveal_strlit("encrypted");
    reveal_strlit("algorithm");
    reveal_strlit("nonce");
    reveal_strlit("ciphertext");
    reveal_strlit("type");
    reveal_strlit("id");
    reveal_strlit("attributes");
    reveal_strlit("relationships");
    reveal_strlit("url");
    reveal_strlit("title");
    reveal_strlit("created");
    reveal_strlit("modified");
    reveal_strlit("notes");
    reveal_strlit("name");
    reveal_strlit("color");
    reveal_strlit("description");
    reveal_strlit("jsonapi");
    reveal_strlit("data");
    reveal_strlit("included");
    reveal_strlit("version");
    reveal_strlit("tags");
    reveal_strlit("parent");
}

fn text(s: &str) -> (r: String)
    ensures
        r@ == s@,
{
    String::from_str(s)
}

fn encode_ident(x: &ResourceIdentifier) -> (r: JsonValue)
    ensures
        ident_of(r) == Some(x@),
{
    proof {
        lemma_member_names();
        reveal_strlit("type");
        reveal_strlit("id");
        lemma_member_empty("type"@);
        lemma_member_empty("id"@);
    }
    let mut ms: Vec<JsonMember> = Vec::new();
    let t = JsonValue::Str(x.resource_type.clone());
    let ghost tv = t;
    push_member(&mut ms, text("type"), t);
    assert(member(ms@, "type"@) == Some(tv));
    assert(member(ms@, "id"@) is None);
    let i = JsonValue::Str(x.id.clone());
    let ghost iv = i;
    push_member(&mut ms, text("id"), i);
    assert(member(ms@, "type"@) == Some(tv));
    assert(member(ms@, "id"@) == Some(iv));
    JsonValue::Object(ms)
}

fn encode_idents(v: &Vec<ResourceIdentifier>) -> (r: Vec<JsonValue>)
    ensures
        idents_of(r@) == Some(idents_view(v@)),
{
    let mut out: Vec<JsonValue> = Vec::new();
    let mut i: usize = 0;
    while i < v.len()
        invariant
            i <= v@.len(),
            idents_of(out@) == Some(idents_view(v@.subrange(0, i as int))),
        decreases v@.len() - i,
    {
        let j = encode_ident(&v[i]);
        let ghost before = out@;
        let ghost jv = j;
        out.push(j);
        assert(out@.drop_last() =~= before);
        assert(idents_view(v@.subrange(0, i + 1)) =~= idents_view(v@.subrange(0, i as int)).push(
            v@[i as int]@,
        ));
        i = i + 1;
    }
    assert(v@.subrange(0, i as int) =~= v@);
    out
}

fn encode_bookmark_relationships(rel: &Option<BookmarkRelationships>) -> (r: Option<JsonValue>)
    ensures
        bookmark_tags_of(r) == Some(
            match rel {
                None => None,
                Some(b) => Some(
                    match b.tags {
                        None => None,
                        Some(d) => Some(idents_view(d.data@)),
                    },
                ),
            },
        ),
{
    proof {
        lemma_member_names();
        reveal_strlit("tags");
        reveal_strlit("data");
        lemma_member_empty("tags"@);
        lemma_member_empty("data"@);
    }
    match rel {
        None => None,
        Some(b) => {
            let mut rms: Vec<JsonMember> = Vec::new();
            match &b.tags {
                None => {},
                Some(d) => {
                    let items = encode_idents(&d.data);
                    let mut tms: Vec<JsonMember> = Vec::new();
                    push_member(&mut tms, text("data"), JsonValue::Array(items));
                    push_member(&mut rms, text("tags"), JsonValue::Object(tms));
                },
            }
            Some(JsonValue::Object(rms))
        },
    }
}

fn encode_tag_relationships(rel: &Option<TagRelationships>) -> (r: Option<JsonValue>)
    ensures
        tag_parent_of(r) == Some(
            match rel {
                None => None,
                Some(t) => Some(
                    match t.parent {
                        None => None,
                        Some(p) => Some(
                            match p.data {
                                None => None,
                                Some(i) => Some(i@),
                            },
                        ),
                    },
                ),
            },
        ),
{
    proof {
        lemma_member_names();
        reveal_strlit("parent");
        reveal_strlit("data");
        lemma_member_empty("parent"@);
        lemma_member_empty("data"@);
    }
    match rel {
        None => None,
        Some(t) => {
            let mut rms: Vec<JsonMember> = Vec::new();
            match &t.parent {
                None => {},
                Some(p) => {
                    let dv = match &p.data {
                        None => JsonValue::Null,
                        Some(i) => encode_ident(i),
                    };
                    let mut pms: Vec<JsonMember> = Vec::new();
                    push_member(&mut pms, text("data"), dv);
                    push_member(&mut rms, text("parent"), JsonValue::Object(pms));
                },
            }
            Some(JsonValue::Object(rms))
        },
    }
}

fn push_opt_member(ms: &mut Vec<JsonMember>, key: String, value: Option<JsonValue>)
    ensures
        forall|k: Seq<char>|
            #[trigger] member(final(ms)@, k) == if member(old(ms)@, k) is Some {
                member(old(ms)@, k)
            } else if key@ == k && value is Some {
                value
            } else {
                None::<JsonValue>
            },
{
    match value {
        Some(v) => push_member(ms, key, v),
        None => {},
    }
}

/// The members of a resource object: its kind, identifier, attributes and, where
/// present, relationships.
fn resource_members(kind: String, id: &String, attributes: JsonValue, rel: Option<JsonValue>) -> (r: Vec<JsonMember>)
    ensures
        member(r@, "type"@) == Some(JsonValue::Str(kind)),
        member(r@, "id"@) == Some(JsonValue::Str(*id)),
        member(r@, "attributes"@) == Some(attributes),
        member(r@, "relationships"@) == rel,
{
    proof {
        lemma_member_names();
        reveal_strlit("type");
        reveal_strlit("id");
        reveal_strlit("attributes");
        reveal_strlit("relationships");
        lemma_member_empty("type"@);
        lemma_member_empty("id"@);
        lemma_member_empty("attributes"@);
        lemma_member_empty("relationships"@);
    }
    let mut ms: Vec<JsonMember> = Vec::new();
    push_member(&mut ms, text("type"), JsonValue::Str(kind));
    push_member(&mut ms, text("id"), JsonValue::Str(id.clone()));
    push_member(&mut ms, text("attributes"), attributes);
    proof {
        assert(distinct_names(ms@));
        lemma_member_distinct(ms@);
        assert(member(ms@, ms@[0].key@) == Some(ms@[0].value));
        assert(member(ms@, ms@[1].key@) == Some(ms@[1].value));
        assert(member(ms@, ms@[2].key@) == Some(ms@[2].value));
        lemma_member_absent(ms@, "relationships"@);
    }
    push_opt_member(&mut ms, text("relationships"), rel);
    ms
}

/// The JSON form of one resource; `None` where one of its timestamps has no
/// four-digit-year text form.
pub fn encode_resource(x: &Resource) -> (r: Option<JsonValue>)
    ensures
        resource_textual(x@) <==> r is Some,
        r is Some ==> resource_of(r->Some_0) == Some(x@),
{
    proof {
        lemma_member_names();
        reveal_strlit("type");
        reveal_strlit("id");
        reveal_strlit("attributes");
        reveal_strlit("relationships");
        reveal_strlit("bookmark");
        reveal_strlit("tag");
        reveal_strlit("url");
        reveal_strlit("title");
        reveal_strlit("created");
        reveal_strlit("modified");
        reveal_strlit("notes");
        reveal_strlit("name");
        reveal_strlit("color");
        reveal_strlit("description");
        lemma_member_empty("type"@);
        lemma_member_empty("id"@);
        lemma_member_empty("attributes"@);
        lemma_member_empty("relationships"@);
        lemma_member_empty("url"@);
        lemma_member_empty("title"@);
        lemma_member_empty("created"@);
        lemma_member_empty("modified"@);
        lemma_member_empty("notes"@);
        lemma_member_empty("name"@);
        lemma_member_empty("color"@);
        lemma_member_empty("description"@);
    }
    match x {
        Resource::Bookmark { id, attributes, relationships } => {
            let created = match timestamp_to_json(attributes.created) {
                Some(c) => c,
                None => {
                    return None;
                },
            };
            let modified = match attributes.modified {
                Some(m) => match timestamp_to_json(m) {
                    Some(j) => Some(j),
                    None => {
                        return None;
                    },
                },
                None => None,
            };
            let notes = match &attributes.notes {
                Some(n) => Some(JsonValue::Str(n.clone())),
                None => None,
            };
            let ghost (cv, mv, nv) = (created, modified, notes);
            let mut ams: Vec<JsonMember> = Vec::new();
            push_member(&mut ams, text("url"), JsonValue::Str(attributes.url.clone()));
            push_member(&mut ams, text("title"), JsonValue::Str(attributes.title.clone()));
            push_member(&mut ams, text("created"), created);
            proof {
                assert(distinct_names(ams@));
                lemma_member_distinct(ams@);
                assert(member(ams@, ams@[0].key@) == Some(ams@[0].value));
                assert(member(ams@, ams@[1].key@) == Some(ams@[1].value));
                assert(member(ams@, ams@[2].key@) == Some(ams@[2].value));
                lemma_member_absent(ams@, "modified"@);
                lemma_member_absent(ams@, "notes"@);
            }
            let ghost fixed = ams@;
            push_opt_member(&mut ams, text("modified"), modified);
            push_opt_member(&mut ams, text("notes"), notes);
            assert(member(ams@, "url"@) == member(fixed, "url"@));
            assert(member(ams@, "title"@) == member(fixed, "title"@));
            assert(member(ams@, "created"@) == Some(cv));
            assert(member(ams@, "modified"@) == mv && member(ams@, "notes"@) == nv);
            assert(opt_timestamp(ams@, "modified"@) == Some(attributes.modified));
            assert(opt_string(ams@, "notes"@) == Some(opt_view(attributes.notes)));
            let rel = encode_bookmark_relationships(relationships);
            let ghost relv = rel;
            let ghost amsv = ams@;
            let ms = resource_members(text("bookmark"), id, JsonValue::Object(ams), rel);
            assert(present(member(ms@, "relationships"@)) == relv);
            assert(req_string(ms@, "type"@) == Some("bookmark"@));
            assert(req_string(ms@, "id"@) == Some(id@));
            assert(bookmark_of(id@, amsv, relv) == Some(x@));
            Some(JsonValue::Object(ms))
        },
        Resource::Tag { id, attributes, relationships } => {
            let color = match &attributes.color {
                Some(c) => Some(JsonValue::Str(c.clone())),
                None => None,
            };
            let description = match &attributes.description {
                Some(d) => Some(JsonValue::Str(d.clone())),
                None => None,
            };
            let ghost (colv, descv) = (color, description);
            let mut ams: Vec<JsonMember> = Vec::new();
            push_member(&mut ams, text("name"), JsonValue::Str(attributes.name.clone()));
            proof {
                lemma_member_absent(ams@, "color"@);
                lemma_member_absent(ams@, "description"@);
            }
            let ghost fixed = ams@;
            push_opt_member(&mut ams, text("color"), color);
            push_opt_member(&mut ams, text("description"), description);
            assert(member(ams@, "name"@) == member(fixed, "name"@));
            assert(member(ams@, "color"@) == colv && member(ams@, "description"@) == descv);
            assert(opt_string(ams@, "color"@) == Some(opt_view(attributes.color)));
            assert(opt_string(ams@, "description"@) == Some(opt_view(attributes.description)));
            let rel = encode_tag_relationships(relationships);
            let ghost relv = rel;
            let ghost amsv = ams@;
            let ms = resource_members(text("tag"), id, JsonValue::Object(ams), rel);
            assert(present(member(ms@, "relationships"@)) == relv);
            assert(req_string(ms@, "type"@) == Some("tag"@));
            assert("tag"@ != "bookmark"@);
            assert(req_string(ms@, "id"@) == Some(id@));
            assert(tag_of(id@, amsv, relv) == Some(x@));
            Some(JsonValue::Object(ms))
        },
    }
}

fn encode_resources(v: &Vec<Resource>) -> (r: Option<Vec<JsonValue>>)
    ensures
        all_textual(resources_view(v@)) <==> r is Some,
        r is Some ==> resources_of(r->Some_0@) == Some(resources_view(v@)),
{
    let mut out: Vec<JsonValue> = Vec::new();
    let mut i: usize = 0;
    while i < v.len()
        invariant
            i <= v@.len(),
            all_textual(resources_view(v@.subrange(0, i as int))),
            resources_of(out@) == Some(resources_view(v@.subrange(0, i as int))),
        decreases v@.len() - i,
    {
        let j = match encode_resource(&v[i]) {
            Some(j) => j,
            None => {
                assert(!resource_textual(resources_view(v@)[i as int]));
                return None;
            },
        };
        let ghost before = out@;
        out.push(j);
        assert(out@.drop_last() =~= before);
        assert(resources_view(v@.subrange(0, i + 1)) =~= resources_view(
            v@.subrange(0, i as int),
        ).push(v@[i as int]@));
        i = i + 1;
    }
    assert(v@.subrange(0, i as int) =~= v@);
    Some(out)
}

/// The JSON form of a document. It decodes back to the document it came from; it fails
/// only where a timestamp has no four-digit-year text form.
pub fn encode_document(d: &BookmarksData) -> (r: Result<JsonValue, EncodeError>)
    ensures
        document_textual(d@) <==> r is Ok,
        r is Ok ==> document_of(r->Ok_0) == Some(d@),
{
    proof {
        lemma_member_names();
        reveal_strlit("jsonapi");
        reveal_strlit("version");
        reveal_strlit("data");
        reveal_strlit("included");
        lemma_member_empty("jsonapi"@);
        lemma_member_empty("version"@);
        lemma_member_empty("data"@);
        lemma_member_empty("included"@);
    }
    let data = match encode_resources(&d.data) {
        Some(x) => x,
        None => {
            return Err(EncodeError);
        },
    };
    let included = match &d.included {
        Some(v) => match encode_resources(v) {
            Some(x) => Some(JsonValue::Array(x)),
            None => {
                return Err(EncodeError);
            },
        },
        None => None,
    };
    let mut vms: Vec<JsonMember> = Vec::new();
    let v = JsonValue::Str(d.jsonapi.version.clone());
    let ghost vv = v;
    push_member(&mut vms, text("version"), v);
    assert(member(vms@, "version"@) == Some(vv));
    let jv = JsonValue::Object(vms);
    let dv = JsonValue::Array(data);
    let ghost incv = included;
    let mut ms: Vec<JsonMember> = Vec::new();
    push_member(&mut ms, text("jsonapi"), jv);
    push_member(&mut ms, text("data"), dv);
    proof {
        assert(distinct_names(ms@));
        lemma_member_distinct(ms@);
        assert(member(ms@, ms@[0].key@) == Some(ms@[0].value));
        assert(member(ms@, ms@[1].key@) == Some(ms@[1].value));
        lemma_member_absent(ms@, "included"@);
    }
    push_opt_member(&mut ms, text("included"), included);
    assert(present(member(ms@, "included"@)) == incv);
    Ok(JsonValue::Object(ms))
}


/// An envelope as plain values.
pub struct EnvelopeView {
    pub version: Seq<char>,
    pub encrypted: bool,
    pub algorithm: Seq<char>,
    pub nonce: Seq<u8>,
    pub ciphertext: Seq<u8>,
}

impl View for EncryptedData {
    type V = EnvelopeView;

    open spec fn view(&self) -> EnvelopeView {
        EnvelopeView {
            version: self.version@,
            encrypted: self.encrypted,
            algorithm: self.algorithm@,
            nonce: self.nonce@,
            ciphertext: self.ciphertext@,
        }
    }
}

/// A member holding bytes as base64 text.
pub open spec fn bytes_member(ms: Seq<JsonMember>, key: Seq<char>) -> Option<Seq<u8>> {
    match req_string(ms, key) {
        Some(s) => base64_bytes(s),
        None => None,
    }
}

/// An envelope: an object with the string `version` and `algorithm`, the boolean
/// `encrypted`, and `nonce` and `ciphertext` as base64 text.
pub open spec fn envelope_of(v: JsonValue) -> Option<EnvelopeView> {
    match v {
        JsonValue::Object(ms) => match (
            req_string(ms@, "version"@),
            member(ms@, "encrypted"@),
            req_string(ms@, "algorithm"@),
            bytes_member(ms@, "nonce"@),
            bytes_member(ms@, "ciphertext"@),
        ) {
            (Some(version), Some(JsonValue::Bool(encrypted)), Some(algorithm), Some(nonce), Some(ciphertext)) => Some(
                EnvelopeView { version, encrypted, algorithm, nonce, ciphertext },
            ),
            _ => None,
        },
        _ => None,
    }
}

/// The JSON form of an envelope; it decodes back to the envelope.
pub fn encode_envelope(e: &EncryptedData) -> (r: JsonValue)
    ensures
        envelope_of(r) == Some(e@),
{
    proof {
        lemma_member_names();
        reveal_strlit("version");
        reveal_strlit("encrypted");
        reveal_strlit("algorithm");
        reveal_strlit("nonce");
        reveal_strlit("ciphertext");
        lemma_member_empty("version"@);
        lemma_member_empty("encrypted"@);
        lemma_member_empty("algorithm"@);
        lemma_member_empty("nonce"@);
        lemma_member_empty("ciphertext"@);
    }
    let v = JsonValue::Str(e.version.clone());
    let b = JsonValue::Bool(e.encrypted);
    let a = JsonValue::Str(e.algorithm.clone());
    let n = JsonValue::Str(base64_encode(e.nonce.as_slice()));
    let c = JsonValue::Str(base64_encode(e.ciphertext.as_slice()));
    let mut ms: Vec<JsonMember> = Vec::new();
    push_member(&mut ms, text("version"), v);
    push_member(&mut ms, text("encrypted"), b);
    push_member(&mut ms, text("algorithm"), a);
    push_member(&mut ms, text("nonce"), n);
    push_member(&mut ms, text("ciphertext"), c);
    proof {
        assert(distinct_names(ms@));
        lemma_member_distinct(ms@);
        assert(member(ms@, ms@[0].key@) == Some(ms@[0].value));
        assert(member(ms@, ms@[1].key@) == Some(ms@[1].value));
        assert(member(ms@, ms@[2].key@) == Some(ms@[2].value));
        assert(member(ms@, ms@[3].key@) == Some(ms@[3].value));
        assert(member(ms@, ms@[4].key@) == Some(ms@[4].value));
    }
    JsonValue::Object(ms)
}

fn read_bytes(ms: &Vec<JsonMember>, key: &str) -> (r: Result<Vec<u8>, DecodeError>)
    ensures
        match r {
            Ok(b) => bytes_member(ms@, key@) == Some(b@),
            Err(_) => bytes_member(ms@, key@) is None,
        },
{
    let s = read_string(ms, key)?;
    match base64_decode(s.as_str()) {
        Some(b) => Ok(b),
        None => Err(DecodeError),
    }
}

/// Decodes an envelope from its JSON form.
pub fn decode_envelope(v: &JsonValue) -> (r: Result<EncryptedData, DecodeError>)
    ensures
        match r {
            Ok(e) => envelope_of(*v) == Some(e@),
            Err(_) => envelope_of(*v) is None,
        },
{
    let ms = match v {
        JsonValue::Object(ms) => ms,
        _ => {
            return Err(DecodeError);
        },
    };
    let version = read_string(ms, "version")?;
    let encrypted = match find_member(ms, "encrypted") {
        Some(JsonValue::Bool(b)) => *b,
        _ => {
            return Err(DecodeError);
        },
    };
    let algorithm = read_string(ms, "algorithm")?;
    let nonce = read_bytes(ms, "nonce")?;
    let ciphertext = read_bytes(ms, "ciphertext")?;
    Ok(EncryptedData { version, encrypted, algorithm, nonce, ciphertext })
}

/// Whether stored content is an encrypted envelope. `None` stands for a file that is
/// missing or is no JSON text; content that is not an envelope, a plain document among
/// it, is not encrypted either.
pub fn envelope_is_encrypted(content: Option<&JsonValue>) -> (r: bool)
    ensures
        r == match content {
            Some(j) => match envelope_of(*j) {
                Some(e) => e.encrypted,
                None => false,
            },
            None => false,
        },
{
    match content {
        Some(j) => match decode_envelope(j) {
            Ok(e) => e.encrypted,
            Err(_) => false,
        },
        None => false,
    }
}

} // verus!
