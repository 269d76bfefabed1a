//! A JSON value tree, the form the stored document and the envelope take before they
//! become text, and the reading of members and timestamps out of it.
use vstd::prelude::*;
use crate::storage::{str_eq, Timestamp};

verus! {

/// A JSON value.
#[derive(Debug, PartialEq)]
pub enum JsonValue {
    Null,
    Bool(bool),
    /// A number, as written.
    Number(String),
    Str(String),
    Array(Vec<JsonValue>),
    Object(Vec<JsonMember>),
}

/// One member of a JSON object.
#[derive(Debug, PartialEq)]
pub struct JsonMember {
    pub key: String,
    pub value: JsonValue,
}

/// `i` is the first member of `ms` named `key`.
pub open spec fn is_first_member(ms: Seq<JsonMember>, key: Seq<char>, i: int) -> bool {
    &&& 0 <= i < ms.len()
    &&& ms[i].key@ == key
    &&& forall|j: int| 0 <= j < i ==> ms[j].key@ != key
}

/// The value of the first member named `key`: where a name repeats, the first wins.
pub open spec fn member(ms: Seq<JsonMember>, key: Seq<char>) -> Option<JsonValue> {
    if exists|i: int| is_first_member(ms, key, i) {
        Some(ms[choose|i: int| is_first_member(ms, key, i)].value)
    } else {
        None
    }
}

/// A member that is absent or null reads as `None`.
pub open spec fn present(v: Option<JsonValue>) -> Option<JsonValue> {
    match v {
        Some(JsonValue::Null) => None,
        other => other,
    }
}

pub open spec fn string_of(v: JsonValue) -> Option<Seq<char>> {
    match v {
        JsonValue::Str(s) => Some(s@),
        _ => None,
    }
}

/// An optional string member: `Some(None)` where absent or null, `None` where present
/// but not a string.
pub open spec fn opt_string(ms: Seq<JsonMember>, key: Seq<char>) -> Option<Option<Seq<char>>> {
    match present(member(ms, key)) {
        None => Some(None),
        Some(v) => match string_of(v) {
            Some(s) => Some(Some(s)),
            None => None,
        },
    }
}

pub proof fn lemma_member_at(ms: Seq<JsonMember>, key: Seq<char>, i: int)
    requires
        is_first_member(ms, key, i),
    ensures
        member(ms, key) == Some(ms[i].value),
{
    let k = choose|k: int| is_first_member(ms, key, k);
    assert(is_first_member(ms, key, k));
    if k < i {
        assert(ms[k].key@ != key);
    } else if i < k {
        assert(ms[i].key@ != key);
    }
}

pub proof fn lemma_member_absent(ms: Seq<JsonMember>, key: Seq<char>)
    requires
        forall|j: int| 0 <= j < ms.len() ==> ms[j].key@ != key,
    ensures
        member(ms, key) is None,
{
    if exists|i: int| is_first_member(ms, key, i) {
        let k = choose|k: int| is_first_member(ms, key, k);
        assert(ms[k].key@ == key);
    }
}

proof fn lemma_first_exists(ms: Seq<JsonMember>, key: Seq<char>, j: int)
    requires
        0 <= j < ms.len(),
        ms[j].key@ == key,
    ensures
        exists|i: int| is_first_member(ms, key, i),
    decreases j,
{
    if exists|j2: int| 0 <= j2 < j && ms[j2].key@ == key {
        let j2 = choose|j2: int| 0 <= j2 < j && ms[j2].key@ == key;
        lemma_first_exists(ms, key, j2);
    } else {
        assert(is_first_member(ms, key, j));
    }
}

/// Looking a name up after a member is appended: an earlier member of that name still
/// wins; otherwise the new member answers if it has the name.
pub proof fn lemma_member_push(ms: Seq<JsonMember>, m: JsonMember, key: Seq<char>)
    ensures
        member(ms.push(m), key) == if member(ms, key) is Some {
            member(ms, key)
        } else if m.key@ == key {
            Some(m.value)
        } else {
            None::<JsonValue>
        },
{
    let s2 = ms.push(m);
    if member(ms, key) is Some {
        let i = choose|i: int| is_first_member(ms, key, i);
        assert(is_first_member(s2, key, i));
        lemma_member_at(s2, key, i);
    } else {
        if exists|j: int| 0 <= j < ms.len() && ms[j].key@ == key {
            let j = choose|j: int| 0 <= j < ms.len() && ms[j].key@ == key;
            lemma_first_exists(ms, key, j);
        }
        if m.key@ == key {
            assert(is_first_member(s2, key, ms.len() as int));
            lemma_member_at(s2, key, ms.len() as int);
        } else {
            lemma_member_absent(s2, key);
        }
    }
}

/// Appends a member to an object under construction.
pub fn push_member(ms: &mut Vec<JsonMember>, key: String, value: JsonValue)
    ensures
        final(ms)@ == old(ms)@.push(JsonMember { key, value }),
        forall|k: Seq<char>|
            #[trigger] member(final(ms)@, k) == if member(old(ms)@, k) is Some {
                member(old(ms)@, k)
            } else if key@ == k {
                Some(value)
            } else {
                None::<JsonValue>
            },
{
    let ghost before = ms@;
    let ghost m = JsonMember { key, value };
    ms.push(JsonMember { key, value });
    proof {
        assert forall|k: Seq<char>|
            #[trigger] member(ms@, k) == if member(before, k) is Some {
                member(before, k)
            } else if m.key@ == k {
                Some(m.value)
            } else {
                None::<JsonValue>
            } by {
            lemma_member_push(before, m, k);
        }
    }
}

/// The member names of `ms` are pairwise distinct.
pub open spec fn distinct_names(ms: Seq<JsonMember>) -> bool {
    forall|a: int, b: int| 0 <= a < b < ms.len() ==> #[trigger] ms[a].key@ != #[trigger] ms[b].key@
}

/// In an object whose member names are distinct, each member is found under its own name.
pub proof fn lemma_member_distinct(ms: Seq<JsonMember>)
    requires
        distinct_names(ms),
    ensures
        forall|i: int| 0 <= i < ms.len() ==> member(ms, #[trigger] ms[i].key@) == Some(ms[i].value),
{
    assert forall|i: int| 0 <= i < ms.len() implies member(ms, #[trigger] ms[i].key@) == Some(
        ms[i].value,
    ) by {
        assert forall|j: int| 0 <= j < i implies ms[j].key@ != ms[i].key@ by {}
        assert(is_first_member(ms, ms[i].key@, i));
        lemma_member_at(ms, ms[i].key@, i);
    }
}

pub proof fn lemma_member_empty(key: Seq<char>)
    ensures
        member(Seq::<JsonMember>::empty(), key) is None,
{
    lemma_member_absent(Seq::<JsonMember>::empty(), key);
}

/// The value of the first member of `ms` named `key`.
pub fn find_member<'a>(ms: &'a Vec<JsonMember>, key: &str) -> (r: Option<&'a JsonValue>)
    ensures
        match r {
            Some(v) => member(ms@, key@) == Some(*v),
            None => member(ms@, key@) is None,
        },
{
    let mut i: usize = 0;
    while i < ms.len()
        invariant
            i <= ms@.len(),
            forall|j: int| 0 <= j < i ==> ms@[j].key@ != key@,
        decreases ms@.len() - i,
    {
        if str_eq(ms[i].key.as_str(), key) {
            proof {
                lemma_member_at(ms@, key@, i as int);
            }
            return Some(&ms[i].value);
        }
        i = i + 1;
    }
    proof {
        lemma_member_absent(ms@, key@);
    }
    None
}

/// The member named `key`, unless absent or null.
pub fn find_present<'a>(ms: &'a Vec<JsonMember>, key: &str) -> (r: Option<&'a JsonValue>)
    ensures
        match r {
            Some(v) => present(member(ms@, key@)) == Some(*v),
            None => present(member(ms@, key@)) is None,
        },
{
    match find_member(ms, key) {
        Some(JsonValue::Null) => None,
        other => other,
    }
}

/// Reads an optional string member.
pub fn read_opt_string(ms: &Vec<JsonMember>, key: &str) -> (r: Result<Option<String>, ()>)
    ensures
        match r {
            Ok(Some(s)) => opt_string(ms@, key@) == Some(Some(s@)),
            Ok(None) => opt_string(ms@, key@) == Some(None::<Seq<char>>),
            Err(()) => opt_string(ms@, key@) is None,
        },
{
    match find_present(ms, key) {
        None => Ok(None),
        Some(JsonValue::Str(s)) => Ok(Some(s.clone())),
        Some(_) => Err(()),
    }
}

/// Earliest instant whose text form has a four-digit year: 0000-01-01T00:00:00Z.
pub const MIN_TEXT_SECS: i64 = -62167219200;

/// Latest whole second whose text form has a four-digit year: 9999-12-31T23:59:59Z.
pub const MAX_TEXT_SECS: i64 = 253402300799;

/// An instant of years 0000 to 9999 that is no leap second.
pub open spec fn textual_instant(t: Timestamp) -> bool {
    MIN_TEXT_SECS <= t.secs <= MAX_TEXT_SECS && t.nanos < 1000000000
}

/// The instant an RFC 3339 text stands for, if it parses.
pub uninterp spec fn rfc3339_instant(s: Seq<char>) -> Option<(int, int)>;

/// Relies on `chrono::DateTime::from_timestamp` and
/// `DateTime::to_rfc3339_opts(SecondsFormat::AutoSi, true)`: every instant of years
/// 0000 to 9999 that is no leap second converts, and its text (four-digit year, `Z`,
/// the nanoseconds exactly) parses back to it.
#[verifier::external_body]
fn format_rfc3339(secs: i64, nanos: u32) -> (r: Option<String>)
    requires
        textual_instant(Timestamp { secs, nanos }),
    ensures
        r is Some && rfc3339_instant(r->Some_0@) == Some((secs as int, nanos as int)),
{
    chrono::DateTime::from_timestamp(secs, nanos).map(
        |d| d.to_rfc3339_opts(chrono::SecondsFormat::AutoSi, true),
    )
}

/// Relies on `chrono::DateTime::parse_from_rfc3339`, `DateTime::timestamp` and
/// `DateTime::timestamp_subsec_nanos`: the instant the text stands for, in UTC.
#[verifier::external_body]
fn parse_rfc3339(s: &str) -> (r: Option<(i64, u32)>)
    ensures
        match r {
            Some((secs, nanos)) => rfc3339_instant(s@) == Some((secs as int, nanos as int)),
            None => rfc3339_instant(s@) is None,
        },
{
    chrono::DateTime::parse_from_rfc3339(s).ok().map(|d| (d.timestamp(), d.timestamp_subsec_nanos()))
}

/// The instant a JSON value holds: RFC 3339 text of years 0000 to 9999.
pub open spec fn timestamp_of(v: JsonValue) -> Option<Timestamp> {
    match v {
        JsonValue::Str(s) => match rfc3339_instant(s@) {
            Some((secs, nanos)) => if MIN_TEXT_SECS <= secs <= MAX_TEXT_SECS && 0 <= nanos
                < 1000000000 {
                Some(Timestamp { secs: secs as i64, nanos: nanos as u32 })
            } else {
                None
            },
            None => None,
        },
        _ => None,
    }
}

/// The JSON text form of an instant of years 0000 to 9999.
pub fn timestamp_to_json(t: Timestamp) -> (r: Option<JsonValue>)
    ensures
        textual_instant(t) <==> r is Some,
        r is Some ==> timestamp_of(r->Some_0) == Some(t),
{
    if t.secs < MIN_TEXT_SECS || t.secs > MAX_TEXT_SECS || t.nanos >= 1000000000 {
        return None;
    }
    match format_rfc3339(t.secs, t.nanos) {
        Some(s) => Some(JsonValue::Str(s)),
        None => None,
    }
}

/// The instant a JSON value holds.
pub fn timestamp_from_json(v: &JsonValue) -> (r: Option<Timestamp>)
    ensures
        r == timestamp_of(*v),
{
    match v {
        JsonValue::Str(s) => match parse_rfc3339(s.as_str()) {
            Some((secs, nanos)) => {
                if secs < MIN_TEXT_SECS || secs > MAX_TEXT_SECS || nanos >= 1000000000 {
                    None
                } else {
                    Some(Timestamp { secs, nanos })
                }
            },
            None => None,
        },
        _ => None,
    }
}

} // verus!
