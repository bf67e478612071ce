//! A structured document (a parsed JSON response or TOML configuration)
//! held as plain values, with the lookups the application makes in it.

use vstd::prelude::*;
use crate::text::{chars_of, seq_eq};

verus! {

/// A parsed JSON or TOML value. Numbers that are integers are held
/// exactly; other numbers and date-times are only marked.
pub enum DocValue {
    Null,
    Bool(bool),
    Int(i128),
    Float,
    Datetime,
    Str(String),
    Array(Vec<DocValue>),
    /// Members in document order; a key occurs at most once.
    Object(Vec<(String, DocValue)>),
}

/// The value of the first member named `key`.
pub open spec fn member(members: Seq<(String, DocValue)>, key: Seq<char>) -> Option<DocValue>
    decreases members.len(),
{
    if members.len() == 0 {
        None
    } else if members[0].0@ == key {
        Some(members[0].1)
    } else {
        member(members.drop_first(), key)
    }
}

/// The member `key` of an object; `None` for a value that is no object
/// or has no such member.
pub open spec fn field(v: DocValue, key: Seq<char>) -> Option<DocValue> {
    match v {
        DocValue::Object(m) => member(m@, key),
        _ => None,
    }
}

/// The text of a string value.
pub open spec fn text_of(v: Option<DocValue>) -> Option<Seq<char>> {
    match v {
        Some(DocValue::Str(s)) => Some(s@),
        _ => None,
    }
}

/// The `path` entry of the configuration, when it is a string.
pub open spec fn spec_config_path(config: DocValue) -> Option<Seq<char>> {
    text_of(field(config, "path"@))
}

/// The `port` entry of the configuration, when it is an integer, cut to
/// 16 bits as an `as u16` conversion does.
pub open spec fn spec_config_port(config: DocValue) -> Option<u16> {
    match field(config, "port"@) {
        Some(DocValue::Int(x)) => Some((x % 65536) as u16),
        _ => None,
    }
}

/// A lookup gives the value of the first member with that key, and none
/// exactly when no member has it.
pub proof fn member_is_first_with_key(members: Seq<(String, DocValue)>, key: Seq<char>)
    ensures
        member(members, key) matches Some(v) ==> exists|i: int|
            0 <= i < members.len() && #[trigger] members[i].0@ == key && members[i].1 == v && (
            forall|j: int| 0 <= j < i ==> members[j].0@ != key),
        member(members, key) is None ==> forall|i: int|
            0 <= i < members.len() ==> #[trigger] members[i].0@ != key,
    decreases members.len(),
{
    if members.len() > 0 && members[0].0@ != key {
        let rest = members.drop_first();
        member_is_first_with_key(rest, key);
        assert forall|i: int| 0 <= i < rest.len() implies rest[i] == members[i + 1] by {}
        if let Some(v) = member(rest, key) {
            let i = choose|i: int|
                0 <= i < rest.len() && #[trigger] rest[i].0@ == key && rest[i].1 == v && (forall|j: int|
                    0 <= j < i ==> rest[j].0@ != key);
            assert(members[i + 1].0@ == key);
            assert forall|j: int| 0 <= j < i + 1 implies members[j].0@ != key by {
                if j > 0 {
                    assert(rest[j - 1] == members[j]);
                }
            }
        } else {
            assert forall|i: int| 0 <= i < members.len() implies #[trigger] members[i].0@ != key by {
                if i > 0 {
                    assert(rest[i - 1] == members[i]);
                }
            }
        }
    } else if members.len() > 0 {
        assert(members[0].0@ == key);
    }
}

/// A port entry within `0..=65535` is read as it is; any other integer
/// is read modulo 65536, so entries 65536 apart give the same port.
pub proof fn config_port_reads_integer(config: DocValue, x: i128)
    requires
        field(config, "port"@) == Some(DocValue::Int(x)),
    ensures
        0 <= x < 65536 ==> spec_config_port(config) == Some(x as u16),
        spec_config_port(config) matches Some(p) && p as int == x % 65536 && (x - p as int) % 65536
            == 0,
{
}

/// Looking a member up in `members.skip(i)` after `i` non-matching ones.
proof fn lemma_member_skip(members: Seq<(String, DocValue)>, key: Seq<char>, i: int)
    requires
        0 <= i < members.len(),
        member(members, key) == member(members.skip(i), key),
        members[i].0@ != key,
    ensures
        member(members, key) == member(members.skip(i + 1), key),
{
    assert(members.skip(i).drop_first() =~= members.skip(i + 1));
}

/// The member `key` of `v`, when `v` is an object that has one.
pub fn get_field<'a>(v: &'a DocValue, key: &str) -> (res: Option<&'a DocValue>)
    ensures
        match field(*v, key@) {
            Some(x) => res matches Some(r) && *r == x,
            None => res is None,
        },
{
    match v {
        DocValue::Object(m) => {
            let k = chars_of(key);
            let mut i: usize = 0;
            assert(m@.skip(0) =~= m@);
            while i < m.len()
                invariant
                    k@ == key@,
                    field(*v, key@) == member(m@, key@),
                    i <= m@.len(),
                    member(m@, key@) == member(m@.skip(i as int), key@),
                decreases m@.len() - i,
            {
                let name = chars_of(m[i].0.as_str());
                if seq_eq(&name, &k) {
                    assert(m@.skip(i as int)[0] == m@[i as int]);
                    return Some(&m[i].1);
                }
                proof {
                    lemma_member_skip(m@, key@, i as int);
                }
                i = i + 1;
            }
            assert(m@.skip(i as int) =~= Seq::<(String, DocValue)>::empty());
            None
        },
        _ => None,
    }
}

/// The text of `v`, when it is a string.
pub fn get_text(v: Option<&DocValue>) -> (res: Option<String>)
    ensures
        match text_of(
            match v {
                Some(x) => Some(*x),
                None => None,
            },
        ) {
            Some(t) => res matches Some(r) && r@ == t,
            None => res is None,
        },
{
    match v {
        Some(DocValue::Str(s)) => Some(s.clone()),
        _ => None,
    }
}

/// The download directory named by the `path` entry of the configuration.
pub fn config_path(config: &DocValue) -> (res: Option<String>)
    ensures
        match spec_config_path(*config) {
            Some(p) => res matches Some(r) && r@ == p,
            None => res is None,
        },
{
    get_text(get_field(config, "path"))
}

/// The server port named by the `port` entry of the configuration.
pub fn config_port(config: &DocValue) -> (res: Option<u16>)
    ensures
        res == spec_config_port(*config),
{
    match get_field(config, "port") {
        Some(DocValue::Int(x)) => {
            let r = *x % 65536;
            let m = if r < 0 { r + 65536 } else { r };
            assert(m == *x % 65536);
            Some(m as u16)
        },
        _ => None,
    }
}

} // verus!
