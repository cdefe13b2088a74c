//! Attribute keys and typed attribute values of a wire span record, and the
//! character-level string comparisons the field rules are stated with.

use vstd::prelude::*;

verus! {

/// A typed attribute value. Floating-point values are carried as their IEEE
/// bit pattern, which the host converts at the boundary.
#[derive(Clone, Debug, PartialEq)]
pub enum AttrValue {
    Bool(bool),
    I64(i64),
    F64Bits(u64),
    Str(String),
    StrArray(Vec<String>),
}

/// One attribute: an ordered key/value entry of a record, an event or a link.
/// Duplicate keys are permitted; readers take the last entry of a key.
#[derive(Clone, Debug, PartialEq)]
pub struct KeyValue {
    pub key: String,
    pub value: AttrValue,
}

/// The value an attribute list holds for a key: the value of the last entry
/// with that key, if any.
pub open spec fn attrs_lookup(attrs: Seq<KeyValue>, key: Seq<char>) -> Option<AttrValue>
    decreases attrs.len(),
{
    if attrs.len() == 0 {
        None
    } else if attrs.last().key@ == key {
        Some(attrs.last().value)
    } else {
        attrs_lookup(attrs.drop_last(), key)
    }
}

/// Appending an entry makes its value the one looked up for its key and
/// leaves every other key's lookup unchanged.
pub proof fn lemma_attrs_lookup_push(attrs: Seq<KeyValue>, kv: KeyValue, key: Seq<char>)
    ensures
        attrs_lookup(attrs.push(kv), key) == if kv.key@ == key {
            Some(kv.value)
        } else {
            attrs_lookup(attrs, key)
        },
{
    let pushed = attrs.push(kv);
    assert(pushed.last() == kv);
    assert(pushed.drop_last() =~= attrs);
}

/// The lowercase form of an ASCII character code; other codes are unchanged.
pub open spec fn ascii_lower(c: int) -> int {
    if 65 <= c <= 90 {
        c + 32
    } else {
        c
    }
}

/// Character sequences equal up to ASCII case.
pub open spec fn chars_eq_ci(a: Seq<char>, b: Seq<char>) -> bool {
    &&& a.len() == b.len()
    &&& forall|i: int| 0 <= i < a.len() ==> ascii_lower(a[i] as int) == ascii_lower(b[i] as int)
}

/// `b` is a prefix of `a` up to ASCII case.
pub open spec fn chars_prefix_ci(a: Seq<char>, b: Seq<char>) -> bool {
    &&& a.len() >= b.len()
    &&& forall|i: int| 0 <= i < b.len() ==> ascii_lower(a[i] as int) == ascii_lower(b[i] as int)
}

/// `b` is a prefix of `a`, exactly.
pub open spec fn chars_prefix(a: Seq<char>, b: Seq<char>) -> bool {
    &&& a.len() >= b.len()
    &&& forall|i: int| 0 <= i < b.len() ==> a[i] == b[i]
}

/// Whether two string slices hold the same characters.
pub fn str_eq(a: &str, b: &str) -> (r: bool)
    ensures
        r == (a@ == b@),
{
    let la = a.unicode_len();
    let lb = b.unicode_len();
    if la != lb {
        proof {
            assert(a@ != b@) by {
                if a@ == b@ {
                    assert(a@.len() == b@.len());
                }
            }
        }
        return false;
    }
    let mut i: usize = 0;
    while i < la
        invariant
            la == a@.len(),
            la == b@.len(),
            i <= la,
            forall|j: int| 0 <= j < i ==> a@[j] == b@[j],
        decreases la - i,
    {
        if a.get_char(i) != b.get_char(i) {
            return false;
        }
        i += 1;
    }
    proof {
        assert(a@ =~= b@);
    }
    true
}

/// Whether two string slices are equal up to ASCII case.
pub fn str_eq_ci(a: &str, b: &str) -> (r: bool)
    ensures
        r == chars_eq_ci(a@, b@),
{
    let la = a.unicode_len();
    let lb = b.unicode_len();
    if la != lb {
        return false;
    }
    let mut i: usize = 0;
    while i < la
        invariant
            la == a@.len(),
            la == b@.len(),
            i <= la,
            forall|j: int| 0 <= j < i ==> ascii_lower(a@[j] as int) == ascii_lower(b@[j] as int),
        decreases la - i,
    {
        let ca = a.get_char(i) as u32;
        let cb = b.get_char(i) as u32;
        let fa = if 65 <= ca && ca <= 90 {
            ca + 32
        } else {
            ca
        };
        let fb = if 65 <= cb && cb <= 90 {
            cb + 32
        } else {
            cb
        };
        if fa != fb {
            return false;
        }
        i += 1;
    }
    true
}

/// Whether `b` is a prefix of `a` up to ASCII case.
pub fn str_prefix_ci(a: &str, b: &str) -> (r: bool)
    ensures
        r == chars_prefix_ci(a@, b@),
{
    let la = a.unicode_len();
    let lb = b.unicode_len();
    if la < lb {
        return false;
    }
    let mut i: usize = 0;
    while i < lb
        invariant
            la == a@.len(),
            lb == b@.len(),
            la >= lb,
            i <= lb,
            forall|j: int| 0 <= j < i ==> ascii_lower(a@[j] as int) == ascii_lower(b@[j] as int),
        decreases lb - i,
    {
        let ca = a.get_char(i) as u32;
        let cb = b.get_char(i) as u32;
        let fa = if 65 <= ca && ca <= 90 {
            ca + 32
        } else {
            ca
        };
        let fb = if 65 <= cb && cb <= 90 {
            cb + 32
        } else {
            cb
        };
        if fa != fb {
            return false;
        }
        i += 1;
    }
    true
}

/// Whether `b` is a prefix of `a`, exactly.
pub fn str_prefix(a: &str, b: &str) -> (r: bool)
    ensures
        r == chars_prefix(a@, b@),
{
    let la = a.unicode_len();
    let lb = b.unicode_len();
    if la < lb {
        return false;
    }
    let mut i: usize = 0;
    while i < lb
        invariant
            la == a@.len(),
            lb == b@.len(),
            la >= lb,
            i <= lb,
            forall|j: int| 0 <= j < i ==> a@[j] == b@[j],
        decreases lb - i,
    {
        if a.get_char(i) != b.get_char(i) {
            return false;
        }
        i += 1;
    }
    true
}

} // verus!
