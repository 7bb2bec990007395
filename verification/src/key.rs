//! Keys under which contexts store values: the encoded key together with the
//! identity of the key's type.
use vstd::prelude::*;
use std::any::TypeId;
use crate::runtime::same_type;

verus! {

/// A key with its type information: the bytes that the key encodes to, and
/// the identifier of the key's type. Two keys of different types never match,
/// even where their bytes agree.
pub struct TypedKey {
    /// The encoded key value.
    key: Vec<u8>,
    /// Identifier of the key's type.
    type_id: TypeId,
}

impl View for TypedKey {
    type V = (Seq<u8>, TypeId);

    closed spec fn view(&self) -> (Seq<u8>, TypeId) {
        (self.key@, self.type_id)
    }
}

/// Whether two byte sequences are equal, compared element by element.
fn bytes_equal(a: &Vec<u8>, b: &Vec<u8>) -> (r: bool)
    ensures
        r == (a@ == b@),
{
    if a.len() != b.len() {
        return false;
    }
    let mut i: usize = 0;
    while i < a.len()
        invariant
            a@.len() == b@.len(),
            0 <= i <= a@.len(),
            forall|j: int| 0 <= j < i ==> a@[j] == b@[j],
        decreases a@.len() - i,
    {
        if a[i] != b[i] {
            return false;
        }
        i = i + 1;
    }
    assert(a@ =~= b@);
    true
}

impl TypedKey {
    /// A key made of the bytes that a key value encodes to and the identifier
    /// of its type.
    pub fn new(key: Vec<u8>, type_id: TypeId) -> (r: TypedKey)
        ensures
            r@ == (key@, type_id),
    {
        TypedKey { key, type_id }
    }

    /// The identifier of the key's type.
    pub fn type_id(&self) -> (r: TypeId)
        ensures
            r == self@.1,
    {
        self.type_id
    }

    /// Whether `other` stands for the same key: the same type, and the same bytes.
    pub fn matches(&self, other: &TypedKey) -> (r: bool)
        ensures
            r == (self@ == other@),
    {
        if !same_type(&self.type_id, &other.type_id) {
            return false;
        }
        bytes_equal(&self.key, &other.key)
    }
}

} // verus!
