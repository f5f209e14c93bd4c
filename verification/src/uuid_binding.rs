//! Binding of a version-5 UUID to the bytes it was derived from.

use vstd::prelude::*;

verus! {

/// Number of bytes in a UUID.
pub const UUID_LEN: usize = 16;

/// The sixteen bytes of the version-5 UUID that RFC 4122 derives from a
/// namespace and a name: the SHA-1 digest of the namespace's bytes followed
/// by the name, cut to sixteen bytes, with the version and variant bits set.
pub uninterp spec fn v5_uuid(namespace: Seq<u8>, name: Seq<u8>) -> Seq<u8>;

/// `id` carries the marks of a version-5, variant-1 UUID: the high nibble of
/// byte 6 is 5, and the two high bits of byte 8 are `10`.
pub open spec fn has_v5_marks(id: Seq<u8>) -> bool {
    &&& id.len() == UUID_LEN
    &&& (id[6] & 0xf0) == 0x50
    &&& (id[8] & 0xc0) == 0x80
}

/// Calls `uuid::Uuid::new_v5` on the UUID made of `namespace` and on `name`,
/// and hands back the bytes of the UUID it returns. Trusted: the result is
/// the derivation that `v5_uuid` names, a function of the two arguments
/// alone, and it carries the version and variant marks that the crate sets
/// on every UUID it builds from a SHA-1 digest.
#[verifier::external_body]
fn derive_v5(namespace: &[u8; 16], name: &[u8]) -> (id: [u8; 16])
    ensures
        id@ == v5_uuid(namespace@, name@),
        has_v5_marks(id@),
{
    uuid::Uuid::new_v5(&uuid::Uuid::from_bytes(*namespace), name).into_bytes()
}

/// `candidate` is the version-5 UUID of `content` under `namespace`.
pub open spec fn is_file_uuid(namespace: Seq<u8>, content: Seq<u8>, candidate: Seq<u8>) -> bool {
    v5_uuid(namespace, content) == candidate
}

/// Decides whether two UUIDs are the same, bit for bit.
pub fn same_uuid(a: &[u8; 16], b: &[u8; 16]) -> (r: bool)
    ensures
        r == (a@ == b@),
{
    let mut i: usize = 0;
    while i < UUID_LEN
        invariant
            i <= UUID_LEN,
            forall|k: int| 0 <= k < i ==> a@[k] == b@[k],
        decreases UUID_LEN - i,
    {
        if a[i] != b[i] {
            return false;
        }
        i += 1;
    }
    assert(a@ =~= b@);
    true
}

/// Derives the version-5 UUID of `file` under `namespace` anew and says
/// whether `uuid` is that UUID, bit for bit. A candidate without the marks
/// of version 5 and variant 1 is rejected whatever the file holds.
pub fn validate_file_uuid(namespace: &[u8; 16], file: &[u8], uuid: &[u8; 16]) -> (r: bool)
    ensures
        r == is_file_uuid(namespace@, file@, uuid@),
        r ==> has_v5_marks(uuid@),
{
    let derived = derive_v5(namespace, file);
    same_uuid(&derived, uuid)
}

/// The UUID derived from a namespace and a content is accepted for that
/// namespace and that content.
pub proof fn lemma_derived_uuid_accepted(namespace: Seq<u8>, content: Seq<u8>)
    ensures
        is_file_uuid(namespace, content, v5_uuid(namespace, content)),
{
}

/// A UUID derived from one namespace and content is rejected for another
/// namespace or another content, unless the two derivations collide.
pub proof fn lemma_other_derivation_rejected(
    namespace: Seq<u8>,
    content: Seq<u8>,
    other_namespace: Seq<u8>,
    other_content: Seq<u8>,
)
    requires
        v5_uuid(other_namespace, other_content) != v5_uuid(namespace, content),
    ensures
        !is_file_uuid(other_namespace, other_content, v5_uuid(namespace, content)),
{
}

} // verus!
