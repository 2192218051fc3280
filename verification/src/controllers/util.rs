//! Checks that several endpoints share.

use vstd::prelude::*;

verus! {

/// An `Origin` header that names a site other than this one.
#[derive(Debug)]
pub struct BadOrigin {
    /// The value of the header.
    pub origin: Vec<u8>,
}

/// The bytes of each of `values`, in their order.
pub open spec fn byte_strings(values: Seq<Vec<u8>>) -> Seq<Seq<u8>> {
    values.map_values(|value: Vec<u8>| value@)
}

/// `i` is the place of the first of `origins` that is not among `allowed`.
pub open spec fn is_first_bad_origin(origins: Seq<Seq<u8>>, allowed: Seq<Seq<u8>>, i: int) -> bool {
    &&& 0 <= i < origins.len()
    &&& !allowed.contains(origins[i])
    &&& forall|j: int| 0 <= j < i ==> allowed.contains(#[trigger] origins[j])
}

fn same_bytes(a: &Vec<u8>, b: &Vec<u8>) -> (same: bool)
    ensures
        same == (a@ == b@),
{
    if a.len() != b.len() {
        return false;
    }
    let mut i: usize = 0;
    while i < a.len()
        invariant
            a.len() == b.len(),
            i <= a.len(),
            forall|j: int| 0 <= j < i ==> a@[j] == b@[j],
        decreases a.len() - i,
    {
        if a[i] != b[i] {
            return false;
        }
        i += 1;
    }
    assert(a@ =~= b@);
    true
}

fn is_allowed(origin: &Vec<u8>, allowed_origins: &Vec<Vec<u8>>) -> (found: bool)
    ensures
        found == byte_strings(allowed_origins@).contains(origin@),
{
    let mut k: usize = 0;
    while k < allowed_origins.len()
        invariant
            k <= allowed_origins.len(),
            forall|j: int| 0 <= j < k ==> byte_strings(allowed_origins@)[j] != origin@,
        decreases allowed_origins.len() - k,
    {
        if same_bytes(&allowed_origins[k], origin) {
            assert(byte_strings(allowed_origins@)[k as int] == origin@);
            return true;
        }
        k += 1;
    }
    false
}

/// The `Origin` header is sent with cross-origin requests and with every
/// `POST`, and says where the request comes from. Authenticated requests
/// from other sites are not accepted: every origin that the request names
/// must be one of the allowed origins. The error holds the first that is not.
pub fn verify_origin(origins: &Vec<Vec<u8>>, allowed_origins: &Vec<Vec<u8>>) -> (verified: Result<
    (),
    BadOrigin,
>)
    ensures
        match verified {
            Ok(_) => forall|i: int|
                0 <= i < origins@.len() ==> byte_strings(allowed_origins@).contains(
                    #[trigger] byte_strings(origins@)[i],
                ),
            Err(bad) => exists|i: int|
                #[trigger] is_first_bad_origin(
                    byte_strings(origins@),
                    byte_strings(allowed_origins@),
                    i,
                ) && bad.origin@ == origins@[i]@,
        },
{
    let mut i: usize = 0;
    while i < origins.len()
        invariant
            i <= origins.len(),
            forall|j: int|
                0 <= j < i ==> byte_strings(allowed_origins@).contains(
                    #[trigger] byte_strings(origins@)[j],
                ),
        decreases origins.len() - i,
    {
        if !is_allowed(&origins[i], allowed_origins) {
            let bad = BadOrigin { origin: origins[i].clone() };
            assert(is_first_bad_origin(
                byte_strings(origins@),
                byte_strings(allowed_origins@),
                i as int,
            ));
            return Err(bad);
        }
        i += 1;
    }
    Ok(())
}

} // verus!
