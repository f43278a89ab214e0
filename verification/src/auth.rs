//! Bearer-token authorisation of requests.

use vstd::prelude::*;
use vstd::string::*;

verus! {

/// The bytes `Bearer ` that open a bearer authorisation header.
pub open spec fn bearer_prefix() -> Seq<u8> {
    seq![66u8, 101u8, 97u8, 114u8, 101u8, 114u8, 32u8]
}

/// Whether an `Authorization` header value presents exactly the token
/// `expected`: it reads `Bearer ` followed by the token.
pub open spec fn presents_token(header: Seq<u8>, expected: Seq<u8>) -> bool {
    header == bearer_prefix() + expected
}

/// `subtle::ConstantTimeEq::ct_eq` on byte slices, turned into a `bool`:
/// true exactly when the slices are equal, compared in time independent
/// of their contents once their lengths agree.
#[verifier::external_body]
fn constant_time_eq(a: &[u8], b: &[u8]) -> (res: bool)
    ensures
        res == (a@ == b@),
{
    bool::from(subtle::ConstantTimeEq::ct_eq(a, b))
}

/// Whether a request is authorised: its `Authorization` header (`None` when
/// absent or not visible ASCII) is `Bearer ` followed by the expected token,
/// compared in constant time.
pub fn bearer_authorized(authorization: Option<&str>, expected: &str) -> (ok: bool)
    ensures
        ok == (authorization matches Some(h) && presents_token(
            h.spec_bytes(),
            expected.spec_bytes(),
        )),
{
    match authorization {
        None => false,
        Some(value) => {
            let bytes = value.as_bytes();
            let expected_bytes = expected.as_bytes();
            if bytes.len() < 7 || !(bytes[0] == 66u8 && bytes[1] == 101u8 && bytes[2] == 97u8
                && bytes[3] == 114u8 && bytes[4] == 101u8 && bytes[5] == 114u8 && bytes[6]
                == 32u8) {
                proof {
                    if presents_token(bytes@, expected_bytes@) {
                        assert(bytes@.take(7) =~= bearer_prefix());
                        assert(bytes@[0] == bearer_prefix()[0]);
                        assert(bytes@[1] == bearer_prefix()[1]);
                        assert(bytes@[2] == bearer_prefix()[2]);
                        assert(bytes@[3] == bearer_prefix()[3]);
                        assert(bytes@[4] == bearer_prefix()[4]);
                        assert(bytes@[5] == bearer_prefix()[5]);
                        assert(bytes@[6] == bearer_prefix()[6]);
                    }
                }
                return false;
            }
            let presented = &bytes[7..bytes.len()];
            let same_len = expected_bytes.len() == presented.len();
            let same_value = constant_time_eq(expected_bytes, presented);
            proof {
                assert(bytes@.take(7) =~= bearer_prefix());
                assert(bytes@ =~= bytes@.take(7) + presented@);
                if presents_token(bytes@, expected_bytes@) {
                    assert(presented@ =~= expected_bytes@);
                }
            }
            same_len && same_value
        },
    }
}

} // verus!
