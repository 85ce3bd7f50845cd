//! Values of header fields.
use vstd::prelude::*;

use crate::error::ParseError;

verus! {

/// The error of `http::header::HeaderValue::from_bytes`. It says nothing.
#[verifier::external_type_specification]
#[verifier::external_body]
pub struct ExInvalidHeaderValue(http::header::InvalidHeaderValue);

/// The bytes that may stand in a header field: a tab, and everything from the
/// space on except DEL. No line break is among them.
pub open spec fn is_header_byte(b: u8) -> bool {
    b == 9 || (b >= 32 && b != 127)
}

/// Whether every byte may stand in a header field.
pub open spec fn is_header_value(bytes: Seq<u8>) -> bool {
    forall|i: int| 0 <= i < bytes.len() ==> is_header_byte(#[trigger] bytes[i])
}

/// Calls `http::header::HeaderValue::from_bytes` and gives the value's bytes
/// back through `as_bytes`. Claimed: it succeeds if and only if each byte may
/// stand in a header field, and then holds the bytes unchanged.
#[verifier::external_body]
fn header_value_from_bytes(src: &[u8]) -> (r: Result<Vec<u8>, http::header::InvalidHeaderValue>)
    ensures
        r is Ok <==> is_header_value(src@),
        r matches Ok(bytes) ==> bytes@ == src@,
{
    http::header::HeaderValue::from_bytes(src).map(|value| value.as_bytes().to_vec())
}

/// The value of a header field. Its bytes hold no line break.
#[derive(Debug)]
pub struct HeaderValue {
    bytes: Vec<u8>,
}

impl View for HeaderValue {
    type V = Seq<u8>;

    closed spec fn view(&self) -> Seq<u8> {
        self.bytes@
    }
}

impl HeaderValue {
    #[verifier::type_invariant]
    spec fn valid(self) -> bool {
        is_header_value(self.bytes@)
    }

    /// Takes bytes as a header value, unless one of them may not stand there.
    pub fn from_bytes(src: &[u8]) -> (r: Result<HeaderValue, ParseError>)
        ensures
            match r {
                Ok(value) => is_header_value(src@) && value@ == src@,
                Err(e) => !is_header_value(src@) && e == ParseError::HeaderValue,
            },
    {
        match header_value_from_bytes(src) {
            Ok(bytes) => Ok(HeaderValue { bytes }),
            Err(_) => Err(ParseError::HeaderValue),
        }
    }

    /// The value's bytes.
    pub fn as_bytes(&self) -> (r: &[u8])
        ensures
            r@ == self@,
            is_header_value(self@),
    {
        proof {
            use_type_invariant(self);
        }
        self.bytes.as_slice()
    }
}

/// Bytes make a header value exactly if each is a tab, or lies from 32 to 126 or from
/// 128 on. The value then holds just these bytes.
pub proof fn header_values_are_their_bytes(
    src: &[u8],
    made: Result<HeaderValue, ParseError>,
    value: &HeaderValue,
    bytes: &[u8],
)
    requires
        call_ensures(HeaderValue::from_bytes, (src,), made),
        call_ensures(HeaderValue::as_bytes, (value,), bytes),
        made matches Ok(v) ==> *value == v,
    ensures
        bytes@ == value@,
        match made {
            Ok(_) => bytes@ == src@,
            Err(e) => e == ParseError::HeaderValue,
        },
        made is Ok <==> forall|i: int|
            0 <= i < src@.len() ==> {
                let b = #[trigger] src@[i];
                b == 9 || 32 <= b <= 126 || 128 <= b
            },
{
    assert(is_header_value(src@) <==> forall|i: int|
        0 <= i < src@.len() ==> {
            let b = #[trigger] src@[i];
            b == 9 || 32 <= b <= 126 || 128 <= b
        });
}

} // verus!
