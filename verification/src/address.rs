//! Account addresses.

use std::str::FromStr;
use vstd::prelude::*;
use vstd::std_specs::cmp::PartialEqSpecImpl;

verus! {

/// How many bytes an address has.
pub const ADDRESS_BYTES: usize = 20;

/// A fixed-width account identifier. Reserved addresses, one per native
/// contract, are ordinary values of this type.
#[derive(Clone, Copy, Debug, Hash)]
pub struct Address(pub [u8; 20]);

impl View for Address {
    type V = Seq<u8>;

    open spec fn view(&self) -> Seq<u8> {
        self.0@
    }
}

/// The value of a hexadecimal digit, of either case; `None` for any other
/// character.
pub open spec fn hex_value(digit: char) -> Option<u8> {
    if '0' <= digit <= '9' {
        Some((digit as u8 - '0' as u8) as u8)
    } else if 'a' <= digit <= 'f' {
        Some((digit as u8 - 'a' as u8 + 10) as u8)
    } else if 'A' <= digit <= 'F' {
        Some((digit as u8 - 'A' as u8 + 10) as u8)
    } else {
        None
    }
}

/// The characters that may stand anywhere between the digits of an address.
pub open spec fn is_blank(c: char) -> bool {
    c == ' ' || c == '\r' || c == '\n' || c == '\t'
}

/// The values of the hexadecimal digits in `text`, in order, with blanks
/// passed over; `None` where `text` holds anything else.
pub open spec fn hex_digits(text: Seq<char>) -> Option<Seq<u8>>
    decreases text.len(),
{
    if text.len() == 0 {
        Some(Seq::empty())
    } else {
        match hex_digits(text.drop_last()) {
            None => None,
            Some(digits) => if is_blank(text.last()) {
                Some(digits)
            } else {
                match hex_value(text.last()) {
                    Some(value) => Some(digits.push(value)),
                    None => None,
                }
            },
        }
    }
}

/// The bytes of the address that `text` spells, or `None` where it spells
/// none. An address is written as forty hexadecimal digits, the first byte
/// first and the high half of each byte first, after an optional `0x`.
pub open spec fn address_of_hex(text: Seq<char>) -> Option<Seq<u8>> {
    let body = if text.len() >= 2 && text[0] == '0' && text[1] == 'x' {
        text.skip(2)
    } else {
        text
    };
    match hex_digits(body) {
        Some(digits) => if digits.len() == 2 * ADDRESS_BYTES {
            Some(Seq::new(ADDRESS_BYTES as nat, |i: int| (16 * digits[2 * i] + digits[2 * i + 1]) as u8))
        } else {
            None
        },
        None => None,
    }
}

/// Parses `text` with `cita_types::Address::from_str` and hands out the
/// bytes of the address it made. Unverified: trusted to accept exactly the
/// texts that `address_of_hex` accepts, with the bytes it gives.
#[verifier::external_body]
fn h160_from_str(text: &str) -> (bytes: Option<[u8; 20]>)
    ensures
        match bytes {
            Some(parsed) => address_of_hex(text@) == Some(parsed@),
            None => address_of_hex(text@) is None,
        },
{
    match cita_types::Address::from_str(text) {
        Ok(address) => Some(address.0),
        Err(_) => None,
    }
}

impl Address {
    /// The address that `text` spells in hexadecimal, or `None` where it
    /// spells none.
    pub fn from_hex(text: &str) -> (address: Option<Address>)
        ensures
            match address {
                Some(parsed) => address_of_hex(text@) == Some(parsed@),
                None => address_of_hex(text@) is None,
            },
    {
        match h160_from_str(text) {
            Some(bytes) => Some(Address(bytes)),
            None => None,
        }
    }

    /// The address made of the given bytes.
    pub fn new(bytes: [u8; 20]) -> (address: Address)
        ensures
            address@ == bytes@,
    {
        Address(bytes)
    }

    /// The bytes of the address, first byte first.
    pub fn as_bytes(&self) -> (bytes: &[u8; 20])
        ensures
            bytes@ == self@,
    {
        &self.0
    }
}

impl PartialEq for Address {
    /// Two addresses are equal when all their bytes are.
    fn eq(&self, other: &Address) -> (equal: bool) {
        let mut i: usize = 0;
        while i < ADDRESS_BYTES
            invariant
                i <= ADDRESS_BYTES,
                forall|k: int| 0 <= k < i ==> self.0@[k] == other.0@[k],
            decreases ADDRESS_BYTES - i,
        {
            if self.0[i] != other.0[i] {
                return false;
            }
            i += 1;
        }
        assert(self.0@ =~= other.0@);
        true
    }
}

impl PartialEqSpecImpl for Address {
    open spec fn obeys_eq_spec() -> bool {
        true
    }

    open spec fn eq_spec(&self, other: &Address) -> bool {
        self@ == other@
    }
}

impl Eq for Address {

}

} // verus!
