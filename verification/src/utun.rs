use vstd::prelude::*;
use crate::decimal::{IntParseError, parse_u32, parse_u32_spec, all_digits, digits_value, law_parse_u32_reads_digits};
use vstd::string::StringSliceAdditionalSpecFns;

verus! {

/// The size of an interface-name field in the kernel's request structures:
/// 16 bytes on every Unix system that has utun devices.
pub const IFNAMSIZ: usize = 16;

/// Why a name was refused for a utun device.
#[derive(Clone, Copy, Debug, PartialEq, Eq, Structural)]
pub enum UtunNameError {
    /// The name is longer than an interface-name field holds.
    TooLong,
    /// The name does not start with `utun`.
    MissingUtunPrefix,
    /// What follows `utun` is not a decimal unit number.
    InvalidUnit(IntParseError),
}

impl UtunNameError {
    /// The message with which the error is reported.
    pub fn message(&self) -> (r: &'static str)
        ensures
            *self == UtunNameError::TooLong ==> r@ == "device name too long"@,
            *self == UtunNameError::MissingUtunPrefix ==> r@ == "device name must start with utun"@,
            self matches UtunNameError::InvalidUnit(e) ==> r@ == (match e {
                IntParseError::Empty => "cannot parse integer from empty string"@,
                IntParseError::InvalidDigit => "invalid digit found in string"@,
                IntParseError::Overflow => "number too large to fit in target type"@,
            }),
    {
        match self {
            UtunNameError::TooLong => "device name too long",
            UtunNameError::MissingUtunPrefix => "device name must start with utun",
            UtunNameError::InvalidUnit(e) => e.message(),
        }
    }
}

/// The bytes of `utun`.
pub open spec fn utun_prefix() -> Seq<u8> {
    seq![117u8, 116u8, 117u8, 110u8]
}

/// The interface-name field size that names are held to.
pub open spec fn interface_name_limit() -> nat {
    16
}

/// The kernel control unit that a utun device name asks for: no name asks
/// for unit 0 (the kernel picks the device), and `utunN` asks for unit N + 1.
pub open spec fn utun_unit_spec(name: Option<Seq<u8>>) -> Result<u32, UtunNameError> {
    match name {
        None => Ok(0),
        Some(b) => if b.len() > interface_name_limit() {
            Err(UtunNameError::TooLong)
        } else if !(b.len() >= 4 && b.take(4) == utun_prefix()) {
            Err(UtunNameError::MissingUtunPrefix)
        } else {
            match parse_u32_spec(b.skip(4)) {
                Ok(v) => Ok((v + 1) as u32),
                Err(e) => Err(UtunNameError::InvalidUnit(e)),
            }
        },
    }
}

/// The unit number of a name is `u32::MAX`, so that one more overflows.
pub open spec fn utun_unit_overflows(name: Option<Seq<u8>>) -> bool {
    match name {
        None => false,
        Some(b) => b.len() <= interface_name_limit() && b.len() >= 4 && b.take(4) == utun_prefix()
            && parse_u32_spec(b.skip(4)) == Ok::<u32, IntParseError>(u32::MAX),
    }
}

/// The kernel control unit to connect to for the utun device `name`; the
/// name's length is counted in bytes.
pub fn utun_unit(name: Option<&str>) -> (r: Result<u32, UtunNameError>)
    requires
        !utun_unit_overflows(
            match name {
                Some(n) => Some(n.spec_bytes()),
                None => None,
            },
        ),
    ensures
        r == utun_unit_spec(
            match name {
                Some(n) => Some(n.spec_bytes()),
                None => None,
            },
        ),
{
    match name {
        None => Ok(0),
        Some(n) => {
            let bytes = n.as_bytes();
            if bytes.len() > IFNAMSIZ {
                return Err(UtunNameError::TooLong);
            }
            if !(bytes.len() >= 4 && bytes[0] == 117 && bytes[1] == 116 && bytes[2] == 117
                && bytes[3] == 110) {
                proof {
                    if bytes@.len() >= 4 && bytes@.take(4) == utun_prefix() {
                        assert(bytes@.take(4)[0] == bytes@[0]);
                        assert(bytes@.take(4)[1] == bytes@[1]);
                        assert(bytes@.take(4)[2] == bytes@[2]);
                        assert(bytes@.take(4)[3] == bytes@[3]);
                    }
                }
                return Err(UtunNameError::MissingUtunPrefix);
            }
            assert(bytes@.take(4) =~= utun_prefix());
            let suffix = &bytes[4..bytes.len()];
            assert(suffix@ =~= bytes@.skip(4));
            match parse_u32(suffix) {
                Ok(v) => Ok(v + 1),
                Err(e) => Err(UtunNameError::InvalidUnit(e)),
            }
        },
    }
}

/// A name `utun` followed by a decimal unit number N that fits the
/// interface-name field asks for kernel unit N + 1.
pub proof fn law_utun_unit_of_number(digits: Seq<u8>)
    requires
        digits.len() > 0,
        all_digits(digits),
        digits.len() + 4 <= interface_name_limit(),
        digits_value(digits) < u32::MAX,
    ensures
        utun_unit_spec(Some(utun_prefix() + digits)) == Ok::<u32, UtunNameError>(
            (digits_value(digits) + 1) as u32,
        ),
{
    let name = utun_prefix() + digits;
    assert(name.take(4) =~= utun_prefix());
    assert(name.skip(4) =~= digits);
    law_parse_u32_reads_digits(digits);
}

/// A name that fits the field but does not start with `utun` is refused for
/// that, and a name longer than the field is refused as too long.
pub proof fn law_utun_unit_refusals(name: Seq<u8>)
    ensures
        name.len() > interface_name_limit() ==> utun_unit_spec(Some(name)) == Err::<u32, UtunNameError>(
            UtunNameError::TooLong,
        ),
        name.len() <= interface_name_limit() && (name.len() < 4 || name[0] != 117u8 || name[1]
            != 116u8 || name[2] != 117u8 || name[3] != 110u8) ==> utun_unit_spec(Some(name)) == Err::<
            u32,
            UtunNameError,
        >(UtunNameError::MissingUtunPrefix),
{
    if name.len() >= 4 && name.take(4) == utun_prefix() {
        assert(name[0] == name.take(4)[0]);
        assert(name[1] == name.take(4)[1]);
        assert(name[2] == name.take(4)[2]);
        assert(name[3] == name.take(4)[3]);
    }
}

/// A fixed-size, zero-padded C name field holding `name`.
pub fn c_name_field(name: &[u8], capacity: usize) -> (r: Vec<u8>)
    requires
        name@.len() <= capacity,
    ensures
        r@.len() == capacity,
        r@.take(name@.len() as int) == name@,
        forall|i: int| name@.len() <= i < capacity ==> #[trigger] r@[i] == 0u8,
{
    let mut field: Vec<u8> = Vec::new();
    let mut i: usize = 0;
    while i < capacity
        invariant
            name@.len() <= capacity,
            i <= capacity,
            field@.len() == i,
            forall|j: int| 0 <= j < i && j < name@.len() ==> #[trigger] field@[j] == name@[j],
            forall|j: int| name@.len() <= j < i ==> #[trigger] field@[j] == 0u8,
        decreases capacity - i,
    {
        if i < name.len() {
            field.push(name[i]);
        } else {
            field.push(0);
        }
        i = i + 1;
    }
    assert(field@.take(name@.len() as int) =~= name@);
    field
}


/// The text of a NUL-terminated C name field: the bytes before the first NUL,
/// or all of them when there is none.
pub fn c_field_text(field: &[u8]) -> (r: Vec<u8>)
    ensures
        r@.len() <= field@.len(),
        r@ == field@.take(r@.len() as int),
        forall|i: int| 0 <= i < r@.len() ==> #[trigger] r@[i] != 0u8,
        r@.len() < field@.len() ==> field@[r@.len() as int] == 0u8,
{
    let mut text: Vec<u8> = Vec::new();
    let mut i: usize = 0;
    while i < field.len() && field[i] != 0
        invariant
            i <= field@.len(),
            text@ == field@.take(i as int),
            forall|j: int| 0 <= j < i ==> #[trigger] field@[j] != 0u8,
        decreases field.len() - i,
    {
        text.push(field[i]);
        i = i + 1;
        assert(text@ =~= field@.take(i as int));
    }
    text
}

} // verus!
