//! File permissions.

use crate::number::{digits_value, radix_error, unsigned_read};
use crate::text::{digit, numeral, write_digit, write_number};
use std::num::ParseIntError;
use vstd::prelude::*;
use vstd::string::StringExecFns;

verus! {

/// A file permission bitmask.
#[derive(Clone, Copy, Debug, Eq, Hash, Ord, PartialEq, PartialOrd)]
pub struct Permissions(u32);

/// Why a text does not give file permissions.
#[derive(Debug, Eq, PartialEq)]
pub enum PermissionsError {
    /// The text is not an octal number.
    NotANumber(ParseIntError),
    /// The number has bits that are no permission bits.
    TooLarge(u32),
}

/// The permission bits that a text gives, or why it gives none.
pub open spec fn permissions_read(text: Seq<char>) -> Result<u32, PermissionsError> {
    match unsigned_read(text, 8) {
        Some(number) => if number > u32::MAX {
            Err(PermissionsError::NotANumber(radix_error(text, 8)))
        } else if number > 0o777 {
            Err(PermissionsError::TooLarge(number as u32))
        } else {
            Ok(number as u32)
        },
        None => Err(PermissionsError::NotANumber(radix_error(text, 8))),
    }
}

/// The permission bits of a result.
pub open spec fn bits_of(result: Result<Permissions, PermissionsError>) -> Result<
    u32,
    PermissionsError,
> {
    match result {
        Ok(permissions) => Ok(permissions@),
        Err(e) => Err(e),
    }
}

impl View for Permissions {
    type V = u32;

    /// The permission bits.
    closed spec fn view(&self) -> u32 {
        self.0
    }
}

impl Permissions {
    /// Only the bottom nine bits may be set.
    #[verifier::type_invariant]
    spec fn only_permission_bits(self) -> bool {
        self.0 <= 0o777
    }

    /// Returns the permission bits, which are the bottom nine bits.
    pub fn bits(&self) -> (bits: u32)
        ensures
            bits == self@,
            bits <= 0o777,
    {
        proof {
            use_type_invariant(self);
        }
        self.0
    }

    /// Reads permissions from their octal form.
    pub fn from_str(s: &str) -> (result: Result<Self, PermissionsError>)
        ensures
            bits_of(result) == permissions_read(s@),
    {
        let integer: u32 = match u32::from_str_radix(s, 8) {
            Ok(integer) => integer,
            Err(e) => {
                return Err(PermissionsError::NotANumber(e));
            },
        };
        if integer <= 0o777 {
            Ok(Permissions(integer))
        } else {
            Err(PermissionsError::TooLarge(integer))
        }
    }

    /// Returns the octal form, in three digits.
    pub fn to_string(&self) -> (text: String)
        ensures
            text@ == octal_form(self@),
    {
        proof {
            use_type_invariant(self);
        }
        let bits: u64 = self.0 as u64;
        let mut text: String = write_digit(bits / 64).to_owned();
        text.append(write_digit(bits / 8 % 8));
        text.append(write_digit(bits % 8));
        proof {
            assert(text@ =~= octal_form(self@));
        }
        text
    }

    /// The permissions that files get by default under a umask: to read and to write, as far as the
    /// umask does not forbid it.
    pub fn default_under(umask: u32) -> (permissions: Self)
        ensures
            permissions@ == 0o666u32 & !umask,
    {
        let bits: u32 = (0o777 ^ umask) & 0o666;
        proof {
            assert((0o777u32 ^ umask) & 0o666 == 0o666u32 & !umask) by (bit_vector);
            assert((0o777u32 ^ umask) & 0o666 <= 0o777) by (bit_vector);
        }
        Permissions(bits)
    }

    /// The umask under which a file that is created with all permissions gets these.
    pub fn umask(&self) -> (umask: u32)
        ensures
            umask == 0o777u32 ^ self@,
            umask <= 0o777,
    {
        proof {
            use_type_invariant(self);
            let bits = self.0;
            assert(bits <= 0o777 ==> 0o777u32 ^ bits <= 0o777) by (bit_vector);
        }
        0o777 ^ self.0
    }
}

/// The octal form of a number below 512, in three digits.
pub open spec fn octal_form(bits: u32) -> Seq<char> {
    seq![
        digit((bits / 64) as nat),
        digit((bits / 8 % 8) as nat),
        digit((bits % 8) as nat),
    ]
}

impl PermissionsError {
    /// The text that describes the error, unless it comes from the reading of a number, which
    /// describes itself.
    pub fn message(&self) -> (text: Option<String>)
        ensures
            match self {
                PermissionsError::NotANumber(_) => text is None,
                PermissionsError::TooLarge(integer) => text is Some && text->Some_0@
                    == "Invalid file permissions "@ + numeral(*integer as nat, 8)
                    + ", expected \u{2264}777"@,
            },
    {
        match self {
            PermissionsError::NotANumber(_) => None,
            PermissionsError::TooLarge(integer) => {
                let mut text: String = "Invalid file permissions ".to_owned();
                text.append(write_number(*integer as u64, 8).as_str());
                text.append(", expected \u{2264}777");
                Some(text)
            },
        }
    }
}

/// Permissions are read back from their octal form.
pub proof fn law_octal_form_is_read_back(bits: u32)
    requires
        bits <= 0o777,
    ensures
        permissions_read(octal_form(bits)) == Ok::<u32, PermissionsError>(bits),
{
    let text = octal_form(bits);
    assert(text.drop_last().drop_last().drop_last() =~= seq![]);
    reveal_with_fuel(digits_value, 4);
    assert(digits_value(text, 8) == bits);
}

/// The umask of some permissions leaves exactly those, of all permissions.
pub proof fn law_umask_leaves_permissions(bits: u32)
    requires
        bits <= 0o777,
    ensures
        0o777u32 & !(0o777u32 ^ bits) == bits,
{
    assert(bits <= 0o777 ==> 0o777u32 & !(0o777u32 ^ bits) == bits) by (bit_vector);
}

/// The default permissions grant nothing that the umask forbids, and no right to execute.
pub proof fn law_default_respects_umask(umask: u32)
    ensures
        (0o666u32 & !umask) & umask == 0,
        (0o666u32 & !umask) & 0o111 == 0,
{
    assert((0o666u32 & !umask) & umask == 0) by (bit_vector);
    assert((0o666u32 & !umask) & 0o111 == 0) by (bit_vector);
}

/// A text that is accepted gives the octal number that it stands for, with leading zeros or without,
/// and every octal number of up to nine bits is accepted.
pub proof fn law_permissions_are_octal(text: Seq<char>, bits: u32)
    ensures
        permissions_read(text) == Ok::<u32, PermissionsError>(bits) <==> unsigned_read(text, 8)
            == Some(bits as nat) && bits <= 511,
{
}

/// A text that is not accepted is refused for what it is: a number that is too large is named, and
/// only what is no number of 32 bits is refused as no number, with the error of the attempt to read
/// it.
pub proof fn law_permissions_are_refused(text: Seq<char>)
    ensures
        permissions_read(text) is Err <==> unsigned_read(text, 8) is None || unsigned_read(
            text,
            8,
        )->Some_0 >= 512,
        permissions_read(text) matches Err(PermissionsError::TooLarge(number)) ==> unsigned_read(
            text,
            8,
        ) == Some(number as nat),
        permissions_read(text) matches Err(PermissionsError::NotANumber(e)) ==> {
            &&& e == radix_error(text, 8)
            &&& unsigned_read(text, 8) is None || unsigned_read(text, 8)->Some_0 > 4294967295
        },
{
}

/// The octal form always has three digits, none of which is larger than seven, and stands for the
/// permissions.
pub proof fn law_octal_form_has_three_digits(bits: u32)
    requires
        bits <= 511,
    ensures
        octal_form(bits).len() == 3,
        forall|i: int| 0 <= i < 3 ==> '0' <= #[trigger] octal_form(bits)[i] <= '7',
        unsigned_read(octal_form(bits), 8) == Some(bits as nat),
{
    law_octal_form_is_read_back(bits);
    law_permissions_are_octal(octal_form(bits), bits);
}

/// A result holds the permission bits that were read, and hands an error on as it is.
pub proof fn law_result_bits(result: Result<Permissions, PermissionsError>)
    ensures
        result is Ok <==> bits_of(result) is Ok,
        result is Ok ==> bits_of(result)->Ok_0 == result->Ok_0@,
        result is Err ==> bits_of(result)->Err_0 == result->Err_0,
{
}

} // verus!
