//! The file that records the version of the database layout.
//!
//! The file holds one unsigned decimal number and a newline. A database is only
//! trusted when that number is the version this library was written for.

use vstd::prelude::*;

verus! {

/// The name of the layout version file inside the database root.
pub const LOCAL_DB_VERSION_FILE: &'static str = "ALPM_DB_VERSION";

/// The layout version that this library reads and writes.
pub const LOCAL_DB_CURRENT_VERSION: u64 = 9;

/// Whether `byte` is an ASCII decimal digit.
pub open spec fn is_digit(byte: u8) -> bool {
    0x30 <= byte <= 0x39
}

/// The longest run of decimal digits that `text` starts with.
pub open spec fn leading_digits(text: Seq<u8>) -> Seq<u8>
    decreases text.len(),
{
    if text.len() > 0 && is_digit(text[0]) {
        seq![text[0]] + leading_digits(text.drop_first())
    } else {
        Seq::empty()
    }
}

/// The number that a run of decimal digits denotes. The empty run denotes zero.
pub open spec fn decimal_value(digits: Seq<u8>) -> nat
    decreases digits.len(),
{
    if digits.len() == 0 {
        0
    } else {
        10 * decimal_value(digits.drop_last()) + (digits.last() - 0x30) as nat
    }
}

/// Whether `text` starts with a plus or a minus sign.
pub open spec fn has_sign(text: Seq<u8>) -> bool {
    text.len() > 0 && (text[0] == 0x2b || text[0] == 0x2d)
}

/// The number read from the start of `text`, if there is one.
///
/// An optional sign is followed by the longest run of digits; whatever comes after
/// the digits is ignored. Without a sign at least one digit is needed. After a minus
/// sign only zero can be read, since the number is unsigned. A number that does not
/// fit in 64 bits is not read.
pub open spec fn parsed_number(text: Seq<u8>) -> Option<u64> {
    let digits = leading_digits(
        if has_sign(text) {
            text.drop_first()
        } else {
            text
        },
    );
    let value = decimal_value(digits);
    if !has_sign(text) && digits.len() == 0 {
        None
    } else if has_sign(text) && text[0] == 0x2d && value != 0 {
        None
    } else if value > u64::MAX {
        None
    } else {
        Some(value as u64)
    }
}

/// Reads an unsigned number from the start of `text`.
///
/// Calls `atoi::atoi::<u64>`. Verus does not look into that function: that its
/// result is what [`parsed_number`] says is taken from its source, not proved.
/// `atoi` skips one leading sign, reads digits as long as there are any, gives
/// `None` when it consumed nothing or when the number leaves the range of `u64`
/// in either direction, and ignores the bytes that follow the digits.
#[verifier::external_body]
pub(crate) fn parse_number(text: &[u8]) -> (number: Option<u64>)
    ensures
        number == parsed_number(text@),
{
    atoi::atoi::<u64>(text)
}

/// The bytes of a version file for the current layout: the digit nine and a newline.
pub open spec fn current_version_bytes() -> Seq<u8> {
    seq![0x39u8, 0x0au8]
}

/// A version file made by this library is read back as the current version.
pub proof fn lemma_current_version_bytes_parse()
    ensures
        parsed_number(current_version_bytes()) == Some(LOCAL_DB_CURRENT_VERSION),
{
    let text = current_version_bytes();
    let rest = text.drop_first();
    assert(rest =~= seq![0x0au8]);
    assert(leading_digits(rest) =~= Seq::<u8>::empty());
    assert(leading_digits(text) =~= seq![0x39u8]) by {
        reveal_with_fuel(leading_digits, 2);
    }
    let digits = leading_digits(text);
    assert(digits.drop_last() =~= Seq::<u8>::empty());
    assert(decimal_value(digits) == 9) by {
        reveal_with_fuel(decimal_value, 2);
    }
}

/// The content to write into a new version file.
pub fn version_file_content() -> (content: Vec<u8>)
    ensures
        content@ == current_version_bytes(),
{
    let mut content: Vec<u8> = Vec::new();
    content.push(0x39u8);
    content.push(0x0au8);
    assert(content@ =~= current_version_bytes());
    content
}

} // verus!
