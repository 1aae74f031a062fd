//! Where formatted text goes.

use vstd::prelude::*;

verus! {

/// `std::fmt::Formatter`, a buffer that formatted text is written to.
#[verifier::external_type_specification]
#[verifier::external_body]
pub struct ExFormatter<'a>(std::fmt::Formatter<'a>);

/// `std::fmt::Error`, the error of a destination that takes no more text.
#[verifier::external_type_specification]
#[verifier::external_body]
pub struct ExFmtError(std::fmt::Error);

/// The text that a formatter holds: all that has been written to it.
pub uninterp spec fn written_text(formatter: std::fmt::Formatter<'_>) -> Seq<char>;

/// `std::fmt::Formatter::write_str`, which appends text to what the formatter holds.
/// It succeeds only if all of the text has been written. Whether it does is up to the
/// destination, and of one that fails nothing is claimed.
pub assume_specification<'a>[ std::fmt::Formatter::<'a>::write_str ](
    formatter: &mut std::fmt::Formatter<'a>,
    data: &str,
) -> (written: Result<(), std::fmt::Error>)
    ensures
        written is Ok ==> written_text(*final(formatter)) == written_text(*old(formatter)) + data@,
;

} // verus!
