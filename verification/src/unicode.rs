//! The Unicode properties that identifiers depend on.
//!
//! The identifier classes and the normalization of identifiers come from
//! the `unicode-xid` and `unicode-normalization` crates.  Their results are
//! table-driven, so this module gives each of them a name and states only
//! what the crates document.  The contracts of `is_xid_start`,
//! `is_xid_continue` and `nfkc` are believed, not proved.

use vstd::prelude::*;
use unicode_normalization::UnicodeNormalization;
use unicode_xid::UnicodeXID;

verus! {

/// What `unicode_xid::UnicodeXID::is_xid_start` returns for `c`: whether
/// `c` has the Unicode property `XID_Start`.
pub uninterp spec fn xid_start(c: char) -> bool;

/// What `unicode_xid::UnicodeXID::is_xid_continue` returns for `c`: whether
/// `c` has the Unicode property `XID_Continue`.
pub uninterp spec fn xid_continue(c: char) -> bool;

/// What `unicode_normalization::UnicodeNormalization::nfkc` yields for the
/// text `s`: the text in normalization form KC.
pub uninterp spec fn nfkc_form(s: Seq<char>) -> Seq<char>;

/// True for the ASCII letters.
pub open spec fn is_ascii_letter(c: char) -> bool {
    ('a' <= c && c <= 'z') || ('A' <= c && c <= 'Z')
}

/// Calls `unicode_xid::UnicodeXID::is_xid_start`.  The result is named
/// [`xid_start`]; for an ASCII character the crate answers without its
/// tables, and says yes exactly for the letters.
#[verifier::external_body]
pub(crate) fn is_xid_start(c: char) -> (r: bool)
    ensures
        r == xid_start(c),
        c <= '\x7f' ==> r == is_ascii_letter(c),
{
    UnicodeXID::is_xid_start(c)
}

/// Calls `unicode_xid::UnicodeXID::is_xid_continue`.  The result is named
/// [`xid_continue`]; for an ASCII character the crate answers without its
/// tables, and says yes exactly for letters, digits and the underscore.
#[verifier::external_body]
pub(crate) fn is_xid_continue(c: char) -> (r: bool)
    ensures
        r == xid_continue(c),
        c <= '\x7f' ==> r == (is_ascii_letter(c) || ('0' <= c && c <= '9') || c == '_'),
{
    UnicodeXID::is_xid_continue(c)
}

/// Calls `unicode_normalization::UnicodeNormalization::nfkc` on `text` and
/// collects what it yields.  The result is named [`nfkc_form`].  The crate
/// documents the result as being in normalization form KC, and a text is in
/// that form when normalizing it gives the same text back.
#[verifier::external_body]
pub(crate) fn nfkc(text: &str) -> (out: String)
    ensures
        out@ == nfkc_form(text@),
        nfkc_form(out@) == out@,
{
    text.nfkc().collect::<String>()
}

/// Whether an identifier may start with `c`: the underscore, or a character
/// with the property `XID_Start`.
pub open spec fn identifier_start(c: char) -> bool {
    c == '_' || xid_start(c)
}

/// Whether an identifier may continue with `c`: a character with the
/// property `XID_Continue`.
pub open spec fn identifier_continue(c: char) -> bool {
    xid_continue(c)
}

/// Whether an identifier may start with `c`.
pub fn is_identifier_start(c: char) -> (r: bool)
    ensures
        r == identifier_start(c),
{
    c == '_' || is_xid_start(c)
}

/// Whether an identifier may continue with `c`.
pub fn is_identifier_continue(c: char) -> (r: bool)
    ensures
        r == identifier_continue(c),
{
    is_xid_continue(c)
}

/// The identifier `text` in normalization form KC.  Normalizing the result
/// once more changes nothing.
pub fn normalize_name(text: &str) -> (out: String)
    ensures
        out@ == nfkc_form(text@),
        nfkc_form(out@) == out@,
{
    nfkc(text)
}

} // verus!
