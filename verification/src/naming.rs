//! The names of the files of one upload. Both are made from the stamp of the
//! second in which the upload was stored.

use vstd::prelude::*;
use vstd::string::*;

verus! {

/// The path of the raw file for `stamp`: `./uploads/<stamp>.yaml`.
pub open spec fn raw_path_text(stamp: Seq<char>) -> Seq<char> {
    "./uploads/"@ + stamp + ".yaml"@
}

/// The path of the converted copy for `stamp`:
/// `./uploads/<stamp>.xrpals.yaml`.
pub open spec fn converted_path_text(stamp: Seq<char>) -> Seq<char> {
    "./uploads/"@ + stamp + ".xrpals.yaml"@
}

/// The path under which the raw file of the upload stamped `stamp` is stored.
pub fn raw_path(stamp: &str) -> (path: String)
    ensures
        path@ == raw_path_text(stamp@),
{
    let mut path: String = "./uploads/".to_owned();
    path.append(stamp);
    path.append(".yaml");
    path
}

/// The path under which the converted copy of the upload stamped `stamp` is
/// stored.
pub fn converted_path(stamp: &str) -> (path: String)
    ensures
        path@ == converted_path_text(stamp@),
{
    let mut path: String = "./uploads/".to_owned();
    path.append(stamp);
    path.append(".xrpals.yaml");
    path
}

/// The current time in UTC, written as year, month, day, hour, minute and
/// second without separators.
///
/// Calls `chrono::Utc::now` and formats what it returns with chrono's
/// `DateTime::format` and the pattern `%Y%m%d%H%M%S`. Nothing is claimed of
/// the text: it is whatever the clock gives, and chrono stops the program
/// where the clock stands before 1970.
#[verifier::external_body]
pub(crate) fn utc_stamp() -> (stamp: String) {
    chrono::Utc::now().format("%Y%m%d%H%M%S").to_string()
}

/// Uploads stored in different seconds take different names.
pub proof fn lemma_other_second_other_names(first: Seq<char>, second: Seq<char>)
    requires
        first != second,
    ensures
        raw_path_text(first) != raw_path_text(second),
        converted_path_text(first) != converted_path_text(second),
{
    let dir = "./uploads/"@;
    let raw_end = ".yaml"@;
    let converted_end = ".xrpals.yaml"@;
    if raw_path_text(first) == raw_path_text(second) {
        lemma_middle_is_determined(dir, first, second, raw_end);
    }
    if converted_path_text(first) == converted_path_text(second) {
        lemma_middle_is_determined(dir, first, second, converted_end);
    }
}

/// Between a fixed beginning and a fixed end, the whole determines the middle.
proof fn lemma_middle_is_determined(
    beginning: Seq<char>,
    a: Seq<char>,
    b: Seq<char>,
    end: Seq<char>,
)
    requires
        beginning + a + end == beginning + b + end,
    ensures
        a == b,
{
    let left = beginning + a + end;
    let right = beginning + b + end;
    assert(left.len() == beginning.len() + a.len() + end.len());
    assert(right.len() == beginning.len() + b.len() + end.len());
    assert forall|i: int| 0 <= i < a.len() implies a[i] == b[i] by {
        assert(left[beginning.len() + i] == a[i]);
        assert(right[beginning.len() + i] == b[i]);
    }
    assert(a =~= b);
}

} // verus!
