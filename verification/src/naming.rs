//! The names of the files that a scan writes.

use vstd::prelude::*;
use vstd::string::StringExecFns;

verus! {

/// What every recovery file's name begins with.
pub open spec fn recovery_prefix() -> Seq<char> {
    "temp-pos-"@
}

/// What the name of a position file ends with where the operator gives
/// none.
pub open spec fn position_suffix() -> Seq<char> {
    "-ledpos.json"@
}

/// The name of the recovery file written at the time that `stamp` shows.
pub open spec fn recovery_name_at(stamp: Seq<char>) -> Seq<char> {
    recovery_prefix() + stamp
}

/// The name of the position file: the operator's answer, or where that is
/// empty the time and the usual ending.
pub open spec fn position_name_at(answer: Seq<char>, stamp: Seq<char>) -> Seq<char> {
    if answer.len() == 0 {
        stamp + position_suffix()
    } else {
        answer
    }
}

/// Calls `chrono::Local::now` and formats what it returns as year, month,
/// day, hour, minute and second. The text depends on the clock and on the
/// time zone of the machine, so nothing is claimed of it.
#[verifier::external_body]
fn local_stamp() -> (stamp: String) {
    chrono::Local::now().format("%Y-%m-%d-%H:%M:%S").to_string()
}

/// Builds the name of the recovery file for a time.
pub fn recovery_name_for(stamp: &str) -> (name: String)
    ensures
        name@ == recovery_name_at(stamp@),
{
    String::from_str("temp-pos-").concat(stamp)
}

/// Builds the name of the position file from the operator's answer and a
/// time.
pub fn position_name_for(answer: &str, stamp: &str) -> (name: String)
    ensures
        name@ == position_name_at(answer@, stamp@),
{
    if answer.unicode_len() == 0 {
        String::from_str(stamp).concat("-ledpos.json")
    } else {
        String::from_str(answer)
    }
}

/// Names the recovery file for the partial results of a scan that is
/// given up now.
pub fn recovery_name() -> (name: String)
    ensures
        name@.len() >= recovery_prefix().len(),
        name@.take(recovery_prefix().len() as int) == recovery_prefix(),
{
    let stamp = local_stamp();
    let name = recovery_name_for(stamp.as_str());
    assert(name@.take(recovery_prefix().len() as int) =~= recovery_prefix());
    name
}

/// Names the position file of a scan that ends now, given the operator's
/// answer: the answer where there is one.
pub fn position_name(answer: &str) -> (name: String)
    ensures
        answer@.len() > 0 ==> name@ == answer@,
        answer@.len() == 0 ==> name@.len() >= position_suffix().len() && name@.skip(
            name@.len() - position_suffix().len(),
        ) == position_suffix(),
{
    let stamp = local_stamp();
    let name = position_name_for(answer, stamp.as_str());
    proof {
        if answer@.len() == 0 {
            assert(name@.skip(name@.len() - position_suffix().len()) =~= position_suffix());
        }
    }
    name
}

} // verus!
