//! Where a log dump is written to.

use chrono::Utc;
use vstd::prelude::*;

use crate::ops::concat;

verus! {

/// How the time is written in the name of a dump: date, dash, time of day.
pub const STAMP_PATTERN: &'static str = "%Y%m%d-%H%M%S";

/// Whether a text is a time in this pattern: a year of at least four digits, with a
/// sign where it has more, month and day, a dash, and the time of day.
pub open spec fn is_stamp(text: Seq<char>) -> bool {
    &&& text.len() >= 15
    &&& text[text.len() - 7] == '-'
    &&& forall|i: int|
        0 <= i < text.len() && i != text.len() - 7 ==> '0' <= #[trigger] text[i] <= '9' || (i == 0
            && (text[i] == '+' || text[i] == '-'))
}

/// `chrono`'s `Utc::now`, written out by `format` in this pattern. Which time it is
/// depends on the clock; what is claimed is the form of the text. The pattern is one
/// that `format` can write: others can make it panic.
#[verifier::external_body]
pub(crate) fn utc_now(pattern: &str) -> (r: String)
    requires
        pattern@ == STAMP_PATTERN@,
    ensures
        is_stamp(r@),
{
    Utc::now().format(pattern).to_string()
}

/// The path of `file` as seen from `dir`: an absolute path stands for itself.
pub open spec fn path_below(dir: Seq<char>, file: Seq<char>) -> Seq<char> {
    if dir.len() == 0 || (file.len() > 0 && file[0] == '/') {
        file
    } else if dir.last() == '/' {
        dir + file
    } else {
        dir.push('/') + file
    }
}

/// The path of a dump of the target `name` that is made at the time `stamp`.
pub open spec fn dump_path(dir: Seq<char>, name: Seq<char>, stamp: Seq<char>) -> Seq<char> {
    path_below(dir, name + "-"@ + stamp + ".log"@)
}

/// The path of `file` as seen from `dir`.
pub fn join_path(dir: &str, file: &str) -> (r: String)
    ensures
        r@ == path_below(dir@, file@),
{
    let last: Option<char> = last_char(dir);
    let first: Option<char> = first_char(file);
    match (last, first) {
        (None, _) => file.to_owned(),
        (_, Some('/')) => file.to_owned(),
        (Some('/'), _) => concat(dir, file),
        _ => {
            let mut out: String = dir.to_owned();
            out.push('/');
            out.append(file);
            out
        },
    }
}

fn first_char(text: &str) -> (r: Option<char>)
    ensures
        r == (if text@.len() == 0 {
            None
        } else {
            Some(text@[0])
        }),
{
    if text.is_empty() {
        None
    } else {
        Some(text.get_char(0))
    }
}

fn last_char(text: &str) -> (r: Option<char>)
    ensures
        r == (if text@.len() == 0 {
            None
        } else {
            Some(text@.last())
        }),
{
    if text.is_empty() {
        None
    } else {
        Some(text.get_char(text.unicode_len() - 1))
    }
}

/// The path of a dump of the target `name` that is made at the time `stamp`.
pub fn dump_destination(dir: &str, name: &str, stamp: &str) -> (r: String)
    ensures
        r@ == dump_path(dir@, name@, stamp@),
{
    let mut file: String = concat(name, "-");
    file.append(stamp);
    file.append(".log");
    join_path(dir, file.as_str())
}

/// A dump is written into the directory that is set, to a file that bears the name
/// of the target, the time and the ending `.log`, unless the name of the target is
/// an absolute path.
pub proof fn law_dumps_go_into_the_directory(dir: Seq<char>, name: Seq<char>, stamp: Seq<char>)
    requires
        dir.len() > 0,
        name.len() == 0 || name[0] != '/',
    ensures
        dump_path(dir, name, stamp) == (if dir.last() == '/' {
            dir
        } else {
            dir.push('/')
        }) + (name + "-"@ + stamp + ".log"@),
{
    reveal_strlit("-");
    reveal_strlit(".log");
    let file = name + "-"@ + stamp + ".log"@;
    if name.len() == 0 {
        assert(file[0] == '-');
    } else {
        assert(file[0] == name[0]);
    }
}

/// Without a directory a path stands for itself, and so does an absolute path.
pub proof fn law_absolute_paths_stand_for_themselves(dir: Seq<char>, file: Seq<char>)
    ensures
        dir.len() == 0 ==> path_below(dir, file) == file,
        file.len() > 0 && file[0] == '/' ==> path_below(dir, file) == file,
        dir.len() > 0 && (file.len() == 0 || file[0] != '/') ==> {
            &&& dir[dir.len() - 1] == '/' ==> path_below(dir, file) == dir + file
            &&& dir[dir.len() - 1] != '/' ==> path_below(dir, file) == dir + seq!['/'] + file
        },
{
    assert(dir.push('/') =~= dir + seq!['/']);
}

/// The time of a dump is written as date, dash and time of day.
pub proof fn law_pattern_of_the_time()
    ensures
        STAMP_PATTERN@ == "%Y%m%d-%H%M%S"@,
{
}

} // verus!
