//! The `list` command: the archives of the local cache.

use vstd::prelude::*;
use vstd::string::StringExecFns;
use crate::archive_helper::{ArchiveMetadata, ArchiveMetadataView, bad_time_message, metadata_views, no_file_name_message};
use crate::archive_type::{ArchiveType, parse_optional_archive_type, spec_parse_type, spec_type_name, unknown_type_message};
use crate::dates::{format_timestamp, spec_format_timestamp};
use crate::errors::{CustomError, Result, fails_with_message, fails_with_user_error};
use crate::extensions::{PathExtensions, spec_path_file_name};
use crate::text::string_views;

verus! {

/// The arguments of `list`.
pub struct ListCommandOptions {
    /// Only archives of this type; all types when absent.
    pub archive_type: Option<ArchiveType>,
}

/// Reads the arguments of `list` (the value of `--archive-type`).
pub fn list_command_options(archive_type_value: Option<&str>) -> (res: Result<ListCommandOptions>)
    ensures
        match archive_type_value {
            None => res matches Ok(o) && o.archive_type is None,
            Some(v) => match spec_parse_type(v@) {
                Some(t) => res matches Ok(o) && o.archive_type == Some(t),
                None => fails_with_user_error(res, unknown_type_message(v@)),
            },
        },
{
    match parse_optional_archive_type(archive_type_value) {
        Ok(archive_type) => Ok(ListCommandOptions { archive_type }),
        Err(e) => Err(e),
    }
}

/// The date and time form of the listings.
pub open spec fn listing_date(ts: i64) -> Option<Seq<char>> {
    spec_format_timestamp(ts, "%Y-%m-%d %H:%M:%S"@)
}

/// The line of an archive in `list`: `<file name> | <type> | <date>`, or the
/// message of what is missing.
pub open spec fn spec_list_line(m: ArchiveMetadataView) -> core::result::Result<Seq<char>, Seq<char>> {
    match spec_path_file_name(m.full_path) {
        None => Err(no_file_name_message()),
        Some(name) => match listing_date(m.archive_date) {
            None => Err(bad_time_message()),
            Some(date) => Ok(name + " | "@ + spec_type_name(m.archive_type) + " | "@ + date),
        },
    }
}

/// The lines of the archives, stopping at the first error.
pub open spec fn spec_list_lines(s: Seq<ArchiveMetadataView>) -> core::result::Result<Seq<Seq<char>>, Seq<char>>
    decreases s.len(),
{
    if s.len() == 0 {
        Ok(Seq::empty())
    } else {
        match spec_list_lines(s.drop_last()) {
            Err(m) => Err(m),
            Ok(lines) => match spec_list_line(s.last()) {
                Err(m) => Err(m),
                Ok(l) => Ok(lines.push(l)),
            },
        }
    }
}

/// The text of the instant `ts` in listings.
pub fn listing_date_text(ts: i64) -> (res: Result<String>)
    ensures
        match listing_date(ts) {
            None => fails_with_message(res, bad_time_message()),
            Some(d) => res matches Ok(s) && s@ == d,
        },
{
    match format_timestamp(ts, "%Y-%m-%d %H:%M:%S") {
        Some(d) => Ok(d),
        None => Err(CustomError::from_message("The time cannot be represented as a date.")),
    }
}

fn list_line(m: &ArchiveMetadata) -> (res: Result<String>)
    ensures
        match spec_list_line(m@) {
            Err(msg) => fails_with_message(res, msg),
            Ok(l) => res matches Ok(s) && s@ == l,
        },
{
    let name = match m.full_path.as_str().file_name_as_string() {
        Ok(n) => n,
        Err(e) => return Err(e),
    };
    let date = match listing_date_text(m.archive_date) {
        Ok(d) => d,
        Err(e) => return Err(e),
    };
    let mut line = name;
    line.append(" | ");
    let t = m.archive_type.to_string();
    line.append(t.as_str());
    line.append(" | ");
    line.append(date.as_str());
    Ok(line)
}

/// The lines that `list` prints for the listed local archives.
pub fn list_archive_command(archives: &Vec<ArchiveMetadata>) -> (res: Result<Vec<String>>)
    ensures
        match spec_list_lines(metadata_views(archives@)) {
            Err(msg) => fails_with_message(res, msg),
            Ok(lines) => res matches Ok(v) && string_views(v@) == lines,
        },
{
    let ghost s = metadata_views(archives@);
    let mut lines: Vec<String> = Vec::new();
    let mut i: usize = 0;
    assert(string_views(lines@) =~= Seq::<Seq<char>>::empty());
    assert(s.take(0) =~= Seq::<ArchiveMetadataView>::empty());
    while i < archives.len()
        invariant
            i <= archives.len(),
            s == metadata_views(archives@),
            spec_list_lines(s.take(i as int)) == core::result::Result::<Seq<Seq<char>>, Seq<char>>::Ok(string_views(lines@)),
        decreases archives.len() - i,
    {
        assert(s.take(i + 1).drop_last() =~= s.take(i as int));
        assert(s.take(i + 1).last() == archives@[i as int]@);
        match list_line(&archives[i]) {
            Err(e) => {
                proof {
                    lemma_list_lines_fail_after(s, i as int + 1);
                }
                return Err(e);
            },
            Ok(l) => {
                let ghost before = string_views(lines@);
                lines.push(l);
                assert(string_views(lines@) =~= before.push(l@));
            },
        }
        i += 1;
    }
    assert(s.take(archives.len() as int) =~= s);
    Ok(lines)
}

proof fn lemma_list_lines_fail_after(s: Seq<ArchiveMetadataView>, i: int)
    requires
        0 <= i <= s.len(),
        spec_list_lines(s.take(i)) is Err,
    ensures
        spec_list_lines(s) == spec_list_lines(s.take(i)),
    decreases s.len() - i,
{
    if i < s.len() {
        assert(s.take(i + 1).drop_last() =~= s.take(i));
        lemma_list_lines_fail_after(s, i + 1);
    } else {
        assert(s.take(i) =~= s);
    }
}

/// Listing gives one line per archive, in order: line `k` is the file name
/// of archive `k`, its type name and its date, separated by ` | `. It fails
/// exactly when some archive has no file name or a date that cannot be
/// written.
pub proof fn lemma_list_line_per_archive(s: Seq<ArchiveMetadataView>)
    ensures
        spec_list_lines(s) matches Ok(lines) ==> lines.len() == s.len(),
        spec_list_lines(s) matches Ok(lines) ==> forall|k: int| 0 <= k < s.len() ==> {
            &&& spec_path_file_name(s[k].full_path) is Some
            &&& listing_date(s[k].archive_date) is Some
            &&& #[trigger] lines[k] == spec_path_file_name(s[k].full_path)->0 + " | "@
                + spec_type_name(s[k].archive_type) + " | "@ + listing_date(s[k].archive_date)->0
        },
        spec_list_lines(s) is Err <==> exists|k: int| 0 <= k < s.len()
            && (spec_path_file_name((#[trigger] s[k]).full_path) is None || listing_date(s[k].archive_date) is None),
    decreases s.len(),
{
    if s.len() > 0 {
        let init = s.drop_last();
        lemma_list_line_per_archive(init);
        match spec_list_lines(s) {
            Ok(lines) => {
                let li = spec_list_lines(init)->Ok_0;
                assert(spec_list_lines(init) is Ok);
                assert forall|k: int| 0 <= k < s.len() implies {
                    &&& spec_path_file_name(s[k].full_path) is Some
                    &&& listing_date(s[k].archive_date) is Some
                    &&& #[trigger] lines[k] == spec_path_file_name(s[k].full_path)->0 + " | "@
                        + spec_type_name(s[k].archive_type) + " | "@ + listing_date(s[k].archive_date)->0
                } by {
                    if k < s.len() - 1 {
                        assert(init[k] == s[k]);
                        assert(lines[k] == li[k]);
                    }
                }
            },
            Err(_) => {
                if spec_list_lines(init) is Err {
                    let k = choose|k: int| 0 <= k < init.len()
                        && (spec_path_file_name((#[trigger] init[k]).full_path) is None || listing_date(init[k].archive_date) is None);
                    assert(s[k] == init[k]);
                } else {
                    assert(s[s.len() - 1] == s.last());
                }
            },
        }
        if exists|k: int| 0 <= k < s.len()
            && (spec_path_file_name((#[trigger] s[k]).full_path) is None || listing_date(s[k].archive_date) is None) {
            let k = choose|k: int| 0 <= k < s.len()
                && (spec_path_file_name((#[trigger] s[k]).full_path) is None || listing_date(s[k].archive_date) is None);
            if k < s.len() - 1 {
                assert(init[k] == s[k]);
            }
        }
    }
}

} // verus!
