//! The `remote-list` command: the archives of the remotes, once each.

use vstd::prelude::*;
use vstd::string::StringExecFns;
use crate::archive_helper::{ArchiveMetadata, ArchiveMetadataView, bad_time_message, no_file_name_message};
use crate::archive_type::{ArchiveType, parse_optional_archive_type, spec_parse_type, spec_type_name, unknown_type_message};
use crate::errors::{CustomError, Result, fails_with_message, fails_with_user_error};
use crate::extensions::{PathExtensions, spec_path_file_name, spec_path_file_stem};
use crate::list_archives::{listing_date, listing_date_text};
use crate::remote_helper::{RemoteArchiveMetadata, RemoteArchiveView, remote_archive_views};
use crate::text::{push_char, string_views};

verus! {

/// The arguments of `remote-list`.
pub struct RemoteListCommandOptions {
    /// Only archives of this type; all types when absent.
    pub archive_type: Option<ArchiveType>,
}

/// Reads the arguments of `remote-list` (the value of `--archive-type`).
pub fn remote_list_command_options(archive_type_value: Option<&str>) -> (res: Result<RemoteListCommandOptions>)
    ensures
        match archive_type_value {
            None => res matches Ok(o) && o.archive_type is None,
            Some(v) => match spec_parse_type(v@) {
                Some(t) => res matches Ok(o) && o.archive_type == Some(t),
                None => fails_with_user_error(res, unknown_type_message(v@)),
            },
        },
{
    match parse_optional_archive_type(archive_type_value) {
        Ok(archive_type) => Ok(RemoteListCommandOptions { archive_type }),
        Err(e) => Err(e),
    }
}

/// The length of a text in UTF-8 bytes.
pub open spec fn byte_len(s: Seq<char>) -> int {
    vstd::utf8::encode_utf8(s).len() as int
}

/// `n` spaces.
pub open spec fn spaces(n: int) -> Seq<char> {
    Seq::new(n as nat, |i: int| ' ')
}

/// `s` followed by spaces up to `width` bytes (unchanged when already that
/// long).
pub open spec fn pad_right(s: Seq<char>, width: int) -> Seq<char> {
    if byte_len(s) < width {
        s + spaces(width - byte_len(s))
    } else {
        s
    }
}

/// The largest byte length among `names` (0 for none).
pub open spec fn max_byte_len(names: Seq<Seq<char>>) -> int
    decreases names.len(),
{
    if names.len() == 0 {
        0
    } else {
        let m = max_byte_len(names.drop_last());
        if byte_len(names.last()) > m { byte_len(names.last()) } else { m }
    }
}

/// The archives of the remotes, each file stem once (the first occurrence
/// stays), with the stems seen; `None` when a path has no file stem.
pub open spec fn spec_dedup(s: Seq<RemoteArchiveView>) -> Option<(Seq<ArchiveMetadataView>, Seq<Seq<char>>)>
    decreases s.len(),
{
    if s.len() == 0 {
        Some((Seq::empty(), Seq::empty()))
    } else {
        match spec_dedup(s.drop_last()) {
            None => None,
            Some((list, stems)) => match spec_path_file_stem(s.last().archive.full_path) {
                None => None,
                Some(st) => if stems.contains(st) {
                    Some((list, stems))
                } else {
                    Some((list.push(s.last().archive), stems.push(st)))
                },
            },
        }
    }
}

/// The file names of the archives (when every path has one).
pub open spec fn listed_names(list: Seq<ArchiveMetadataView>) -> Seq<Seq<char>> {
    Seq::new(list.len(), |k: int| spec_path_file_name(list[k].full_path)->0)
}

/// The type names of the archives.
pub open spec fn listed_types(list: Seq<ArchiveMetadataView>) -> Seq<Seq<char>> {
    Seq::new(list.len(), |k: int| spec_type_name(list[k].archive_type))
}

/// The lines of `remote-list` for the listed archives: the file names and
/// the type names padded to the longest of each, then the date.
pub open spec fn spec_remote_lines(list: Seq<ArchiveMetadataView>) -> core::result::Result<Seq<Seq<char>>, Seq<char>> {
    if exists|k: int| 0 <= k < list.len() && spec_path_file_name(#[trigger] list[k].full_path) is None {
        Err(no_file_name_message())
    } else if exists|k: int| 0 <= k < list.len() && listing_date(#[trigger] list[k].archive_date) is None {
        Err(bad_time_message())
    } else {
        let names = listed_names(list);
        let types = listed_types(list);
        Ok(Seq::new(list.len(), |k: int|
            pad_right(names[k], max_byte_len(names)) + " | "@ + pad_right(types[k], max_byte_len(types))
                + " | "@ + listing_date(list[k].archive_date)->0))
    }
}

/// The outcome of `remote-list` for the listed remote archives.
pub open spec fn spec_remote_list(s: Seq<RemoteArchiveView>) -> core::result::Result<Seq<Seq<char>>, Seq<char>> {
    match spec_dedup(s) {
        None => Err("The file does not have a `file_stem`."@),
        Some((list, _)) => spec_remote_lines(list),
    }
}

fn byte_length(s: &String) -> (res: usize)
    ensures
        res == byte_len(s@),
{
    s.as_str().as_bytes().len()
}

/// `s` padded with spaces to `width` bytes.
pub fn pad_right_exec(s: &String, width: usize) -> (res: String)
    ensures
        res@ == pad_right(s@, width as int),
{
    let len = byte_length(s);
    let mut res = s.clone();
    if len < width {
        let n = width - len;
        let mut j: usize = 0;
        while j < n
            invariant
                j <= n,
                res@ == s@ + spaces(j as int),
            decreases n - j,
        {
            push_char(&mut res, ' ');
            assert(s@ + spaces(j + 1) =~= (s@ + spaces(j as int)).push(' '));
            j += 1;
        }
    } else {
        assert(res@ == s@);
    }
    res
}

fn max_len(names: &Vec<String>) -> (res: usize)
    ensures
        res == max_byte_len(string_views(names@)),
{
    let mut m: usize = 0;
    let mut i: usize = 0;
    while i < names.len()
        invariant
            i <= names.len(),
            m == max_byte_len(string_views(names@.take(i as int))),
        decreases names.len() - i,
    {
        assert(string_views(names@.take(i + 1)).drop_last() =~= string_views(names@.take(i as int)));
        assert(string_views(names@.take(i + 1)).last() == names@[i as int]@);
        let l = byte_length(&names[i]);
        if l > m {
            m = l;
        }
        i += 1;
    }
    assert(names@.take(names.len() as int) =~= names@);
    m
}

fn contains_string(v: &Vec<String>, x: &String) -> (res: bool)
    ensures
        res == string_views(v@).contains(x@),
{
    let mut i: usize = 0;
    while i < v.len()
        invariant
            i <= v.len(),
            forall|k: int| 0 <= k < i ==> v@[k]@ != x@,
        decreases v.len() - i,
    {
        if v[i] == *x {
            assert(string_views(v@)[i as int] == x@);
            return true;
        }
        i += 1;
    }
    proof {
        if string_views(v@).contains(x@) {
            let k = choose|k: int| 0 <= k < string_views(v@).len() && string_views(v@)[k] == x@;
            assert(v@[k]@ == x@);
        }
    }
    false
}

proof fn lemma_dedup_fails_after(s: Seq<RemoteArchiveView>, i: int)
    requires
        0 <= i <= s.len(),
        spec_dedup(s.take(i)) is None,
    ensures
        spec_dedup(s) is None,
    decreases s.len() - i,
{
    if i < s.len() {
        assert(s.take(i + 1).drop_last() =~= s.take(i));
        lemma_dedup_fails_after(s, i + 1);
    } else {
        assert(s.take(i) =~= s);
    }
}


fn dedup_by_stem(archives: &Vec<RemoteArchiveMetadata>) -> (res: Result<Vec<ArchiveMetadata>>)
    ensures
        match spec_dedup(remote_archive_views(archives@)) {
            None => fails_with_message(res, "The file does not have a `file_stem`."@),
            Some((list, _)) => res matches Ok(v) && crate::archive_helper::metadata_views(v@) == list,
        },
{
    let ghost s = remote_archive_views(archives@);
    let mut list: Vec<ArchiveMetadata> = Vec::new();
    let mut stems: Vec<String> = Vec::new();
    let mut i: usize = 0;
    assert(s.take(0) =~= Seq::<RemoteArchiveView>::empty());
    assert(crate::archive_helper::metadata_views(list@) =~= Seq::<ArchiveMetadataView>::empty());
    assert(string_views(stems@) =~= Seq::<Seq<char>>::empty());
    while i < archives.len()
        invariant
            i <= archives.len(),
            s == remote_archive_views(archives@),
            spec_dedup(s.take(i as int)) == Some((crate::archive_helper::metadata_views(list@), string_views(stems@))),
        decreases archives.len() - i,
    {
        assert(s.take(i + 1).drop_last() =~= s.take(i as int));
        assert(s.take(i + 1).last() == archives@[i as int]@);
        let stem = match archives[i].archive_metadata.full_path.as_str().file_stem_as_string() {
            Ok(st) => st,
            Err(e) => {
                proof {
                    lemma_dedup_fails_after(s, i + 1);
                }
                return Err(e);
            },
        };
        if !contains_string(&stems, &stem) {
            let ghost before_list = crate::archive_helper::metadata_views(list@);
            let ghost before_stems = string_views(stems@);
            list.push(archives[i].archive_metadata.copy());
            stems.push(stem);
            assert(crate::archive_helper::metadata_views(list@) =~= before_list.push(archives@[i as int].archive_metadata@));
            assert(string_views(stems@) =~= before_stems.push(stem@));
        }
        i += 1;
    }
    assert(s.take(archives.len() as int) =~= s);
    Ok(list)
}

/// The lines that `remote-list` prints for the listed remote archives: each
/// archive once per file stem, with its file name and type padded to the
/// longest ones and its date.
pub fn remote_list_archive_command(archives: &Vec<RemoteArchiveMetadata>) -> (res: Result<Vec<String>>)
    ensures
        match spec_remote_list(remote_archive_views(archives@)) {
            Err(msg) => fails_with_message(res, msg),
            Ok(lines) => res matches Ok(v) && string_views(v@) == lines,
        },
{
    let list = match dedup_by_stem(archives) {
        Ok(l) => l,
        Err(e) => return Err(e),
    };
    let ghost lv = crate::archive_helper::metadata_views(list@);
    assert(spec_dedup(remote_archive_views(archives@)) is Some);
    assert((spec_dedup(remote_archive_views(archives@))->0).0 == lv);
    let mut names: Vec<String> = Vec::new();
    let mut types: Vec<String> = Vec::new();
    let mut k: usize = 0;
    while k < list.len()
        invariant
            k <= list.len(),
            lv == crate::archive_helper::metadata_views(list@),
            spec_dedup(remote_archive_views(archives@)) is Some,
            (spec_dedup(remote_archive_views(archives@))->0).0 == lv,
            names@.len() == k,
            types@.len() == k,
            forall|q: int| 0 <= q < k ==> spec_path_file_name(#[trigger] lv[q].full_path) == Some(names@[q]@),
            forall|q: int| 0 <= q < k ==> (#[trigger] types@[q])@ == spec_type_name(lv[q].archive_type),
        decreases list.len() - k,
    {
        assert(lv[k as int] == list@[k as int]@);
        match list[k].full_path.as_str().file_name_as_string() {
            Ok(n) => names.push(n),
            Err(e) => {
                assert(spec_path_file_name(lv[k as int].full_path) is None);
                assert(spec_remote_lines(lv) == core::result::Result::<Seq<Seq<char>>, Seq<char>>::Err(no_file_name_message()));
                return Err(e);
            },
        }
        types.push(list[k].archive_type.to_string());
        k += 1;
    }
    assert(string_views(names@) =~= listed_names(lv));
    assert(string_views(types@) =~= listed_types(lv));
    let mut dates: Vec<String> = Vec::new();
    let mut k: usize = 0;
    while k < list.len()
        invariant
            k <= list.len(),
            lv == crate::archive_helper::metadata_views(list@),
            spec_dedup(remote_archive_views(archives@)) is Some,
            (spec_dedup(remote_archive_views(archives@))->0).0 == lv,
            dates@.len() == k,
            forall|q: int| 0 <= q < k ==> listing_date(#[trigger] lv[q].archive_date) == Some(dates@[q]@),
            forall|q: int| 0 <= q < lv.len() ==> spec_path_file_name(#[trigger] lv[q].full_path) is Some,
        decreases list.len() - k,
    {
        assert(lv[k as int] == list@[k as int]@);
        match listing_date_text(list[k].archive_date) {
            Ok(d) => dates.push(d),
            Err(e) => {
                assert(listing_date(lv[k as int].archive_date) is None);
                assert(spec_remote_lines(lv) == core::result::Result::<Seq<Seq<char>>, Seq<char>>::Err(bad_time_message()));
                return Err(e);
            },
        }
        k += 1;
    }
    let name_width = max_len(&names);
    let type_width = max_len(&types);
    let mut lines: Vec<String> = Vec::new();
    let mut k: usize = 0;
    while k < list.len()
        invariant
            k <= list.len(),
            lv == crate::archive_helper::metadata_views(list@),
            spec_dedup(remote_archive_views(archives@)) is Some,
            (spec_dedup(remote_archive_views(archives@))->0).0 == lv,
            names@.len() == lv.len(),
            types@.len() == lv.len(),
            dates@.len() == lv.len(),
            string_views(names@) == listed_names(lv),
            string_views(types@) == listed_types(lv),
            name_width == max_byte_len(listed_names(lv)),
            type_width == max_byte_len(listed_types(lv)),
            forall|q: int| 0 <= q < lv.len() ==> listing_date(#[trigger] lv[q].archive_date) == Some(dates@[q]@),
            lines@.len() == k,
            forall|q: int| 0 <= q < k ==> (#[trigger] lines@[q])@ == pad_right(listed_names(lv)[q], name_width as int) + " | "@
                + pad_right(listed_types(lv)[q], type_width as int) + " | "@ + listing_date(lv[q].archive_date)->0,
        decreases list.len() - k,
    {
        assert(string_views(names@)[k as int] == names@[k as int]@);
        assert(string_views(types@)[k as int] == types@[k as int]@);
        let mut line = pad_right_exec(&names[k], name_width);
        line.append(" | ");
        let t = pad_right_exec(&types[k], type_width);
        line.append(t.as_str());
        line.append(" | ");
        line.append(dates[k].as_str());
        lines.push(line);
        k += 1;
    }
    proof {
        assert(!(exists|q: int| 0 <= q < lv.len() && spec_path_file_name(#[trigger] lv[q].full_path) is None));
        assert(!(exists|q: int| 0 <= q < lv.len() && listing_date(#[trigger] lv[q].archive_date) is None));
        let expected = spec_remote_lines(lv)->Ok_0;
        assert(string_views(lines@) =~= expected);
    }
    Ok(lines)
}

/// The file stem of a remote archive (as `Path::file_stem` gives it).
pub open spec fn stem_of(a: ArchiveMetadataView) -> Option<Seq<char>> {
    spec_path_file_stem(a.full_path)
}

/// `a` is the archive of the first remote archive with its stem.
pub open spec fn first_of_its_stem(s: Seq<RemoteArchiveView>, a: ArchiveMetadataView) -> bool {
    exists|j: int| 0 <= j < s.len() && (#[trigger] s[j]).archive == a
        && forall|q: int| 0 <= q < j ==> stem_of((#[trigger] s[q]).archive) != stem_of(a)
}

/// `remote-list` shows each archive once: when every remote archive has a
/// file stem, the listed archives have pairwise distinct stems, every remote
/// archive's stem is among them, and each listed archive is the first remote
/// archive with its stem; otherwise the listing fails.
pub proof fn lemma_dedup_each_stem_once(s: Seq<RemoteArchiveView>)
    ensures
        spec_dedup(s) is None <==> exists|j: int| 0 <= j < s.len() && stem_of((#[trigger] s[j]).archive) is None,
        spec_dedup(s) matches Some((list, stems)) ==> {
            &&& list.len() == stems.len()
            &&& forall|k: int| 0 <= k < list.len() ==> stem_of(#[trigger] list[k]) == Some(stems[k])
            &&& forall|a: int, b: int| 0 <= a < b < list.len() ==> stem_of(#[trigger] list[a]) != stem_of(#[trigger] list[b])
            &&& forall|j: int| 0 <= j < s.len() ==> stems.contains(stem_of((#[trigger] s[j]).archive)->0)
            &&& forall|k: int| 0 <= k < list.len() ==> #[trigger] first_of_its_stem(s, list[k])
        },
    decreases s.len(),
{
    if s.len() > 0 {
        let init = s.drop_last();
        lemma_dedup_each_stem_once(init);
        assert forall|q: int| 0 <= q < init.len() implies #[trigger] init[q] == s[q] by {}
        match spec_dedup(init) {
            None => {
                let j = choose|j: int| 0 <= j < init.len() && stem_of((#[trigger] init[j]).archive) is None;
                assert(s[j] == init[j]);
            },
            Some((li, si)) => {
                match stem_of(s.last().archive) {
                    None => {
                        assert(s[s.len() - 1] == s.last());
                    },
                    Some(st) => {
                        let (list, stems) = spec_dedup(s)->0;
                        assert(forall|j: int| 0 <= j < init.len() ==> stem_of((#[trigger] init[j]).archive) is Some);
                        if si.contains(st) {
                            assert(list == li && stems == si);
                            assert forall|j: int| 0 <= j < s.len() implies stems.contains(stem_of((#[trigger] s[j]).archive)->0) by {
                                if j < s.len() - 1 {
                                    assert(s[j] == init[j]);
                                } else {
                                    assert(s[j] == s.last());
                                }
                            }
                            assert forall|k: int| 0 <= k < list.len() implies #[trigger] first_of_its_stem(s, list[k]) by {
                                assert(first_of_its_stem(init, li[k]));
                                let j = choose|j: int| 0 <= j < init.len()
                                    && (#[trigger] init[j]).archive == li[k]
                                    && forall|q: int| 0 <= q < j ==> stem_of((#[trigger] init[q]).archive) != stem_of(li[k]);
                                assert(s[j] == init[j]);
                                assert(s[j].archive == list[k]);
                                assert forall|q: int| 0 <= q < j implies stem_of((#[trigger] s[q]).archive) != stem_of(list[k]) by {
                                    assert(s[q] == init[q]);
                                }
                            }
                        } else {
                            assert(list == li.push(s.last().archive) && stems == si.push(st));
                            let n = li.len();
                            assert forall|k: int| 0 <= k < list.len() implies stem_of(#[trigger] list[k]) == Some(stems[k]) by {
                                if k < n {
                                    assert(list[k] == li[k]);
                                    assert(stems[k] == si[k]);
                                }
                            }
                            assert forall|a: int, b: int| 0 <= a < b < list.len() implies stem_of(#[trigger] list[a]) != stem_of(#[trigger] list[b]) by {
                                assert(list[a] == li[a]);
                                if b < n {
                                    assert(list[b] == li[b]);
                                } else {
                                    assert(stem_of(list[a]) == Some(si[a]));
                                    assert(si[a] != st);
                                }
                            }
                            assert forall|j: int| 0 <= j < s.len() implies stems.contains(stem_of((#[trigger] s[j]).archive)->0) by {
                                if j < s.len() - 1 {
                                    assert(s[j] == init[j]);
                                    let m = choose|m: int| 0 <= m < si.len() && si[m] == stem_of(init[j].archive)->0;
                                    assert(stems[m] == si[m]);
                                } else {
                                    assert(s[j] == s.last());
                                    assert(stems[n as int] == st);
                                }
                            }
                            assert forall|k: int| 0 <= k < list.len() implies #[trigger] first_of_its_stem(s, list[k]) by {
                                if k < n {
                                    assert(list[k] == li[k]);
                                    assert(first_of_its_stem(init, li[k]));
                                    let j = choose|j: int| 0 <= j < init.len()
                                        && (#[trigger] init[j]).archive == li[k]
                                        && forall|q: int| 0 <= q < j ==> stem_of((#[trigger] init[q]).archive) != stem_of(li[k]);
                                    assert(s[j] == init[j]);
                                    assert(s[j].archive == list[k]);
                                    assert forall|q: int| 0 <= q < j implies stem_of((#[trigger] s[q]).archive) != stem_of(list[k]) by {
                                        assert(s[q] == init[q]);
                                    }
                                } else {
                                    let j = s.len() - 1;
                                    assert(s[j] == s.last());
                                    assert(s[j].archive == list[k]);
                                    assert forall|q: int| 0 <= q < j implies stem_of((#[trigger] s[q]).archive) != stem_of(list[k]) by {
                                        assert(s[q] == init[q]);
                                        if stem_of(init[q].archive) == Some(st) {
                                            assert(si.contains(st));
                                        }
                                    }
                                }
                            }
                        }
                    },
                }
            },
        }
        if exists|j: int| 0 <= j < s.len() && stem_of((#[trigger] s[j]).archive) is None {
            let j = choose|j: int| 0 <= j < s.len() && stem_of((#[trigger] s[j]).archive) is None;
            if j < s.len() - 1 {
                assert(init[j] == s[j]);
            }
        }
    }
}

/// Some remote archive before index `j` has the stem `st`.
pub open spec fn stem_seen_before(s: Seq<RemoteArchiveView>, j: int, st: Option<Seq<char>>) -> bool {
    exists|i: int| 0 <= i < j && stem_of((#[trigger] s[i]).archive) == st
}

/// `remote-list` keeps the order in which the stems first appear: of two
/// listed archives, the earlier one's stem occurs before any occurrence of
/// the later one's stem.
pub proof fn lemma_dedup_keeps_first_appearance_order(s: Seq<RemoteArchiveView>)
    ensures
        spec_dedup(s) matches Some((list, stems)) ==> forall|a: int, b: int, j: int|
            #![trigger s[j], list[a], list[b]]
            0 <= a < b < list.len() && 0 <= j < s.len() && stem_of(s[j].archive) == stem_of(list[b])
                ==> stem_seen_before(s, j, stem_of(list[a])),
    decreases s.len(),
{
    if s.len() > 0 {
        let init = s.drop_last();
        lemma_dedup_keeps_first_appearance_order(init);
        lemma_dedup_each_stem_once(init);
        lemma_dedup_each_stem_once(s);
        assert forall|q: int| 0 <= q < init.len() implies #[trigger] init[q] == s[q] by {}
        if spec_dedup(s) is Some {
            let (list, stems) = spec_dedup(s)->0;
            let (li, si) = spec_dedup(init)->0;
            let st = stem_of(s.last().archive)->0;
            let n = li.len();
            assert forall|a: int, b: int, j: int|
                #![trigger s[j], list[a], list[b]]
                0 <= a < b < list.len() && 0 <= j < s.len() && stem_of(s[j].archive) == stem_of(list[b])
                implies stem_seen_before(s, j, stem_of(list[a])) by {
                assert(list[a] == li[a]);
                assert(first_of_its_stem(init, li[a]));
                let i = choose|i: int| 0 <= i < init.len() && (#[trigger] init[i]).archive == li[a]
                    && forall|q: int| 0 <= q < i ==> stem_of((#[trigger] init[q]).archive) != stem_of(li[a]);
                assert(s[i] == init[i]);
                if j < s.len() - 1 {
                    assert(s[j] == init[j]);
                    if b < n {
                        assert(list[b] == li[b]);
                        assert(stem_seen_before(init, j, stem_of(li[a])));
                        let w = choose|w: int| 0 <= w < j && stem_of((#[trigger] init[w]).archive) == stem_of(li[a]);
                        assert(s[w] == init[w]);
                    } else {
                        assert(list[b] == s.last().archive);
                        assert(si.contains(stem_of(init[j].archive)->0));
                        assert(stem_of(list[b]) == Some(st));
                        assert(false);
                    }
                } else {
                    assert(i < j);
                    assert(stem_of(s[i].archive) == stem_of(list[a]));
                }
            }
        }
    }
}

} // verus!
