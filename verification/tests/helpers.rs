use xdxd_backup::archive_helper::{archive_file_name, parse_archive_file_name, read_metadata};
use xdxd_backup::archive_type::ArchiveType;
use xdxd_backup::dates::{days_valid, is_expired};
use xdxd_backup::list_archives::listing_date_text;
use xdxd_backup::do_try::{run, FinStruct};
use xdxd_backup::errors::{CustomError, CustomErrorKind, ResultExtensions};
use xdxd_backup::extensions::{OptionBorrow, OptionErrorExtensions, OptionFlatten, PathExtensions, StrExtensions};
use xdxd_backup::text::{contains_str, from_chars, join_strings, replace_char, split, to_chars};

fn message(e: &CustomError) -> String {
    match &e.kind {
        CustomErrorKind::ErrorMessage(m) => m.clone(),
        CustomErrorKind::UserError(m) => format!("user: {}", m),
        CustomErrorKind::XmlError(_) => "xml".to_string(),
    }
}

#[test]
fn finally_runs_and_keeps_the_first_error() {
    let mut ran = false;
    let ok: Result<i32, CustomError> = run(|| Ok(5)).finally(|| { ran = true; Ok(()) });
    assert_eq!(ok.unwrap(), 5);
    assert!(ran);
    let work_failed = run(|| Err::<i32, _>(CustomError::from_message("work"))).finally(|| Err(CustomError::from_message("cleanup")));
    assert_eq!(message(&work_failed.unwrap_err()), "work");
    let cleanup_failed = run(|| Ok(1)).finally(|| Err(CustomError::from_message("cleanup")));
    assert_eq!(message(&cleanup_failed.unwrap_err()), "cleanup");
    let direct = FinStruct { result: Ok::<u8, CustomError>(7) };
    assert_eq!(direct.finally(|| Ok(())).unwrap(), 7);
}

#[test]
fn last_index_of_counts_from_the_end() {
    assert_eq!("a.b.c".last_index_of('.'), Some(3));
    assert_eq!("abc".last_index_of('x'), None);
    assert_eq!("x".last_index_of('x'), Some(0));
}

#[test]
fn path_parts() {
    let p = "/srv/cache/day_1/archive.tar.gz";
    assert_eq!(p.file_name_as_string().unwrap(), "archive.tar.gz");
    assert_eq!(p.file_stem_as_string().unwrap(), "archive.tar");
    assert_eq!(p.extension_as_string().unwrap(), "gz");
    assert_eq!(p.get_directory(), "/srv/cache/day_1");
    assert_eq!(p.get_directory_as_string().unwrap(), "/srv/cache/day_1");
    assert_eq!("/srv".combine_with("x"), "/srv/x");
    assert_eq!(p.get_as_string().unwrap(), p);
    assert_eq!(message(&"/srv/noext".extension_as_string().unwrap_err()), "The file does not have an extension");
    assert_eq!(message(&"/".file_stem_as_string().unwrap_err()), "The file does not have a `file_stem`.");
}

#[test]
fn option_helpers() {
    assert_eq!(OptionFlatten::flatten(Some(Some(3))), Some(3));
    assert_eq!(OptionFlatten::flatten(Some(None::<i32>)), None);
    let v = Some(4);
    assert_eq!(OptionBorrow::map(&v, |x: &i32| x + 1), Some(5));
    assert_eq!(OptionBorrow::map(&None::<i32>, |x: &i32| x + 1), None);
    let r = OptionBorrow::map_result(&v, |x: &i32| Ok::<i32, CustomError>(x * 2)).unwrap();
    assert_eq!(r.unwrap(), 8);
    assert_eq!(message(&None::<i32>.or_error("missing").unwrap_err()), "missing");
    assert_eq!(Some(1).or_error("missing").unwrap(), 1);
    let replaced = Err::<i32, &str>("low level").replace_error(|| CustomError::user_error("nicer"));
    assert_eq!(message(&replaced.unwrap_err()), "user: nicer");
    assert_eq!(Ok::<i32, &str>(2).replace_error(|| CustomError::user_error("nicer")).unwrap(), 2);
}

#[test]
fn text_helpers() {
    assert_eq!(split("a.b..c", '.'), vec!["a", "b", "", "c"]);
    assert_eq!(split("", '.'), vec![""]);
    assert_eq!(join_strings(&vec!["a".to_string(), "b".to_string()], ", "), "a, b");
    assert!(contains_str("rsync: file has vanished", "vanished"));
    assert!(!contains_str("vanish", "vanished"));
    assert!(contains_str("abc", ""));
    assert_eq!(replace_char("a\nb\n", '\n', ' '), "a b ");
    assert_eq!(from_chars(&to_chars("héllo")), "héllo");
}

#[test]
fn timestamps_in_file_names() {
    assert_eq!(
        archive_file_name(&ArchiveType::DockerVolumes, "1969-12-31", -42),
        "docker-volumes.1969-12-31.-42.backup"
    );
    assert_eq!(
        parse_archive_file_name("docker-volumes.x.+17.backup"),
        Some((ArchiveType::DockerVolumes, 17))
    );
    assert_eq!(
        parse_archive_file_name("docker-volumes.x.-9223372036854775808.backup"),
        None
    );
    assert_eq!(parse_archive_file_name("docker-volumes.x.-62135596800.backup"), Some((ArchiveType::DockerVolumes, -62135596800)));
    assert_eq!(parse_archive_file_name("docker-volumes.x. 1.backup"), None);
    assert_eq!(parse_archive_file_name("docker-volumes.x.-.backup"), None);
}

#[test]
fn dates_and_expiry() {
    assert_eq!(listing_date_text(0).unwrap(), "1970-01-01 00:00:00");
    assert_eq!(listing_date_text(1577836800 + 3661).unwrap(), "2020-01-01 01:01:01");
    assert!(listing_date_text(i64::MAX).is_err());
    assert!(read_metadata("/c/d/docker-volumes.x.1577836800.backup").unwrap().is_some());
    assert!(read_metadata("/c/d/docker-volumes.x.9223372036854775807.backup").unwrap().is_none());
    assert!(parse_archive_file_name("docker-volumes.x.-8334601228800.backup").is_some());
    assert!(parse_archive_file_name("docker-volumes.x.-8334601228801.backup").is_none());
    assert!(parse_archive_file_name("docker-volumes.x.8210266876799.backup").is_some());
    assert!(parse_archive_file_name("docker-volumes.x.8210266876800.backup").is_none());
    assert!(listing_date_text(8210266876799).is_ok());
    assert!(listing_date_text(8210266876800).is_err());
    assert!(listing_date_text(-8334601228800).is_ok());
    assert!(days_valid(36500));
    assert!(!days_valid(i64::MAX / 86400));
    assert!(is_expired(100, 100 + 2 * 86400, 1));
    assert!(!is_expired(100, 100 + 86400, 1));
}
